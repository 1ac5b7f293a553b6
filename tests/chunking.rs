use transcript_summary::chunk::{chunk_len, split, split_words};

fn strings(v: &[&str]) -> Vec<String> {
    v.iter().map(|s| s.to_string()).collect()
}

#[test]
fn split_into_one_returns_text_unchanged() {
    assert_eq!(split("  hello   world \n", 1), strings(&["  hello   world \n"]));
    assert_eq!(split("", 1), strings(&[""]));
    assert_eq!(split("a b", 0), strings(&["a b"]));
}

#[test]
fn split_groups_words_by_ceiling_size() {
    assert_eq!(split("a b c d e", 2), strings(&["a b c", "d e"]));
    assert_eq!(split("a b c d e f", 3), strings(&["a b", "c d", "e f"]));
}

#[test]
fn split_gives_fewer_chunks_when_words_are_few() {
    assert_eq!(split("a b c", 5), strings(&["a", "b", "c"]));
    // five words in four chunks: size two, so three chunks
    let r = split("a b c d e", 4);
    assert_eq!(r, strings(&["a b", "c d", "e"]));
}

#[test]
fn split_of_text_without_words_gives_one_empty_chunk() {
    assert_eq!(split("", 2), strings(&[""]));
    assert_eq!(split(" \t\n ", 3), strings(&[""]));
}

#[test]
fn split_collapses_unicode_whitespace() {
    assert_eq!(
        split("one\ttwo\n  three\u{a0}four\u{3000}", 2),
        strings(&["one two", "three four"])
    );
}

#[test]
fn split_chunks_rejoined_hold_the_same_words() {
    let text = "  the quick\tbrown fox\n jumps over the lazy dog ";
    for n in 2..12usize {
        let chunks = split(text, n);
        let rejoined = chunks.join(" ");
        let again: Vec<&str> = rejoined.split_whitespace().collect();
        let orig: Vec<&str> = text.split_whitespace().collect();
        assert_eq!(again, orig);
        let wc = orig.len();
        let size = (wc + n - 1) / n;
        assert_eq!(chunks.len(), (wc + size - 1) / size);
        assert!(chunks.len() <= n);
    }
}

#[test]
fn split_words_matches_split_whitespace() {
    let text = " a\u{2003}bb\r\nccc  ";
    let expected: Vec<String> = text.split_whitespace().map(|s| s.to_string()).collect();
    assert_eq!(split_words(text), expected);
    assert_eq!(split_words(""), Vec::<String>::new());
}

#[test]
fn chunk_len_rounds_up() {
    assert_eq!(chunk_len(5, 2), 3);
    assert_eq!(chunk_len(6, 3), 2);
    assert_eq!(chunk_len(0, 3), 0);
    assert_eq!(chunk_len(1, 4), 1);
}
