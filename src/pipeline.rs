//! Checks on the pipeline's inputs, and the names of its outputs.
use vstd::prelude::*;

verus! {

/// Why the pipeline's input was refused.
#[derive(Debug, PartialEq, Eq, Structural)]
pub enum InputError {
    /// The audio has this many channels, not one.
    NotMono { channels: u16 },
    /// The audio file's name does not end in `.wav`.
    NotWav,
    /// The audio path names no file.
    NoFileName,
    /// The prompt template could not be read.
    MissingTemplate,
}

/// Accepts single-channel audio only.
pub fn check_mono(channels: u16) -> (r: Result<(), InputError>)
    ensures
        r is Ok <==> channels == 1,
        r matches Err(e) ==> e == (InputError::NotMono { channels }),
{
    if channels == 1 {
        Ok(())
    } else {
        Err(InputError::NotMono { channels })
    }
}

pub open spec fn wav_suffix() -> Seq<char> {
    seq!['.', 'w', 'a', 'v']
}

/// `path` ends with `.wav`, as `str::ends_with` tells.
pub open spec fn ends_with_wav(path: Seq<char>) -> bool {
    path.len() >= 4 && path.subrange(path.len() - 4, path.len() as int) == wav_suffix()
}

/// Whether `path` ends with `.wav`.
pub fn has_wav_suffix(path: &str) -> (r: bool)
    ensures
        r == ends_with_wav(path@),
{
    let n = path.unicode_len();
    if n < 4 {
        return false;
    }
    let ok = path.get_char(n - 4) == '.' && path.get_char(n - 3) == 'w' && path.get_char(n - 2)
        == 'a' && path.get_char(n - 1) == 'v';
    assert(ok ==> path@.subrange(n - 4, n as int) =~= wav_suffix());
    assert(path@.subrange(n - 4, n as int) == wav_suffix() ==> path@.subrange(n - 4, n as int)[0]
        == '.' && path@.subrange(n - 4, n as int)[1] == 'w' && path@.subrange(n - 4, n as int)[2]
        == 'a' && path@.subrange(n - 4, n as int)[3] == 'v');
    ok
}

/// The file name of `path` without its extension, as `Path::file_stem` gives
/// it and `OsStr::to_string_lossy` renders it; `None` where the path names no
/// file.
pub uninterp spec fn stem_of(path: Seq<char>) -> Option<Seq<char>>;

/// Relies on `std::path::Path::file_stem`, rendered by `to_string_lossy`: the
/// stem depends on the path's text alone.
#[verifier::external_body]
fn file_stem(path: &str) -> (r: Option<String>)
    ensures
        r matches Some(s) ==> stem_of(path@) == Some(s@),
        r is None ==> stem_of(path@) is None,
{
    std::path::Path::new(path).file_stem().map(|s| s.to_string_lossy().to_string())
}

/// Where the transcript and the summary of one audio file are written.
pub struct OutputPaths {
    pub transcript: String,
    pub summary: String,
}

pub open spec fn transcript_suffix() -> Seq<char> {
    seq!['.', 't', 'r', 'a', 'n', 's', 'c', 'r', 'i', 'p', 't']
}

pub open spec fn summary_suffix() -> Seq<char> {
    seq!['.', 's', 'u', 'm', 'm', 'a', 'r', 'y']
}

/// `<stem>.transcript` and `<stem>.summary`.
pub fn output_paths(stem: &str) -> (r: OutputPaths)
    ensures
        r.transcript@ == stem@ + transcript_suffix(),
        r.summary@ == stem@ + summary_suffix(),
{
    proof {
        reveal_strlit(".transcript");
        reveal_strlit(".summary");
    }
    let mut transcript = stem.to_owned();
    transcript.append(".transcript");
    let mut summary = stem.to_owned();
    summary.append(".summary");
    assert(transcript@ =~= stem@ + transcript_suffix());
    assert(summary@ =~= stem@ + summary_suffix());
    OutputPaths { transcript, summary }
}

/// The output paths for an audio file: refused unless its name ends with
/// `.wav`, named after the file's stem otherwise.
pub fn plan_outputs(audio_path: &str) -> (r: Result<OutputPaths, InputError>)
    ensures
        !ends_with_wav(audio_path@) ==> (r matches Err(e) && e == InputError::NotWav),
        ends_with_wav(audio_path@) && stem_of(audio_path@) is None ==> (r matches Err(e)
            && e == InputError::NoFileName),
        r is Ok <==> ends_with_wav(audio_path@) && stem_of(audio_path@) is Some,
        r matches Ok(p) ==> p.transcript@ == stem_of(audio_path@)->0 + transcript_suffix()
            && p.summary@ == stem_of(audio_path@)->0 + summary_suffix(),
{
    if !has_wav_suffix(audio_path) {
        return Err(InputError::NotWav);
    }
    match file_stem(audio_path) {
        Some(stem) => Ok(output_paths(stem.as_str())),
        None => Err(InputError::NoFileName),
    }
}

/// The prompt for a transcript, from a template that may be missing.
pub fn prompt_from(template: Option<String>, transcript: &str) -> (r: Result<String, InputError>)
    ensures
        template is None ==> (r matches Err(e) && e == InputError::MissingTemplate),
        template matches Some(t) ==> (r matches Ok(p) && p@ == crate::prompt::fill(t@, transcript@)),
{
    match template {
        Some(t) => Ok(crate::prompt::fill_template(t.as_str(), transcript)),
        None => Err(InputError::MissingTemplate),
    }
}

} // verus!
