//! Deciding whether a file may be handed to the user interface, and the
//! texts that go to the desktop once it may.

use vstd::prelude::*;
use vstd::string::StringExecFns;
use crate::allowed_paths::{AllowList, AllowedPaths};
use crate::path::{CanonicalPath, PathView};

verus! {

/// Why a file operation was turned down.
#[derive(Clone, Copy, Debug, PartialEq, Eq, Structural)]
pub enum AccessError {
    /// Nothing exists at the requested location.
    NotFound,
    /// The location exists but lies outside every allowed directory.
    AccessDenied,
}

impl AccessError {
    /// The sentence shown to the user.
    pub fn message(&self) -> (text: String)
        ensures
            text@ == match *self {
                AccessError::NotFound => "File does not exist"@,
                AccessError::AccessDenied => "Access denied: path is outside allowed directories"@,
            },
    {
        match self {
            AccessError::NotFound => "File does not exist".to_owned(),
            AccessError::AccessDenied => {
                "Access denied: path is outside allowed directories".to_owned()
            },
        }
    }
}

/// The verdict on a request to read a file: a missing file is reported first,
/// then a location that the registry does not permit.
pub open spec fn access_decision(
    list: AllowList,
    exists: bool,
    resolved: Option<PathView>,
) -> Result<(), AccessError> {
    if !exists {
        Err(AccessError::NotFound)
    } else if !list.permits(resolved) {
        Err(AccessError::AccessDenied)
    } else {
        Ok(())
    }
}

/// Decides whether a file may be handed out. `exists` says whether anything
/// was found at the requested location and `resolved` is what resolving it
/// gave.
pub fn check_access(
    exists: bool,
    resolved: Option<&CanonicalPath>,
    allowed: &AllowedPaths,
) -> (decision: Result<(), AccessError>)
    ensures
        decision == access_decision(allowed@, exists, resolved.deep_view()),
{
    if !exists {
        return Err(AccessError::NotFound);
    }
    if !allowed.is_path_allowed(resolved) {
        return Err(AccessError::AccessDenied);
    }
    Ok(())
}

/// The locator under which the user interface can play a file: the scheme
/// followed by the location exactly as it was requested.
pub open spec fn file_url_text(file_path: Seq<char>) -> Seq<char> {
    "file://"@ + file_path
}

/// Builds the locator for `file_path`.
pub fn file_url(file_path: &str) -> (url: String)
    ensures
        url@ == file_url_text(file_path@),
{
    let mut url = "file://".to_owned();
    url.append(file_path);
    url
}

/// Hands out the locator of an audio file, provided the file exists and the
/// registry permits its resolved location.
pub fn get_audio_file_url(
    file_path: &str,
    exists: bool,
    resolved: Option<&CanonicalPath>,
    allowed: &AllowedPaths,
) -> (result: Result<String, AccessError>)
    ensures
        match access_decision(allowed@, exists, resolved.deep_view()) {
            Ok(_) => result matches Ok(url) && url@ == file_url_text(file_path@),
            Err(reason) => result matches Err(e) && e == reason,
        },
{
    match check_access(exists, resolved, allowed) {
        Ok(_) => Ok(file_url(file_path)),
        Err(reason) => Err(reason),
    }
}

/// Taken on trust of the standard library: `String::push` leaves the text as
/// it was, with `ch` added at its end.
pub assume_specification[ String::push ](text: &mut String, ch: char)
    ensures
        final(text)@ == old(text)@.push(ch),
;

/// `text` with every single quote written twice, which is how a single quote
/// is spelled inside a single-quoted shell word.
pub open spec fn quotes_doubled(text: Seq<char>) -> Seq<char> {
    text.flat_map(
        |c: char|
            if c == '\'' {
                seq!['\'', '\'']
            } else {
                seq![c]
            },
    )
}

/// The shell command that puts a file on the clipboard: the location stands
/// in single quotes, with its own single quotes doubled.
pub open spec fn clipboard_script_text(file_path: Seq<char>) -> Seq<char> {
    "Set-Clipboard -Path '"@ + quotes_doubled(file_path) + "'"@
}

/// Builds the clipboard command for `file_path`.
pub fn clipboard_script(file_path: &str) -> (script: String)
    ensures
        script@ == clipboard_script_text(file_path@),
{
    let mut script = "Set-Clipboard -Path '".to_owned();
    for c in it: file_path.chars()
        invariant
            it.seq() == file_path@,
            script@ == "Set-Clipboard -Path '"@ + quotes_doubled(
                file_path@.take(it.index() as int),
            ),
    {
        proof {
            broadcast use Seq::lemma_flat_map_take_append;
        }
        if c == '\'' {
            script.push('\'');
            script.push('\'');
        } else {
            script.push(c);
        }
    }
    assert(file_path@.take(file_path@.len() as int) =~= file_path@);
    script.append("'");
    script
}

} // verus!
