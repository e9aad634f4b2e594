//! Choosing the audio files among what a directory walk turned up.

use vstd::prelude::*;
use vstd::string::StrSliceExecFns;
use crate::allowed_paths::{AllowList, AllowedPaths};
use crate::path::{CanonicalPath, PathView};
use crate::sample::{Sample, SampleView};

verus! {

/// The lower-case form of an ASCII capital; every other character stays.
pub open spec fn ascii_lowercase(c: char) -> char {
    if 'A' <= c <= 'Z' {
        ((c as u8) + 32) as char
    } else {
        c
    }
}

/// `text` with its ASCII capitals in lower case.
pub open spec fn lowercased(text: Seq<char>) -> Seq<char> {
    text.map_values(|c: char| ascii_lowercase(c))
}

/// The extensions that mark an audio file, in lower case.
pub open spec fn audio_extensions() -> Seq<Seq<char>> {
    seq!["wav"@, "mp3"@, "flac"@, "ogg"@, "aiff"@, "m4a"@]
}

/// `extension` names an audio format, whatever the case of its letters.
pub open spec fn is_audio_extension(extension: Seq<char>) -> bool {
    audio_extensions().contains(lowercased(extension))
}

/// The position of the last dot in `name`, or -1 where it has none.
pub open spec fn last_dot(name: Seq<char>) -> int
    decreases name.len(),
{
    if name.len() == 0 {
        -1
    } else if name.last() == '.' {
        name.len() - 1
    } else {
        last_dot(name.drop_last())
    }
}

/// The extension of a file name: what follows its last dot. A name without a
/// dot has none, and neither has a name whose only dot is its first
/// character.
pub open spec fn extension_of(name: Seq<char>) -> Option<Seq<char>> {
    if last_dot(name) > 0 {
        Some(name.skip(last_dot(name) + 1))
    } else {
        None
    }
}

/// `last_dot` finds a dot, and no dot comes after it.
pub proof fn lemma_last_dot(name: Seq<char>)
    ensures
        -1 <= last_dot(name) < name.len(),
        last_dot(name) >= 0 ==> name[last_dot(name)] == '.',
        forall|i: int| last_dot(name) < i < name.len() ==> name[i] != '.',
    decreases name.len(),
{
    if name.len() > 0 && name.last() != '.' {
        let front = name.drop_last();
        lemma_last_dot(front);
        assert forall|i: int| last_dot(name) < i < name.len() implies name[i] != '.' by {
            if i < front.len() {
                assert(front[i] == name[i]);
            }
        }
    }
}

fn to_ascii_lowercase(c: char) -> (lower: char)
    ensures
        lower == ascii_lowercase(c),
{
    if 'A' <= c && c <= 'Z' {
        ((c as u8) + 32) as char
    } else {
        c
    }
}

/// Whether the lower-case characters in `lowered` spell `known`.
fn spells(lowered: &Vec<char>, known: &str) -> (same: bool)
    ensures
        same == (lowered@ == known@),
{
    let mut i: usize = 0;
    for c in it: known.chars()
        invariant
            it.seq() == known@,
            i == it.index(),
            i <= lowered.len(),
            forall|j: int| 0 <= j < i ==> lowered@[j] == known@[j],
    {
        if i >= lowered.len() || lowered[i] != c {
            return false;
        }
        i += 1;
    }
    if i == lowered.len() {
        assert(lowered@ =~= known@);
        true
    } else {
        false
    }
}

/// Whether `extension` names one of the recognised audio formats; the case
/// of its letters does not matter.
pub fn has_audio_extension(extension: &str) -> (recognised: bool)
    ensures
        recognised == is_audio_extension(extension@),
{
    let mut lowered: Vec<char> = Vec::new();
    for c in it: extension.chars()
        invariant
            it.seq() == extension@,
            lowered@ == lowercased(extension@.take(it.index() as int)),
    {
        lowered.push(to_ascii_lowercase(c));
        assert(lowered@ =~= lowercased(extension@.take(it.index() + 1)));
    }
    assert(extension@.take(extension@.len() as int) =~= extension@);
    let recognised = spells(&lowered, "wav") || spells(&lowered, "mp3") || spells(&lowered, "flac")
        || spells(&lowered, "ogg") || spells(&lowered, "aiff") || spells(&lowered, "m4a");
    proof {
        let known = audio_extensions();
        assert(known[0] == "wav"@ && known[1] == "mp3"@ && known[2] == "flac"@ && known[3]
            == "ogg"@ && known[4] == "aiff"@ && known[5] == "m4a"@);
    }
    recognised
}

/// The extension of the file name `name`, if it has one.
pub fn extension(name: &str) -> (found: Option<&str>)
    ensures
        found.deep_view() == extension_of(name@),
{
    let length = name.unicode_len();
    let mut dot: Option<usize> = None;
    let mut i: usize = 0;
    for c in it: name.chars()
        invariant
            it.seq() == name@,
            length == name@.len(),
            i == it.index(),
            match dot {
                Some(at) => at == last_dot(name@.take(i as int)),
                None => last_dot(name@.take(i as int)) == -1,
            },
    {
        assert(name@.take(i + 1).drop_last() =~= name@.take(i as int));
        if c == '.' {
            dot = Some(i);
        }
        i += 1;
    }
    assert(name@.take(name@.len() as int) =~= name@);
    proof {
        lemma_last_dot(name@);
    }
    match dot {
        Some(at) if at > 0 => Some(name.substring_char(at + 1, length)),
        _ => None,
    }
}

/// Why a scan could not start.
#[derive(Debug, PartialEq, Eq)]
pub enum ScanError {
    /// Nothing exists at the chosen location.
    NotFound,
    /// The chosen location could not be resolved; the text says why.
    InvalidPath(String),
}

impl ScanError {
    /// The sentence shown to the user.
    pub fn message(&self) -> (text: String)
        ensures
            text@ == match *self {
                ScanError::NotFound => "Directory does not exist"@,
                ScanError::InvalidPath(reason) => reason@,
            },
    {
        match self {
            ScanError::NotFound => "Directory does not exist".to_owned(),
            ScanError::InvalidPath(reason) => reason.clone(),
        }
    }
}

/// What opening a scan reports: a missing directory first, then one that
/// does not resolve, with the reason given for it.
pub open spec fn scan_outcome(exists: bool, resolved: Result<PathView, String>) -> Result<
    (),
    ScanError,
> {
    if !exists {
        Err(ScanError::NotFound)
    } else {
        match resolved {
            Err(reason) => Err(ScanError::InvalidPath(reason)),
            Ok(_) => Ok(()),
        }
    }
}

/// What opening a scan leaves in the registry: the resolved directory as the
/// source directory where the scan may go ahead, and no trace where it is
/// turned down.
pub open spec fn scan_registers(
    list: AllowList,
    exists: bool,
    resolved: Result<PathView, String>,
) -> AllowList {
    match resolved {
        Ok(root) if exists => list.set_source(Some(root)),
        _ => list,
    }
}

/// The mathematical form of what resolving a directory gave.
pub open spec fn resolution_view(resolved: Result<CanonicalPath, String>) -> Result<
    PathView,
    String,
> {
    match resolved {
        Ok(root) => Ok(root@),
        Err(reason) => Err(reason),
    }
}

/// Opens a scan of a directory that the user chose. `exists` says whether
/// anything was found there, and `resolved` is what resolving it gave: the
/// resolved location, or the reason why there is none. On success the
/// directory is the new source directory and the walk may begin.
pub fn begin_scan(
    exists: bool,
    resolved: Result<CanonicalPath, String>,
    allowed: &mut AllowedPaths,
) -> (outcome: Result<(), ScanError>)
    ensures
        outcome == scan_outcome(exists, resolution_view(resolved)),
        final(allowed)@ == scan_registers(old(allowed)@, exists, resolution_view(resolved)),
        final(allowed)@.wf(),
{
    proof {
        use_type_invariant(&*allowed);
    }
    if !exists {
        return Err(ScanError::NotFound);
    }
    match resolved {
        Err(reason) => Err(ScanError::InvalidPath(reason)),
        Ok(root) => {
            allowed.set_source_directory(Some(root));
            Ok(())
        },
    }
}

/// The mathematical form of a [`DirectoryEntry`].
pub struct EntryView {
    /// Where the entry is, as text.
    pub path: Seq<char>,
    /// Its last component, or nothing where it has none.
    pub file_name: Seq<char>,
    /// Whether the entry is a regular file.
    pub is_file: bool,
}

/// One entry that walking a directory tree turned up.
#[derive(Debug)]
pub struct DirectoryEntry {
    /// Where the entry is, as text.
    pub path: String,
    /// Its last component; empty where it has none.
    pub file_name: String,
    /// Whether the entry is a regular file.
    pub is_file: bool,
}

impl View for DirectoryEntry {
    type V = EntryView;

    open spec fn view(&self) -> EntryView {
        EntryView { path: self.path@, file_name: self.file_name@, is_file: self.is_file }
    }
}

impl DeepView for DirectoryEntry {
    type V = EntryView;

    open spec fn deep_view(&self) -> EntryView {
        self@
    }
}

/// The entry is a regular file whose name carries a recognised audio
/// extension.
pub open spec fn is_audio_entry(entry: EntryView) -> bool {
    &&& entry.is_file
    &&& extension_of(entry.file_name) matches Some(ext) && is_audio_extension(ext)
}

/// The sample that an entry enters the tournament as: no score, no
/// comparisons yet.
pub open spec fn fresh_sample(entry: EntryView) -> SampleView {
    SampleView { path: entry.path, filename: entry.file_name, score: 0, comparisons: 0 }
}

/// The samples that a walk yields: one for each audio entry, in the order of
/// the walk.
pub open spec fn samples_found(entries: Seq<EntryView>) -> Seq<SampleView> {
    entries.filter(|entry: EntryView| is_audio_entry(entry)).map_values(
        |entry: EntryView| fresh_sample(entry),
    )
}

/// Whether `entry` is an audio file.
pub fn is_audio_file(entry: &DirectoryEntry) -> (audio: bool)
    ensures
        audio == is_audio_entry(entry@),
{
    if !entry.is_file {
        return false;
    }
    match extension(entry.file_name.as_str()) {
        Some(ext) => has_audio_extension(ext),
        None => false,
    }
}

/// Turns the entries of a directory walk into samples: every regular file
/// with a recognised audio extension becomes one, everything else is passed
/// over.
pub fn collect_samples(entries: &Vec<DirectoryEntry>) -> (samples: Vec<Sample>)
    ensures
        samples.deep_view() == samples_found(entries.deep_view()),
{
    let mut samples: Vec<Sample> = Vec::new();
    let mut i: usize = 0;
    while i < entries.len()
        invariant
            i <= entries.len(),
            samples.deep_view() == samples_found(entries.deep_view().take(i as int)),
        decreases entries.len() - i,
    {
        let entry = &entries[i];
        proof {
            lemma_samples_found_step(entries.deep_view().take(i + 1));
            assert(entries.deep_view().take(i + 1).drop_last() =~= entries.deep_view().take(
                i as int,
            ));
        }
        if is_audio_file(entry) {
            samples.push(
                Sample {
                    path: entry.path.clone(),
                    filename: entry.file_name.clone(),
                    score: 0,
                    comparisons: 0,
                },
            );
        }
        assert(samples.deep_view() =~= samples_found(entries.deep_view().take(i + 1)));
        i += 1;
    }
    assert(entries.deep_view().take(entries.len() as int) =~= entries.deep_view());
    samples
}

/// What the last entry of a walk adds to the samples found before it.
pub proof fn lemma_samples_found_step(entries: Seq<EntryView>)
    requires
        entries.len() > 0,
    ensures
        samples_found(entries) == if is_audio_entry(entries.last()) {
            samples_found(entries.drop_last()).push(fresh_sample(entries.last()))
        } else {
            samples_found(entries.drop_last())
        },
{
    reveal(Seq::filter);
    let audio = |entry: EntryView| is_audio_entry(entry);
    if is_audio_entry(entries.last()) {
        assert(entries.filter(audio) == entries.drop_last().filter(audio).push(entries.last()));
        assert(samples_found(entries) =~= samples_found(entries.drop_last()).push(
            fresh_sample(entries.last()),
        ));
    } else {
        assert(entries.filter(audio) == entries.drop_last().filter(audio));
    }
}

/// Every sample that a walk yields stands for an audio entry of that walk and
/// starts with no score and no comparisons.
pub proof fn lemma_found_samples_are_fresh(entries: Seq<EntryView>, i: int)
    requires
        0 <= i < samples_found(entries).len(),
    ensures
        samples_found(entries)[i].score == 0,
        samples_found(entries)[i].comparisons == 0,
        exists|j: int|
            0 <= j < entries.len() && is_audio_entry(#[trigger] entries[j]) && samples_found(
                entries,
            )[i] == fresh_sample(entries[j]),
{
    let audio = |entry: EntryView| is_audio_entry(entry);
    let kept = entries.filter(audio);
    entries.lemma_filter_pred(audio, i);
    assert(kept.contains(kept[i]));
    entries.lemma_filter_contains_rev(audio, kept[i]);
    let j = choose|j: int| 0 <= j < entries.len() && entries[j] == kept[i];
    assert(is_audio_entry(entries[j]));
}

} // verus!
