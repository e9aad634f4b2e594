use sample_tournament::allowed_paths::AllowedPaths;
use sample_tournament::path::CanonicalPath;
use sample_tournament::sample::Sample;
use sample_tournament::scan::{
    begin_scan, collect_samples, extension, has_audio_extension, is_audio_file, DirectoryEntry,
    ScanError,
};

fn file(path: &str, file_name: &str) -> DirectoryEntry {
    DirectoryEntry { path: path.to_string(), file_name: file_name.to_string(), is_file: true }
}

fn directory(path: &str, file_name: &str) -> DirectoryEntry {
    DirectoryEntry { path: path.to_string(), file_name: file_name.to_string(), is_file: false }
}

fn fresh(path: &str, filename: &str) -> Sample {
    Sample { path: path.to_string(), filename: filename.to_string(), score: 0, comparisons: 0 }
}

#[test]
fn scan_of_a_missing_directory_is_not_found() {
    let mut registry = AllowedPaths::new();
    let outcome = begin_scan(false, Err("No such file or directory".to_string()), &mut registry);
    assert_eq!(outcome, Err(ScanError::NotFound));
    assert!(registry.source_directory().is_none());
    let root = CanonicalPath::new(vec!["/".to_string(), "music".to_string()]);
    assert_eq!(begin_scan(false, Ok(root), &mut registry), Err(ScanError::NotFound));
    assert!(registry.source_directory().is_none());
}

#[test]
fn scan_of_an_unresolvable_directory_is_an_invalid_path() {
    let mut registry = AllowedPaths::new();
    let outcome = begin_scan(true, Err("Permission denied".to_string()), &mut registry);
    assert_eq!(outcome, Err(ScanError::InvalidPath("Permission denied".to_string())));
    assert!(registry.source_directory().is_none());
    assert!(registry.allowed_paths().is_empty());
}

#[test]
fn scan_registers_the_directory_as_source() {
    let mut registry = AllowedPaths::new();
    let root = CanonicalPath::new(vec!["/".to_string(), "music".to_string()]);
    assert_eq!(begin_scan(true, Ok(root), &mut registry), Ok(()));
    assert_eq!(
        registry.source_directory().map(|p| p.segments().clone()),
        Some(vec!["/".to_string(), "music".to_string()])
    );
    let inside = CanonicalPath::new(vec![
        "/".to_string(),
        "music".to_string(),
        "a.wav".to_string(),
    ]);
    assert!(registry.is_path_allowed(Some(&inside)));
}

#[test]
fn scan_error_messages() {
    assert_eq!(ScanError::NotFound.message(), "Directory does not exist");
    assert_eq!(ScanError::InvalidPath("Permission denied".to_string()).message(), "Permission denied");
}

#[test]
fn extension_is_what_follows_the_last_dot() {
    assert_eq!(extension("kick.wav"), Some("wav"));
    assert_eq!(extension("archive.tar.gz"), Some("gz"));
    assert_eq!(extension("Kick.Take 2.FLAC"), Some("FLAC"));
    assert_eq!(extension("trailing."), Some(""));
    assert_eq!(extension("día.ñ"), Some("ñ"));
}

#[test]
fn names_without_an_extension() {
    assert_eq!(extension("README"), None);
    assert_eq!(extension(""), None);
    assert_eq!(extension(".hidden"), None);
    assert_eq!(extension(".wav"), None);
    assert_eq!(extension("."), None);
}

#[test]
fn hidden_file_with_a_second_dot_has_an_extension() {
    assert_eq!(extension(".hidden.wav"), Some("wav"));
}

#[test]
fn every_audio_extension_is_recognised() {
    for ext in ["wav", "mp3", "flac", "ogg", "aiff", "m4a"] {
        assert!(has_audio_extension(ext));
    }
}

#[test]
fn audio_extensions_match_in_any_case() {
    assert!(has_audio_extension("WAV"));
    assert!(has_audio_extension("Mp3"));
    assert!(has_audio_extension("FLAC"));
    assert!(has_audio_extension("oGg"));
    assert!(has_audio_extension("AIFF"));
    assert!(has_audio_extension("M4A"));
}

#[test]
fn other_extensions_are_not_audio() {
    assert!(!has_audio_extension("txt"));
    assert!(!has_audio_extension(""));
    assert!(!has_audio_extension("wa"));
    assert!(!has_audio_extension("wavx"));
    assert!(!has_audio_extension("aif"));
    assert!(!has_audio_extension("mp4"));
    assert!(!has_audio_extension("w\u{e0}v"));
    assert!(!has_audio_extension("@AV"));
    assert!(!has_audio_extension("[av"));
}

#[test]
fn audio_file_needs_a_regular_file_and_an_audio_name() {
    assert!(is_audio_file(&file("/music/a.wav", "a.wav")));
    assert!(!is_audio_file(&directory("/music/loops.wav", "loops.wav")));
    assert!(!is_audio_file(&file("/music/notes.txt", "notes.txt")));
    assert!(!is_audio_file(&file("/music/wav", "wav")));
    assert!(!is_audio_file(&file("/music/.wav", ".wav")));
    assert!(!is_audio_file(&file("/music", "")));
}

#[test]
fn scan_keeps_audio_files_whatever_the_case_of_the_extension() {
    let entries = vec![
        directory("/music", "music"),
        file("/music/a.wav", "a.wav"),
        file("/music/b.mp3", "b.mp3"),
        file("/music/c.txt", "c.txt"),
        file("/music/d.FLAC", "d.FLAC"),
    ];
    let samples = collect_samples(&entries);
    assert_eq!(
        samples,
        vec![
            fresh("/music/a.wav", "a.wav"),
            fresh("/music/b.mp3", "b.mp3"),
            fresh("/music/d.FLAC", "d.FLAC"),
        ]
    );
    for sample in &samples {
        assert_eq!(sample.score, 0);
        assert_eq!(sample.comparisons, 0);
    }
}

#[test]
fn scan_skips_directories_and_files_without_extension() {
    let entries = vec![
        directory("/music/drums.ogg", "drums.ogg"),
        file("/music/LICENSE", "LICENSE"),
        file("/music/.m4a", ".m4a"),
        file("/music/drums.ogg/snare.ogg", "snare.ogg"),
    ];
    assert_eq!(collect_samples(&entries), vec![fresh("/music/drums.ogg/snare.ogg", "snare.ogg")]);
}

#[test]
fn scan_of_nothing_finds_nothing() {
    assert_eq!(collect_samples(&Vec::new()), Vec::<Sample>::new());
    assert_eq!(collect_samples(&vec![directory("/music", "music")]), Vec::<Sample>::new());
}

#[test]
fn scan_keeps_the_order_of_the_walk() {
    let entries = vec![
        file("/music/z.ogg", "z.ogg"),
        file("/music/a.aiff", "a.aiff"),
        file("/music/m.m4a", "m.m4a"),
    ];
    let paths: Vec<String> = collect_samples(&entries).into_iter().map(|s| s.path).collect();
    assert_eq!(paths, vec!["/music/z.ogg", "/music/a.aiff", "/music/m.m4a"]);
}

#[test]
fn sample_clone_is_equal() {
    let sample = Sample {
        path: "/music/a.wav".to_string(),
        filename: "a.wav".to_string(),
        score: 7,
        comparisons: 3,
    };
    let copy = sample.clone();
    assert_eq!(copy, sample);
    assert_eq!(copy.path, "/music/a.wav");
    assert_eq!(copy.filename, "a.wav");
    assert_eq!(copy.score, 7);
    assert_eq!(copy.comparisons, 3);
}
