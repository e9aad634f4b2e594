use sample_tournament::access::{
    check_access, clipboard_script, file_url, get_audio_file_url, AccessError,
};
use sample_tournament::allowed_paths::AllowedPaths;
use sample_tournament::path::CanonicalPath;

fn resolved(segments: &[&str]) -> CanonicalPath {
    CanonicalPath::new(segments.iter().map(|s| s.to_string()).collect())
}

fn music_registry() -> AllowedPaths {
    let mut registry = AllowedPaths::new();
    registry.set_source_directory(Some(resolved(&["/", "music"])));
    registry
}

#[test]
fn missing_file_is_reported_before_anything_else() {
    let registry = music_registry();
    let inside = resolved(&["/", "music", "a.wav"]);
    assert_eq!(check_access(false, Some(&inside), &registry), Err(AccessError::NotFound));
    assert_eq!(check_access(false, None, &registry), Err(AccessError::NotFound));
}

#[test]
fn file_outside_the_roots_is_denied() {
    let registry = music_registry();
    let outside = resolved(&["/", "etc", "passwd"]);
    assert_eq!(check_access(true, Some(&outside), &registry), Err(AccessError::AccessDenied));
}

#[test]
fn file_that_does_not_resolve_is_denied() {
    let registry = music_registry();
    assert_eq!(check_access(true, None, &registry), Err(AccessError::AccessDenied));
}

#[test]
fn file_inside_a_root_is_granted() {
    let registry = music_registry();
    let inside = resolved(&["/", "music", "drums", "kick.wav"]);
    assert_eq!(check_access(true, Some(&inside), &registry), Ok(()));
}

#[test]
fn access_error_messages() {
    assert_eq!(AccessError::NotFound.message(), "File does not exist");
    assert_eq!(
        AccessError::AccessDenied.message(),
        "Access denied: path is outside allowed directories"
    );
}

#[test]
fn file_url_prepends_the_scheme() {
    assert_eq!(file_url("/music/a.wav"), "file:///music/a.wav");
    assert_eq!(file_url(""), "file://");
    assert_eq!(file_url("C:\\music\\a b.wav"), "file://C:\\music\\a b.wav");
}

#[test]
fn audio_url_is_the_requested_spelling() {
    let registry = music_registry();
    let inside = resolved(&["/", "music", "a.wav"]);
    assert_eq!(
        get_audio_file_url("/music/../music/a.wav", true, Some(&inside), &registry),
        Ok("file:///music/../music/a.wav".to_string())
    );
}

#[test]
fn audio_url_is_refused_for_missing_and_foreign_files() {
    let registry = music_registry();
    let outside = resolved(&["/", "home", "me", "a.wav"]);
    assert_eq!(
        get_audio_file_url("/music/gone.wav", false, None, &registry),
        Err(AccessError::NotFound)
    );
    assert_eq!(
        get_audio_file_url("/home/me/a.wav", true, Some(&outside), &registry),
        Err(AccessError::AccessDenied)
    );
}

#[test]
fn clipboard_script_quotes_the_location() {
    assert_eq!(
        clipboard_script("C:\\music\\kick.wav"),
        "Set-Clipboard -Path 'C:\\music\\kick.wav'"
    );
    assert_eq!(clipboard_script(""), "Set-Clipboard -Path ''");
}

#[test]
fn clipboard_script_doubles_single_quotes() {
    assert_eq!(
        clipboard_script("C:\\it's\\a 'b'.wav"),
        "Set-Clipboard -Path 'C:\\it''s\\a ''b''.wav'"
    );
    assert_eq!(clipboard_script("'"), "Set-Clipboard -Path ''''");
    assert_eq!(clipboard_script("día'ñ"), "Set-Clipboard -Path 'día''ñ'");
}
