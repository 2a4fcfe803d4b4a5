use audio_core::scanner::AudioFileScanner;

#[test]
fn recognized_extensions_are_accepted() {
    assert!(AudioFileScanner::is_audio_file("song.mp3"));
    assert!(AudioFileScanner::is_audio_file("take.wav"));
    assert!(AudioFileScanner::is_audio_file("master.flac"));
    assert!(AudioFileScanner::is_audio_file("voice.m4a"));
    assert!(AudioFileScanner::is_audio_file("loop.ogg"));
    assert!(AudioFileScanner::is_audio_file("music/morning/bird song.ogg"));
}

#[test]
fn other_paths_are_rejected() {
    assert!(!AudioFileScanner::is_audio_file("notes.txt"));
    assert!(!AudioFileScanner::is_audio_file("mp3"));
    assert!(!AudioFileScanner::is_audio_file(""));
    assert!(!AudioFileScanner::is_audio_file("song.mp3.bak"));
    assert!(!AudioFileScanner::is_audio_file("SONG.MP3"));
    assert!(!AudioFileScanner::is_audio_file("archive.zip"));
}

#[test]
fn a_bare_extension_still_counts() {
    assert!(AudioFileScanner::is_audio_file(".mp3"));
    assert!(AudioFileScanner::is_audio_file(".flac"));
}
