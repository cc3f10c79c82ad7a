use oxytools::audio::formats_compatibles;

#[test]
fn test_audio_formats_compatibles() {
    let fmts = formats_compatibles("mp3");
    assert!(!fmts.is_empty(), "formats_compatibles mp3 est vide");
    assert!(fmts.contains(&"wav"), "mp3 devrait pouvoir aller vers wav");
    println!("  formats compatibles mp3: {:?}", fmts);
}

#[test]
fn formats_sans_le_format_source() {
    assert_eq!(formats_compatibles("mp3"), vec!["wav", "flac", "ogg", "aac"]);
    assert_eq!(formats_compatibles("aac"), vec!["mp3", "wav", "flac", "ogg"]);
    assert_eq!(formats_compatibles("opus"), vec!["mp3", "wav", "flac", "ogg", "aac"]);
}
