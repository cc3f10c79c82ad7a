use oxytools::rename::{appliquer_casse, preview, CaseMode, ExtMode, NumPos, RenameConfig};

fn noms(v: &[&str]) -> Vec<String> {
    v.iter().map(|s| s.to_string()).collect()
}

#[test]
fn test_rename_find_replace() {
    let cfg = RenameConfig {
        find: "foo".into(),
        replace_with: "bar".into(),
        ..Default::default()
    };
    let files = noms(&["foo_test.jpg"]);
    let previews = preview(&files, &cfg);
    assert_eq!(previews[0].1, "bar_test.jpg");
}

#[test]
fn test_rename_insert() {
    let cfg = RenameConfig {
        insert_text: "PREFIX_".into(),
        insert_pos: 0,
        ..Default::default()
    };
    let files = noms(&["test.jpg"]);
    let previews = preview(&files, &cfg);
    assert_eq!(previews[0].1, "PREFIX_test.jpg");
}

#[test]
fn test_rename_delete_range() {
    let cfg = RenameConfig {
        delete_enabled: true,
        delete_from: 0,
        delete_count: 3,
        ..Default::default()
    };
    let files = noms(&["abctest.jpg"]);
    let previews = preview(&files, &cfg);
    assert_eq!(previews[0].1, "test.jpg");
}

#[test]
fn test_rename_numbering_suffix() {
    let cfg = RenameConfig {
        num_enabled: true,
        num_start: 1,
        num_step: 1,
        num_padding: 2,
        num_pos: NumPos::Suffix,
        num_sep: "_".into(),
        ..Default::default()
    };
    let files = noms(&["photo.jpg", "photo.jpg"]);
    let previews = preview(&files, &cfg);
    assert_eq!(previews[0].1, "photo_01.jpg");
    assert_eq!(previews[1].1, "photo_02.jpg");
}

#[test]
fn test_rename_numbering_prefix() {
    let cfg = RenameConfig {
        num_enabled: true,
        num_start: 10,
        num_step: 2,
        num_padding: 3,
        num_pos: NumPos::Prefix,
        num_sep: " - ".into(),
        ..Default::default()
    };
    let files = noms(&["file.mp4"]);
    let previews = preview(&files, &cfg);
    assert_eq!(previews[0].1, "010 - file.mp4");
}

#[test]
fn test_rename_case_upper() {
    let cfg = RenameConfig {
        case_mode: CaseMode::Upper,
        ..Default::default()
    };
    let files = noms(&["hello world.jpg"]);
    let previews = preview(&files, &cfg);
    assert_eq!(previews[0].1, "HELLO WORLD.jpg");
}

#[test]
fn test_rename_case_title() {
    let cfg = RenameConfig {
        case_mode: CaseMode::Title,
        ..Default::default()
    };
    let files = noms(&["hello world.jpg"]);
    let previews = preview(&files, &cfg);
    assert_eq!(previews[0].1, "Hello World.jpg");
}

#[test]
fn test_rename_ext_lower() {
    let cfg = RenameConfig {
        ext_mode: ExtMode::Lower,
        ..Default::default()
    };
    let files = noms(&["FILE.JPG"]);
    let previews = preview(&files, &cfg);
    assert_eq!(previews[0].1, "FILE.jpg");
}

#[test]
fn test_rename_ext_replace() {
    let cfg = RenameConfig {
        ext_mode: ExtMode::Replace,
        ext_new: "png".into(),
        ..Default::default()
    };
    let files = noms(&["image.jpg"]);
    let previews = preview(&files, &cfg);
    assert_eq!(previews[0].1, "image.png");
}

#[test]
fn test_rename_strip_double_spaces() {
    let cfg = RenameConfig {
        strip_double_spaces: true,
        ..Default::default()
    };
    let files = noms(&["hello  world.jpg"]);
    let previews = preview(&files, &cfg);
    assert_eq!(previews[0].1, "hello world.jpg");
}

#[test]
fn test_rename_strip_chars() {
    let cfg = RenameConfig {
        strip_chars: "!?#".into(),
        ..Default::default()
    };
    let files = noms(&["he!llo?wo#rld.jpg"]);
    let previews = preview(&files, &cfg);
    assert_eq!(previews[0].1, "helloworld.jpg");
}

#[test]
fn test_rename_no_change() {
    let cfg = RenameConfig::default();
    let files = noms(&["unchanged.mp4"]);
    let previews = preview(&files, &cfg);
    assert_eq!(previews[0].1, "unchanged.mp4");
}

#[test]
fn rename_path_keeps_only_file_name() {
    let cfg = RenameConfig::default();
    let files = noms(&["/films/Saison 1/ep.mkv", "C:\\docs\\note.txt"]);
    let previews = preview(&files, &cfg);
    assert_eq!(previews[0].0, "/films/Saison 1/ep.mkv");
    assert_eq!(previews[0].1, "ep.mkv");
    assert_eq!(previews[1].1, "note.txt");
}

#[test]
fn rename_case_sentence_and_lower() {
    let cfg = RenameConfig { case_mode: CaseMode::Sentence, ..Default::default() };
    assert_eq!(preview(&noms(&["hELLO wORLD.txt"]), &cfg)[0].1, "Hello world.txt");
    let cfg = RenameConfig { case_mode: CaseMode::Lower, ..Default::default() };
    assert_eq!(preview(&noms(&["ÉTÉ Chaud.TXT"]), &cfg)[0].1, "été chaud.TXT");
}

#[test]
fn rename_delete_from_end_and_insert_from_end() {
    let cfg = RenameConfig {
        delete_enabled: true,
        delete_from: 1,
        delete_count: 2,
        delete_from_end: true,
        ..Default::default()
    };
    assert_eq!(preview(&noms(&["abcdef.txt"]), &cfg)[0].1, "abcf.txt");
    let cfg = RenameConfig { insert_text: "_x".into(), insert_pos: 1, insert_from_end: true, ..Default::default() };
    assert_eq!(preview(&noms(&["abc.txt"]), &cfg)[0].1, "ab_xc.txt");
}

#[test]
fn rename_ext_remove_upper_and_dotfiles() {
    let cfg = RenameConfig { ext_mode: ExtMode::Remove, ..Default::default() };
    assert_eq!(preview(&noms(&["archive.tar.gz"]), &cfg)[0].1, "archive.tar");
    let cfg = RenameConfig { ext_mode: ExtMode::Upper, ..Default::default() };
    assert_eq!(preview(&noms(&[".bashrc", "a.b"]), &cfg)[0].1, ".bashrc");
    assert_eq!(preview(&noms(&["a.b"]), &cfg)[0].1, "a.B");
}

#[test]
fn rename_trim_and_leading_dots() {
    let cfg = RenameConfig { strip_trailing_spaces: true, strip_leading_dots: true, ..Default::default() };
    assert_eq!(preview(&noms(&["..  name  .txt"]), &cfg)[0].1, "name.txt");
    let cfg = RenameConfig { strip_leading_dots: true, ..Default::default() };
    assert_eq!(preview(&noms(&["..x.txt"]), &cfg)[0].1, "x.txt");
}

#[test]
fn rename_numbering_padding_narrower_than_number() {
    let cfg = RenameConfig { num_enabled: true, num_start: 123, num_padding: 1, ..Default::default() };
    assert_eq!(preview(&noms(&["a.b", "c.d"]), &cfg)[1].1, "c 124.d");
}

#[test]
fn minuscules_avec_sigma_final() {
    let s: Vec<char> = "ΟΔΟΣ ΣΟΦΟΣ".chars().collect();
    let r: String = appliquer_casse(&s, CaseMode::Lower).into_iter().collect();
    assert_eq!(r, "\u{3bf}\u{3b4}\u{3bf}\u{3c2} \u{3c3}\u{3bf}\u{3c6}\u{3bf}\u{3c2}");
    let t: String = appliquer_casse(&"ÉTÉ".chars().collect::<Vec<char>>(), CaseMode::Lower).into_iter().collect();
    assert_eq!(t, "été");
}
