use oxytools::binaries::{get_tool, sha256_hex};
use oxytools::blocs::{blocs_vers_docx_xml, docx_run, Block, Inline};
use oxytools::chemin::joindre_chemin;
use oxytools::doc_texte::{encoder_winansi, html_vers_texte, jours_vers_date, rtf_escape, texte_vers_html, xml_escape};
use oxytools::logging::{log_entry, log_error, log_info, log_warn};
use oxytools::pages::parse_pages_spec;
use oxytools::scrap::{detect_series, escape_xml, extract_series_info, info_des_captures};
use oxytools::tag::{
    ajouter_images_mkv, arguments_tags, candidats_nfo, candidats_poster, creer_xml_tags, injecter_nfo_et_poster,
    modifier_tag, lire_tags_mkv, appliquer_tags, marquer_vu, commande_injection, debut_appels, issue_mkvpropedit,
    suite_appels, CommandeMkv, Lancement, SuiteAppels,
};
use oxytools::tools::ToolsConfig;
use oxytools::texte::{vers_majuscules, vers_minuscules};
use oxytools::video::{nom_encodeur, resoudre_encodeur};

fn v(xs: &[&str]) -> Vec<String> {
    xs.iter().map(|s| s.to_string()).collect()
}

fn paires(xs: &[(&str, &str)]) -> Vec<(String, String)> {
    xs.iter().map(|(a, b)| (a.to_string(), b.to_string())).collect()
}

#[test]
fn lignes_de_journal() {
    assert_eq!(log_entry("2024-01-01 10:00:00", "INFO", Some("main"), "ok"), "[2024-01-01 10:00:00] [INFO] [main] ok\n");
    assert_eq!(log_info("t", None, "m"), "[t] [INFO] [worker] m\n");
    assert_eq!(log_warn("t", None, "m"), "[t] [WARN] [worker] m\n");
    assert_eq!(log_error("t", Some("w2"), "m"), "[t] [ERROR] [w2] m\n");
}

#[test]
fn specification_de_pages() {
    assert_eq!(parse_pages_spec("  "), None);
    assert_eq!(parse_pages_spec("1-end"), None);
    assert_eq!(parse_pages_spec(" 1, 3,x,5 "), Some(vec![1, 3, 5]));
    assert_eq!(parse_pages_spec("a,b"), None);
}

#[test]
fn empreinte_sha256() {
    assert_eq!(sha256_hex(b"abc"), "ba7816bf8f01cfea414140de5dae2223b00361a396177a9cb410ff61f20015ad");
    assert_eq!(sha256_hex(b""), "e3b0c44298fc1c149afbf4c8996fb92427ae41e4649b934ca495991b7852b855");
}

#[test]
fn chemins_des_outils() {
    assert_eq!(get_tool("ffmpeg", &Some("/tmp/x".to_string()), ".exe", None, '\\'), "/tmp/x\\ffmpeg.exe");
    assert_eq!(get_tool("ffmpeg", &Some("/tmp/x/".to_string()), "", None, '/'), "/tmp/x/ffmpeg");
    assert_eq!(get_tool("ffprobe", &None, "", Some("/usr/bin/ffprobe".to_string()), '/'), "/usr/bin/ffprobe");
    assert_eq!(get_tool("mkvpropedit", &None, "", None, '/'), "/app/bin/mkvpropedit");
    assert_eq!(joindre_chemin("", "a.txt", '/'), "a.txt");
    assert_eq!(joindre_chemin("c:\\d\\", "a.txt", '\\'), "c:\\d\\a.txt");
    assert_eq!(joindre_chemin("d\\", "a.txt", '/'), "d\\/a.txt");
}

#[test]
fn echappements() {
    assert_eq!(escape_xml("a<b>&\"c'"), "a&lt;b&gt;&amp;&quot;c&apos;");
    assert_eq!(xml_escape("a<b>&\"c"), "a&lt;b&gt;&amp;\"c");
    assert_eq!(rtf_escape("a{b}\\é"), "a\\{b\\}\\\\\\u233?");
    assert_eq!(encoder_winansi("a€\té✓"), vec![b'a', 0x80, 0x20, 0xE9, b'?']);
}

#[test]
fn html_et_texte() {
    assert_eq!(texte_vers_html("a<b\nc\n\nd"), "<!DOCTYPE html>\n<html><body>\n<p>a&lt;b<br/>c</p>\n<p>d</p>\n</body></html>");
    assert_eq!(html_vers_texte("<p>A &amp; B</p><br/>C&nbsp;D"), "A & BC D");
    assert_eq!(html_vers_texte("<p>a &amp; b</p><br/>x&lt;y&gt;"), "a & bx<y>");
    assert_eq!(html_vers_texte("&amp;lt;"), "&lt;");
}

#[test]
fn dates_depuis_l_epoque() {
    assert_eq!(jours_vers_date(0), (1970, 1, 1));
    assert_eq!(jours_vers_date(19723), (2024, 1, 1));
    assert_eq!(jours_vers_date(19782), (2024, 2, 29));
}

#[test]
fn blocs_docx() {
    assert_eq!(docx_run(&Inline::Bold("x&y".to_string()), false, "24"),
        "<w:r><w:rPr><w:b/><w:sz w:val=\"24\"/></w:rPr><w:t xml:space=\"preserve\">x&amp;y</w:t></w:r>");
    let xml = blocs_vers_docx_xml(&vec![Block::Paragraph(vec![Inline::Text("salut".to_string())])]);
    assert!(xml.contains("salut"));
}

#[test]
fn series_dans_les_noms() {
    assert_eq!(extract_series_info("The.Office.S02E05.720p"), Some(("The Office".to_string(), 2)));
    assert_eq!(extract_series_info("dark_1x03"), Some(("dark".to_string(), 1)));
    assert_eq!(extract_series_info("Inception.2010"), None);
    let (titre, saisons) = detect_series(&v(&["a/Show.S01E01.mkv", "a/film.mkv", "b/Show.S03E02.mkv"])).unwrap();
    assert_eq!(titre, "Show");
    assert_eq!(saisons.into_iter().collect::<Vec<_>>(), vec![1, 3]);
    assert!(detect_series(&v(&["film.mkv"])).is_none());
}

#[test]
fn tags_matroska() {
    assert_eq!(creer_xml_tags(&paires(&[("title", "A&B"), ("vide", "")])),
        "<?xml version=\"1.0\"?>\n<Tags>\n  <Tag>\n    <Targets><TargetTypeValue>50</TargetTypeValue></Targets>\n    <Simple>\n      <Name>TITLE</Name>\n      <String>A&amp;B</String>\n    </Simple>\n  </Tag>\n</Tags>");
    let json = "{ \"format\": { \"tags\": { \"title\": \"Film\", \"PLAYCOUNT\": \"2\" } } }";
    assert_eq!(lire_tags_mkv(json), paires(&[("TITLE", "Film"), ("PLAYCOUNT", "2")]));
    let vu = marquer_vu(&paires(&[("PLAYCOUNT", "2")]), "fr");
    assert_eq!(vu, paires(&[("PLAYCOUNT", "3"), ("WATCHED", "true"), ("KEYWORDS", "VU")]));
    let vu = marquer_vu(&paires(&[]), "en");
    assert_eq!(vu, paires(&[("PLAYCOUNT", "1"), ("WATCHED", "true"), ("KEYWORDS", "WATCHED")]));
}

#[test]
fn tags_d_un_nfo() {
    let t = appliquer_tags(&paires(&[("title", "F"), ("playcount", "4"), ("year", "2001"), ("premiered", "2001-09-01")]),
        Some("8.1 / 10".to_string()));
    assert_eq!(t, paires(&[("title", "F"), ("year", "2001"), ("COMMENT", "8.1 / 10"), ("RELEASETIME", "2001"),
        ("DATE_RELEASED", "2001")]));
}

#[test]
fn arguments_mkvpropedit() {
    assert_eq!(modifier_tag("f.mkv", "title", "X"), v(&["f.mkv", "--edit", "info", "--set", "title=X"]));
    assert_eq!(arguments_tags("f.mkv", "t.xml"), v(&["f.mkv", "--tags", "global:t.xml"]));
    assert_eq!(ajouter_images_mkv("f.mkv", Some("p.PNG")).unwrap()[4], "image/jpeg");
    assert_eq!(ajouter_images_mkv("f.mkv", Some("p.png")).unwrap()[4], "image/png");
    assert!(ajouter_images_mkv("f.mkv", None).is_none());
    let appels = injecter_nfo_et_poster("f.mkv", Some("t.xml"), Some("p.jpg"));
    assert_eq!(appels.len(), 2);
    assert_eq!(appels[0], v(&["f.mkv", "--tags", "global:t.xml"]));
    assert_eq!(appels[1][6], "p.jpg");
    assert!(injecter_nfo_et_poster("f.mkv", None, None).is_empty());
}

#[test]
fn fichiers_annexes() {
    assert_eq!(candidats_nfo("d/Show.S01E02.mkv"), v(&["Show_season01.nfo", "season01.nfo", "Show.S01E02.nfo"]));
    assert_eq!(candidats_nfo("d/film.mkv"), v(&["film.nfo"]));
    assert_eq!(candidats_poster("d/film.mkv"), v(&["film_poster.jpg", "film-poster.jpg", "poster.jpg"]));
    assert_eq!(candidats_poster("Show.S12E02.mkv"), v(&["Show_season12_poster.jpg", "season12_poster.jpg", "season12-poster.jpg"]));
}

#[test]
fn casse_unicode() {
    assert_eq!(vers_majuscules(&['é', 'ß']), vec!['É', 'S', 'S']);
    assert_eq!(vers_minuscules(&['Ä', 'B']), vec!['ä', 'b']);
}

#[test]
fn encodeurs() {
    assert_eq!(nom_encodeur("h264", "nvenc"), Some("h264_nvenc".to_string()));
    assert_eq!(nom_encodeur("h264", "software"), Some("libx264".to_string()));
    let dispo = v(&["libx264", "h264_nvenc"]);
    let (enc, materiel) = resoudre_encodeur("h264", "nvenc", &dispo, &v(&["nvenc"]));
    assert_eq!((enc.as_str(), materiel), ("h264_nvenc", true));
    let (enc, materiel) = resoudre_encodeur("h264", "nvenc", &dispo, &v(&[]));
    assert_eq!((enc.as_str(), materiel), ("libx264", false));
}

#[test]
fn configuration_des_outils() {
    let c = ToolsConfig::new();
    assert!(c.is_empty());
}

#[test]
fn issues_de_mkvpropedit() {
    assert_eq!(issue_mkvpropedit(CommandeMkv::Modifier, Lancement::Fin(true)), Ok(()));
    assert_eq!(issue_mkvpropedit(CommandeMkv::Modifier, Lancement::Fin(false)), Err("Erreur modification tag".to_string()));
    assert_eq!(issue_mkvpropedit(CommandeMkv::Poster, Lancement::Fin(false)), Err("Erreur injection poster".to_string()));
    assert_eq!(issue_mkvpropedit(CommandeMkv::Reset, Lancement::Impossible("introuvable".to_string())),
        Err("introuvable".to_string()));
    assert_eq!(commande_injection(true, 0), CommandeMkv::Metadonnees);
    assert_eq!(commande_injection(true, 1), CommandeMkv::Poster);
    assert_eq!(commande_injection(false, 0), CommandeMkv::Poster);
}

#[test]
fn appels_arretes_a_la_premiere_erreur() {
    assert_eq!(debut_appels(0), SuiteAppels::Fin(Ok(())));
    assert_eq!(debut_appels(2), SuiteAppels::Lancer(0));
    assert_eq!(suite_appels(2, 0, Ok(())), SuiteAppels::Lancer(1));
    assert_eq!(suite_appels(2, 0, Err("e".to_string())), SuiteAppels::Fin(Err("e".to_string())));
    assert_eq!(suite_appels(2, 1, Ok(())), SuiteAppels::Fin(Ok(())));
}

#[test]
fn captures_vers_titre_et_saison() {
    assert_eq!(info_des_captures(&"The.Office".to_string(), &Some("02".to_string()), &None), ("The Office".to_string(), 2));
    assert_eq!(info_des_captures(&"dark_".to_string(), &None, &Some("1".to_string())), ("dark".to_string(), 1));
    assert_eq!(info_des_captures(&"a-b".to_string(), &None, &None), ("a b".to_string(), 1));
    assert_eq!(info_des_captures(&"x".to_string(), &Some("99999999999".to_string()), &None), ("x".to_string(), 1));
}

#[test]
fn page_html_relue() {
    assert_eq!(html_vers_texte(&texte_vers_html("a<b>c \"d\"")), "\n\na<b>c \"d\"\n");
    assert_eq!(html_vers_texte(&texte_vers_html("")), "\n\n\n");
}
