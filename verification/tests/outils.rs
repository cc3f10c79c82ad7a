use oxytools::binaries::{binaire_valide, sha256_hex, verifier_binaire};
use oxytools::doc::{appliquer_operation_doc, PlanOperation};
use oxytools::fusion::{pdf_merge, GenreObjet};
use oxytools::images::{choisir_logo, cle_fanart, cles_logo, save_metadata, save_series_metadata};
use oxytools::nfo::Fiche;
use oxytools::pdf::{pages_ciblees, pdf_numeroter, pdf_signer, PositionNumero};
use oxytools::reglages::{EntreeToml, Modification, ModuleType, SectionToml, ValeurToml};
use oxytools::scrap::Season;
use oxytools::texte::{mots_de, rogner_debut};
use oxytools::tmdb::{cle_tmdb, fetch_by_tmdb_id, parametres_recherche, search_tmdb};
use oxytools::tools::{chemin_liste, lister_dossiers, lister_fichiers, IssueDossiers, IssueFichiers, ToolsConfig};
use oxytools::travail::{sortie_extraction_audio, travail, ModeJxl, Operation, OperationPages, ReglagesTache, Travail};
use oxytools::utils::{arguments_duree, est_mkv, lignes_de_progression, temps_de_progression, texte_duree};
use oxytools::video::{
    accels_fonctionnelles, arguments_nom_codec, arguments_test_encodeur, encodeur_a_tester, encodeurs_disponibles,
    extraire_nom_codec,
};
use std::collections::BTreeSet;

fn v(xs: &[&str]) -> Vec<String> {
    xs.iter().map(|s| s.to_string()).collect()
}

fn fiche(serie: bool) -> Fiche {
    Fiche {
        id: 1399,
        title: "Titre".to_string(),
        original_title: "Title".to_string(),
        overview: String::new(),
        poster_path: Some("/p.jpg".to_string()),
        backdrop_path: Some("/b.jpg".to_string()),
        release_date: "2011-04-17".to_string(),
        note_dixiemes: 84,
        vote_count: 10,
        genres: vec![],
        studios: vec![],
        actors: vec![],
        director: None,
        director_tmdbid: None,
        writers: vec![],
        producers: vec![],
        runtime: 0,
        tagline: String::new(),
        imdb_id: None,
        wikidata_id: None,
        tvdb_id: None,
        country: String::new(),
        certification: None,
        tags: vec![],
        trailer_key: None,
        languages: vec![],
        is_series: serie,
        seasons: vec![
            Season { number: 0, name: "S0".to_string(), overview: String::new(),
                poster_path: Some("/s0.jpg".to_string()), air_date: String::new(), episode_count: 1 },
            Season { number: 1, name: "S1".to_string(), overview: String::new(),
                poster_path: Some("/s1.jpg".to_string()), air_date: String::new(), episode_count: 8 },
            Season { number: 2, name: "S2".to_string(), overview: String::new(),
                poster_path: None, air_date: String::new(), episode_count: 8 },
            Season { number: 3, name: "S3".to_string(), overview: String::new(),
                poster_path: Some("/s3.jpg".to_string()), air_date: String::new(), episode_count: 8 },
        ],
    }
}

fn reglages(module: ModuleType) -> ReglagesTache {
    ReglagesTache {
        module,
        format: "webp".to_string(),
        doc_action: "Convert".to_string(),
        image_action: "Convert".to_string(),
        archive_action: String::new(),
        audio_action: String::new(),
        jxl_mode: String::new(),
        pdf_pages: String::new(),
        pdf_nouvel_ordre: String::new(),
        pdf_num_position: String::new(),
        pdf_sign_position: String::new(),
        resize_width: String::new(),
        resize_height: String::new(),
        resize_max_kb: String::new(),
        tailles_ico: vec![256],
    }
}

#[test]
fn binaire_integre_ou_non() {
    assert!(binaire_valide(Some(b"ffmpeg"), b"ffmpeg"));
    assert!(!binaire_valide(Some(b"ffmpeg!"), b"ffmpeg"));
    assert!(!binaire_valide(None, b"ffmpeg"));
    assert!(verifier_binaire("ffmpeg", b"x", b"x").is_ok());
    assert_eq!(
        verifier_binaire("ffprobe", b"x", b"y").unwrap_err(),
        "binaries::extraire_deps | vérification d'intégrité échouée pour ffprobe"
    );
    assert_eq!(sha256_hex(b"").len(), 64);
}

#[test]
fn encodeurs_de_ffmpeg() {
    let sortie = "Encoders:\n V..... = Video\n ------\n V....D libx264              libx264 H.264\n A....D aac                  AAC\n V....D h264_nvenc           NVIDIA NVENC\n";
    assert_eq!(encodeurs_disponibles(sortie), v(&["=", "libx264", "h264_nvenc"]));
}

#[test]
fn test_d_acceleration() {
    let dispo = v(&["libx264", "h264_nvenc"]);
    assert_eq!(encodeur_a_tester("nvenc", &dispo), Some("h264_nvenc".to_string()));
    assert_eq!(encodeur_a_tester("qsv", &dispo), None);
    let a = arguments_test_encodeur("h264_nvenc");
    assert_eq!(a[10], "h264_nvenc");
    assert_eq!(a.len(), 14);
    assert_eq!(accels_fonctionnelles([true, false, false, true]), v(&["nvenc", "videotoolbox"]));
    assert_eq!(accels_fonctionnelles([false; 4]), Vec::<String>::new());
}

#[test]
fn codec_audio() {
    assert_eq!(extraire_nom_codec("  aac\n"), "aac");
    assert_eq!(arguments_nom_codec("a.mkv").last().unwrap(), "a.mkv");
}

#[test]
fn fichiers_mkv() {
    assert!(est_mkv("/v/film.MKV"));
    assert!(est_mkv("film.mkv"));
    assert!(!est_mkv("film.mp4"));
    assert!(!est_mkv("mkv"));
}

#[test]
fn duree_ffprobe() {
    let json = "{\n    \"format\": {\n        \"duration\": \"3725.123456\"\n    }\n}";
    assert_eq!(texte_duree(json), Some("3725.123456".to_string()));
    assert_eq!(texte_duree("{}"), None);
    assert_eq!(arguments_duree("x.mkv"), v(&["-v", "quiet", "-print_format", "json", "-show_entries", "format=duration", "x.mkv"]));
}

#[test]
fn progression_ffmpeg() {
    let (l, reste) = lignes_de_progression("frame=1 time=00:00:01.00 bitrate\rframe=2 time=00:00:02.50\rfra");
    assert_eq!(l, v(&["frame=1 time=00:00:01.00 bitrate", "frame=2 time=00:00:02.50"]));
    assert_eq!(reste, "fra");
    assert_eq!(temps_de_progression(&l[0]), Some("00:00:01.00".to_string()));
    assert_eq!(temps_de_progression("size=1kB"), None);
    assert_eq!(temps_de_progression("time="), Some(String::new()));
}

#[test]
fn mots_et_espaces() {
    let m = mots_de(&"  a bc\td ".chars().collect::<Vec<_>>());
    assert_eq!(m, vec![vec!['a'], vec!['b', 'c'], vec!['d']]);
    assert_eq!(rogner_debut(&[' ', 'x', ' ']), vec!['x', ' ']);
}

#[test]
fn fusion_de_pdf() {
    let objets = vec![
        ((1, 0), GenreObjet::Catalogue),
        ((2, 0), GenreObjet::NoeudPages),
        ((3, 0), GenreObjet::Omis),
        ((4, 0), GenreObjet::Autre),
        ((5, 0), GenreObjet::Catalogue),
        ((6, 0), GenreObjet::NoeudPages),
        ((7, 0), GenreObjet::Omis),
    ];
    let pages = vec![(3, 0), (7, 0)];
    let p = pdf_merge(2, &objets, &pages).unwrap_or_else(|_| panic!("plan attendu"));
    assert_eq!(p.catalogue, (1, 0));
    assert_eq!(p.contenu_catalogue, (5, 0));
    assert_eq!(p.noeud_pages, (2, 0));
    assert_eq!(p.noeuds_pages, vec![(2, 0), (6, 0)]);
    assert_eq!(p.autres, vec![(4, 0)]);
    assert_eq!(p.pages, pages);
    assert_eq!(p.nombre_pages, 2);
}

#[test]
fn fusion_de_pdf_erreurs() {
    assert_eq!(pdf_merge(0, &vec![], &vec![]).err().unwrap(), "Aucun fichier à fusionner");
    assert_eq!(pdf_merge(1, &vec![((1, 0), GenreObjet::Catalogue)], &vec![]).err().unwrap(), "Nœud Pages introuvable");
    assert_eq!(pdf_merge(1, &vec![((1, 0), GenreObjet::NoeudPages)], &vec![]).err().unwrap(), "Catalogue introuvable");
}

#[test]
fn images_d_un_film() {
    let m = save_metadata(&fiche(false), "film.mkv", "film", "2024-01-01 00:00:00", true);
    let paires: Vec<(String, String)> = m.images.into_iter().map(|x| (x.url, x.fichier)).collect();
    assert_eq!(paires, vec![
        ("https://image.tmdb.org/t/p/original/p.jpg".to_string(), "film_poster.jpg".to_string()),
        ("https://image.tmdb.org/t/p/original/b.jpg".to_string(), "film_fanart.jpg".to_string()),
    ]);
    assert_eq!(m.nfo.len(), 1);
    assert_eq!(m.nfo[0].nom, "film.nfo");
    assert!(m.nfo[0].contenu.contains("<movie>"));
    assert_eq!(save_metadata(&fiche(false), "film.mkv", "film", "", false).images.len(), 1);
}

#[test]
fn images_d_une_serie() {
    let mut d = BTreeSet::new();
    d.insert(3);
    d.insert(0);
    d.insert(1);
    let m = save_series_metadata(&fiche(true), "GoT", "2024-01-01 00:00:00", false, &d);
    let fichiers: Vec<String> = m.images.into_iter().map(|x| x.fichier).collect();
    assert_eq!(fichiers, v(&["GoT_poster.jpg", "GoT_season01_poster.jpg", "GoT_season03_poster.jpg"]));
    let noms: Vec<String> = m.nfo.iter().map(|x| x.nom.clone()).collect();
    assert_eq!(noms, v(&["GoT.nfo", "GoT_season00.nfo", "GoT_season01.nfo", "GoT_season03.nfo"]));
    assert!(m.nfo[0].contenu.contains("<tvshow>"));
    assert!(m.nfo[3].contenu.contains("<season>3</season>"));
}

#[test]
fn logo_fanart() {
    assert_eq!(cle_fanart("k", Some("e".to_string())), Some("k".to_string()));
    assert_eq!(cle_fanart("", Some("e".to_string())), Some("e".to_string()));
    assert_eq!(cle_fanart("", None), None);
    assert_eq!(cles_logo(true), vec!["hdtvlogo", "clearlogo"]);
    assert_eq!(cles_logo(false), vec!["hdmovielogo", "hdclearlogo", "movielogo"]);
    let t = vec![None, Some(vec![Some("u1".to_string()), Some("u2".to_string())])];
    assert_eq!(choisir_logo(&t), Some("u1".to_string()));
    let vide = vec![Some(vec![]), Some(vec![Some("u".to_string())])];
    assert_eq!(choisir_logo(&vide), None);
    assert_eq!(choisir_logo(&vec![None, None]), None);
}

fn section(nom: &str, entrees: Vec<(&str, ValeurToml)>) -> SectionToml {
    SectionToml {
        nom: nom.to_string(),
        table: Some(entrees.into_iter().map(|(k, v)| EntreeToml { cle: k.to_string(), valeur: v }).collect()),
    }
}

#[test]
fn outils_charges() {
    let doc = vec![
        section("tools", vec![("list_dir", ValeurToml::Texte("/l".to_string()))]),
        section("tools_files", vec![
            ("films", ValeurToml::Texte("/f".to_string())),
            ("n", ValeurToml::Entier(3)),
            ("series", ValeurToml::Texte("/s".to_string())),
        ]),
        section("tools_folders", vec![("sources", ValeurToml::Liste(vec![Some("/a".to_string()), None, Some("/b".to_string())]))]),
    ];
    let c = ToolsConfig::load(&doc);
    assert_eq!(c.list_dir, "/l");
    assert_eq!(c.file_sources, vec![("films".to_string(), "/f".to_string()), ("series".to_string(), "/s".to_string())]);
    assert_eq!(c.folder_sources, v(&["/a", "/b"]));
    assert!(!c.is_empty());
    let vide = ToolsConfig::load(&vec![]);
    assert!(vide.is_empty());
}

#[test]
fn outils_sauves() {
    let c = ToolsConfig {
        list_dir: "/l".to_string(),
        file_sources: vec![("films".to_string(), "/f".to_string())],
        folder_sources: v(&["/a"]),
    };
    let ms = c.save();
    assert_eq!(ms.len(), 3);
    assert!(matches!(&ms[0], Modification::Inserer(s, k, ValeurToml::Texte(t)) if s == "tools" && k == "list_dir" && t == "/l"));
    assert!(matches!(&ms[1], Modification::Remplacer(s, t) if s == "tools_files" && t.len() == 1 && t[0].cle == "films"));
    match &ms[2] {
        Modification::Remplacer(s, t) => {
            assert_eq!(s, "tools_folders");
            assert!(matches!(&t[0].valeur, ValeurToml::Liste(l) if l == &vec![Some("/a".to_string())]));
        },
        _ => panic!("remplacement attendu"),
    }
}

fn ecrire(doc: &mut Vec<SectionToml>, ms: &[Modification]) {
    for m in ms {
        match m {
            Modification::Remplacer(s, t) => {
                doc.retain(|x| &x.nom != s);
                doc.push(SectionToml { nom: s.clone(), table: Some(t.clone()) });
            },
            Modification::Inserer(s, k, v) => {
                if !doc.iter().any(|x| &x.nom == s) {
                    doc.push(SectionToml { nom: s.clone(), table: Some(Vec::new()) });
                }
                let x = doc.iter_mut().find(|x| &x.nom == s).unwrap();
                let t = x.table.as_mut().unwrap();
                t.retain(|e| &e.cle != k);
                t.push(EntreeToml { cle: k.clone(), valeur: v.clone() });
            },
            _ => panic!("changement inattendu"),
        }
    }
}

#[test]
fn outils_sauves_puis_relus() {
    let c = ToolsConfig {
        list_dir: "/listes".to_string(),
        file_sources: vec![("films".to_string(), "/f".to_string()), ("series".to_string(), "/s".to_string())],
        folder_sources: v(&["/a", "/b"]),
    };
    let mut doc = vec![
        section("tools", vec![("list_dir", ValeurToml::Texte("/ancien".to_string()))]),
        section("tools_files", vec![("vieux", ValeurToml::Texte("/v".to_string()))]),
        section("app", vec![("lang", ValeurToml::Texte("fr".to_string()))]),
    ];
    ecrire(&mut doc, &c.save());
    let r = ToolsConfig::load(&doc);
    assert_eq!(r.list_dir, c.list_dir);
    assert_eq!(r.file_sources, c.file_sources);
    assert_eq!(r.folder_sources, c.folder_sources);
}

#[test]
fn listes_de_fichiers() {
    assert_eq!(chemin_liste("/l", "films", '/'), "/l/films.txt");
    let sources = vec![
        ("a".to_string(), "/a".to_string()),
        ("b".to_string(), "/b".to_string()),
        ("c".to_string(), "/c".to_string()),
        ("d".to_string(), "/d".to_string()),
    ];
    let issues = vec![
        IssueFichiers::Ecrite,
        IssueFichiers::Inaccessible,
        IssueFichiers::Vide,
        IssueFichiers::EchecParcours("refus".to_string()),
    ];
    let (ok, e) = lister_fichiers("/l", Ok(()), &sources, &issues);
    assert_eq!(ok, 2);
    assert_eq!(e, v(&["/b → inaccessible", "d → parcours: refus"]));
    let (ok, e) = lister_fichiers("/l", Err("interdit".to_string()), &sources, &vec![]);
    assert_eq!(ok, 0);
    assert_eq!(e, v(&["Impossible de créer /l: interdit"]));
}

#[test]
fn listes_de_dossiers() {
    let sources = v(&["/a", "/b", "/c"]);
    let issues = vec![
        IssueDossiers::Parcouru(v(&["/a/x", "/a/y"])),
        IssueDossiers::Inaccessible,
        IssueDossiers::EchecParcours("e".to_string()),
    ];
    let (lignes, ok, e) = lister_dossiers(&sources, &issues);
    assert_eq!(lignes, v(&["/a/x", "/a/y", "# Inaccessible : /b"]));
    assert_eq!(ok, 1);
    assert_eq!(e, v(&["/b → inaccessible", "/c → parcours: e"]));
}

#[test]
fn pages_des_surimpressions() {
    assert_eq!(pages_ciblees(4, None), vec![1, 2, 3, 4]);
    assert_eq!(pages_ciblees(4, Some(&[2, 9, 4])), vec![2, 4]);
    assert_eq!(pdf_numeroter(9, 3), v(&["9", "10", "11"]));
}

#[test]
fn signature_datee() {
    // 2024-03-05 12:00:00 UTC
    let s = pdf_signer("Zoé", 1_709_640_000);
    let mut attendu = b"Signed: Zo".to_vec();
    attendu.push(0xE9);
    attendu.extend_from_slice(b" - 2024-03-05");
    assert_eq!(s, attendu);
}

#[test]
fn operation_sur_un_document() {
    assert!(matches!(appliquer_operation_doc("/d/a.PDF", "/d/b.pdf", "/tmp", '/'), PlanOperation::Direct));
    match appliquer_operation_doc("/d/rapport.docx", "/d/rapport_oxytools.docx", "/tmp", '/') {
        PlanOperation::ViaPdf { pdf_entree, pdf_sortie, recopier } => {
            assert_eq!(pdf_entree, "/tmp/oxytools_tmp_rapport.pdf");
            assert_eq!(pdf_sortie, "/tmp/oxytools_tmp_rapport_out.pdf");
            assert!(!recopier);
        },
        _ => panic!("conversion attendue"),
    }
    match appliquer_operation_doc("/d/notes.txt", "/d/notes_oxytools.pdf", "/tmp", '/') {
        PlanOperation::ViaPdf { recopier, .. } => assert!(recopier),
        _ => panic!("conversion attendue"),
    }
}

#[test]
fn travail_sans_dossier() {
    assert!(matches!(travail(&reglages(ModuleType::Doc), "a.md", None, '/'), Travail::SansDossier));
    assert!(matches!(travail(&reglages(ModuleType::Rename), "/d/a.md", Some("/d"), '/'), Travail::Aucun));
}

#[test]
fn travail_documents() {
    let mut r = reglages(ModuleType::Doc);
    r.format = "DOCX".to_string();
    match travail(&r, "/d/a.md", Some("/d"), '/') {
        Travail::DocConvertir(s, e, f) => {
            assert_eq!(s, "/d/a_oxytools.docx");
            assert!(e.is_some() && f.is_some());
        },
        _ => panic!("conversion attendue"),
    }
    r.doc_action = "pdf_split".to_string();
    assert!(matches!(travail(&r, "/d/a.pdf", Some("/d"), '/'), Travail::Sortie(Operation::PdfSplit, s) if s == "/d/a_pages"));
    r.doc_action = "pdf_organize".to_string();
    r.pdf_nouvel_ordre = " x, ".to_string();
    assert!(matches!(travail(&r, "/d/a.pdf", Some("/d"), '/'), Travail::Echec(m) if m == "pdf_organize: ordre vide ou invalide"));
    r.pdf_nouvel_ordre = "3, 1,2".to_string();
    assert!(matches!(travail(&r, "/d/a.pdf", Some("/d"), '/'), Travail::PdfOrganiser(s, o) if s == "/d/a_oxytools.pdf" && *o == vec![3, 1, 2]));
    r.doc_action = "pdf_rotate".to_string();
    r.pdf_pages = "1-end".to_string();
    assert!(matches!(travail(&r, "/d/a.pdf", Some("/d"), '/'), Travail::Pages(OperationPages::Rotation, _, None)));
    r.doc_action = "pdf_sign".to_string();
    r.pdf_pages = "2".to_string();
    assert!(matches!(travail(&r, "/d/a.pdf", Some("/d"), '/'),
        Travail::PdfSigner(_, PositionNumero::BasDroite, Some(p)) if *p == vec![2]));
    r.doc_action = "pdf_numbers".to_string();
    r.pdf_num_position = "HautGauche".to_string();
    assert!(matches!(travail(&r, "/d/a.pdf", Some("/d"), '/'), Travail::PdfNumeroter(_, PositionNumero::HautGauche)));
    r.doc_action = "???".to_string();
    assert!(matches!(travail(&r, "/d/a.pdf", Some("/d"), '/'), Travail::Sortie(Operation::DocDefaut, _)));
}

#[test]
fn travail_images() {
    let mut r = reglages(ModuleType::Image);
    r.format = "ico".to_string();
    r.tailles_ico = vec![16, 32];
    match travail(&r, "/d/logo.png", Some("/d"), '/') {
        Travail::ImageIco(f) => assert_eq!(f, vec![(16, "/d/logo_16x16.ico".to_string()), (32, "/d/logo_32x32.ico".to_string())]),
        _ => panic!("icônes attendues"),
    }
    r.format = "jxl".to_string();
    r.jxl_mode = "pivot".to_string();
    assert!(matches!(travail(&r, "/d/a.png", Some("/d"), '/'), Travail::ImageJxl(ModeJxl::Pivot)));
    r.format = "webp".to_string();
    r.resize_width = "800".to_string();
    r.resize_height = "600".to_string();
    match travail(&r, "/d/a.png", Some("/d"), '/') {
        Travail::ImageConvertirRedim { temp, sortie, largeur, hauteur } => {
            assert_eq!(temp, "/d/a_oxytools.webp_temp_cvt.png");
            assert_eq!(sortie, "/d/a_oxytools.webp");
            assert_eq!((largeur, hauteur), (800, 600));
        },
        _ => panic!("redimensionnement attendu"),
    }
    r.image_action = "resize".to_string();
    r.resize_max_kb = "200".to_string();
    assert!(matches!(travail(&r, "/d/a.png", Some("/d"), '/'),
        Travail::ImageRedimPoids { temp, ko: 200, .. } if temp == "/d/a_oxytools.webp_temp.webp"));
    r.image_action = "html_to_image".to_string();
    assert!(matches!(travail(&r, "/d/p.html", Some("/d"), '/'), Travail::Sortie(Operation::ImageHtml, s) if s == "/d/p_oxytools.png"));
}

#[test]
fn travail_archives_et_audio() {
    let mut r = reglages(ModuleType::Archive);
    r.format = "zip".to_string();
    r.archive_action = "multi".to_string();
    assert!(matches!(travail(&r, "/d/dossier", Some("/d"), '/'), Travail::Sortie(Operation::ArchiveMulti, s) if s == "/d/dossier.zip"));
    r.archive_action = "extract".to_string();
    assert!(matches!(travail(&r, "/d/a.tar.gz", Some("/d"), '/'), Travail::Sortie(Operation::ArchiveExtraire, s) if s == "/d/a.tar"));
    let mut a = reglages(ModuleType::Audio);
    a.audio_action = "extract".to_string();
    assert!(matches!(travail(&a, "/d/film.mkv", Some("/d"), '/'), Travail::AudioExtraire));
    assert_eq!(sortie_extraction_audio("/d", "/d/film.mkv", "", '/'), "/d/film_oxytools.mka");
    assert_eq!(sortie_extraction_audio("/d", "/d/film.mkv", "aac", '/'), "/d/film_oxytools.aac");
}

#[test]
fn recherche_tmdb() {
    assert_eq!(cle_tmdb("k", None).unwrap(), "k");
    assert_eq!(cle_tmdb("", Some("e".to_string())).unwrap(), "e");
    assert_eq!(cle_tmdb("", None).unwrap_err(), "TMDB_API_KEY manquante");
    let p = parametres_recherche("k", "Le.Film.2019");
    assert_eq!(p[2], ("query".to_string(), "Le Film".to_string()));
    match fetch_by_tmdb_id(42, true, fiche(false)) {
        Err(m) => assert_eq!(m, "ID 42 introuvable"),
        Ok(_) => panic!("erreur attendue"),
    }
    match fetch_by_tmdb_id(42, false, fiche(false)) {
        Ok(v) => assert_eq!(v.len(), 1),
        Err(_) => panic!("résultat attendu"),
    }
    let r = search_tmdb(vec![Some(fiche(false)), None, Some(fiche(true))]);
    assert_eq!(r.len(), 2);
    assert!(r[1].is_series);
}

#[test]
fn veille_du_lecteur() {
    let mut w = oxytools::veille::Veille::new();
    assert_eq!(w.observer("film.mkv", false), None);
    assert_eq!(w.observer("film.mkv", true), Some("{\"status\":\"VU\",\"video\":\"film.mkv\"}".to_string()));
    assert_eq!(w.observer("film.mkv", true), None);
    assert_eq!(w.observer("", true), None);
    assert_eq!(w.observer("a\"b.mkv", true), Some("{\"status\":\"VU\",\"video\":\"a\\\"b.mkv\"}".to_string()));
    assert_eq!(w.dernier, "a\"b.mkv");
}

#[test]
fn vu_deux_fois_compte_deux() {
    let t = oxytools::tag::marquer_vu(&vec![], "fr");
    let t = oxytools::tag::marquer_vu(&t, "fr");
    assert!(t.contains(&("PLAYCOUNT".to_string(), "2".to_string())));
    assert!(t.contains(&("WATCHED".to_string(), "true".to_string())));
    assert!(t.contains(&("KEYWORDS".to_string(), "VU".to_string())));
}

#[test]
fn rotation_puis_complement() {
    let r = oxytools::pdf::pdf_rotate(&vec![0, 90, 270], 90, None).unwrap();
    assert_eq!(r, vec![90, 180, 0]);
    let r = oxytools::pdf::pdf_rotate(&r, 270, None).unwrap();
    assert_eq!(r, vec![0, 90, 270]);
}

#[test]
fn suppression_une_page_de_moins() {
    let r = oxytools::pdf::pdf_supprimer_pages(6, &[2, 2, 9]).unwrap();
    assert_eq!(r, vec![1, 3, 4, 5, 6]);
    assert!(oxytools::pdf::pdf_supprimer_pages(2, &[1, 2]).is_err());
}

#[test]
fn saisons_des_fichiers() {
    let s = oxytools::scrap::collect_season_numbers(&v(&["/s/Show.S01E01.mkv", "/s/Show.S03E02.mkv", "/s/notes.txt", "/s/Show 2x05.avi"]));
    assert_eq!(s.into_iter().collect::<Vec<_>>(), vec![1, 2, 3]);
    assert_eq!(oxytools::scrap::url_vignette("/a.jpg"), "https://image.tmdb.org/t/p/w92/a.jpg");
}

#[test]
fn demarrage_d_un_lot() {
    assert!(oxytools::taches::verifier_deps().is_empty());
    assert_eq!(oxytools::taches::lancer_batch(4, 2), 2);
    assert_eq!(oxytools::taches::lancer_batch(2, 10), 2);
    assert_eq!(oxytools::taches::lancer_batch(3, 0), 0);
}
