use oxytools::reglages::{
    chercher, dossier_config, EntreeToml, Modification, ModuleType, Reglages, SectionToml, ValeurToml,
};

fn reglages(module: ModuleType) -> Reglages {
    Reglages {
        module_actif: module,
        format_choisi: "png".to_string(),
        current_theme: "dark".to_string(),
        max_parallel_jobs: 3,
        lang_id: "fr".to_string(),
        ratio_img: 80,
        archive_niveau: 6,
        archive_backup_source: "/src".to_string(),
        archive_backup_dest: "/dst".to_string(),
        archive_backup_exclusions: "*.tmp".to_string(),
        archive_multi_source: "/multi".to_string(),
        audio_qualite: 4,
        copie_flux: true,
        video_speed: 5,
        keys_env_path: Some("/cles/.env".to_string()),
        rename_last_list_path: None,
        custom_config_dir: None,
        save_doc_format: true,
        save_image_format: true,
        save_archive_format: true,
        save_audio_format: true,
        save_video_format: true,
    }
}

fn section(nom: &str, entrees: Vec<(&str, ValeurToml)>) -> SectionToml {
    SectionToml {
        nom: nom.to_string(),
        table: Some(entrees.into_iter().map(|(k, v)| EntreeToml { cle: k.to_string(), valeur: v }).collect()),
    }
}

fn texte(s: &str) -> ValeurToml {
    ValeurToml::Texte(s.to_string())
}

/// Applies the changes as the application does on its TOML table.
fn appliquer(doc: &mut Vec<SectionToml>, ms: &[Modification]) {
    for m in ms {
        if let Modification::Remplacer(s, t) = m {
            doc.retain(|x| &x.nom != s);
            doc.push(SectionToml { nom: s.clone(), table: Some(t.clone()) });
            continue;
        }
        let (s, k, v) = match m {
            Modification::Creer(s) => (s, None, None),
            Modification::Inserer(s, k, v) => (s, Some(k), Some(v)),
            Modification::Retirer(s, k) => (s, Some(k), None),
            Modification::Remplacer(..) => unreachable!(),
        };
        let pos = doc.iter().position(|x| &x.nom == s);
        let pos = match (pos, m) {
            (Some(p), _) => p,
            (None, Modification::Retirer(..)) => continue,
            (None, _) => {
                doc.push(SectionToml { nom: s.clone(), table: Some(Vec::new()) });
                doc.len() - 1
            },
        };
        let table = match &mut doc[pos].table {
            Some(t) => t,
            None => continue,
        };
        match (k, v) {
            (Some(k), Some(v)) => match table.iter_mut().find(|e| &e.cle == k) {
                Some(e) => e.valeur = v.clone(),
                None => table.push(EntreeToml { cle: k.clone(), valeur: v.clone() }),
            },
            (Some(k), None) => table.retain(|e| &e.cle != k),
            _ => {},
        }
    }
}

#[test]
fn lecture_des_reglages() {
    let doc = vec![
        section("display", vec![("theme", texte("light"))]),
        section("performance", vec![("max_parallel_jobs", ValeurToml::Entier(8))]),
        section("app", vec![("lang", texte("de"))]),
        section("image", vec![("format", texte("webp")), ("ratio_img", ValeurToml::Entier(70))]),
        section("video", vec![("copie_flux", ValeurToml::Booleen(false)), ("speed", texte("vite"))]),
        section("scrapper", vec![("keys_path", texte("/k.env"))]),
    ];
    let mut r = reglages(ModuleType::Image);
    r.load_config(&doc);
    assert_eq!(r.current_theme, "light");
    assert_eq!(r.max_parallel_jobs, 8);
    assert_eq!(r.lang_id, "en");
    assert_eq!(r.format_choisi, "webp");
    assert_eq!(r.ratio_img, 70);
    assert_eq!(r.copie_flux, false);
    assert_eq!(r.video_speed, 5);
    assert_eq!(r.keys_env_path, Some("/k.env".to_string()));
    assert_eq!(r.archive_niveau, 6);
}

#[test]
fn format_efface_sans_section() {
    let mut r = reglages(ModuleType::Doc);
    r.load_config(&Vec::new());
    assert_eq!(r.format_choisi, "");
    let mut r = reglages(ModuleType::Rename);
    r.load_config(&Vec::new());
    assert_eq!(r.format_choisi, "png");
}

#[test]
fn derniere_occurrence_gagne() {
    let doc = vec![
        section("display", vec![("theme", texte("a")), ("theme", texte("b"))]),
        SectionToml { nom: "app".to_string(), table: None },
    ];
    assert!(matches!(chercher(&doc, "display", "theme"), Some(ValeurToml::Texte(t)) if t == "b"));
    assert!(chercher(&doc, "app", "lang").is_none());
    assert!(chercher(&doc, "absente", "x").is_none());
}

#[test]
fn sauvegarde_puis_relecture() {
    for module in [ModuleType::Doc, ModuleType::Image, ModuleType::Archive, ModuleType::Audio, ModuleType::Video] {
        let v = reglages(module);
        let mut doc = vec![section("display", vec![("theme", texte("ancien")), ("autre", ValeurToml::Autre)])];
        appliquer(&mut doc, &v.save_config());
        let mut relu = reglages(module);
        relu.current_theme = String::new();
        relu.max_parallel_jobs = 1;
        relu.lang_id = "en".to_string();
        relu.format_choisi = "x".to_string();
        relu.ratio_img = 0;
        relu.archive_niveau = 0;
        relu.audio_qualite = 0;
        relu.copie_flux = false;
        relu.video_speed = 0;
        relu.keys_env_path = None;
        relu.load_config(&doc);
        assert_eq!(relu.current_theme, "dark");
        assert_eq!(relu.max_parallel_jobs, 3);
        assert_eq!(relu.lang_id, "fr");
        assert_eq!(relu.format_choisi, "png");
        assert_eq!(relu.keys_env_path, Some("/cles/.env".to_string()));
        match module {
            ModuleType::Image => assert_eq!(relu.ratio_img, 80),
            ModuleType::Archive => assert_eq!(relu.archive_niveau, 6),
            ModuleType::Audio => assert_eq!(relu.audio_qualite, 4),
            ModuleType::Video => {
                assert!(relu.copie_flux);
                assert_eq!(relu.video_speed, 5);
            },
            _ => {},
        }
        assert!(matches!(chercher(&doc, "display", "autre"), Some(ValeurToml::Autre)));
    }
}

#[test]
fn format_non_garde_retire() {
    let mut v = reglages(ModuleType::Doc);
    v.save_doc_format = false;
    let ms = v.save_config();
    assert!(ms.iter().any(|m| matches!(m, Modification::Retirer(s, k) if s == "doc" && k == "format")));
    let mut doc = vec![section("doc", vec![("format", texte("pdf"))])];
    appliquer(&mut doc, &ms);
    assert!(chercher(&doc, "doc", "format").is_none());
}

#[test]
fn fichier_de_depart() {
    let mut v = reglages(ModuleType::Doc);
    assert!(v.save_bootstrap().is_none());
    v.custom_config_dir = Some("/conf".to_string());
    let ms = v.save_bootstrap().unwrap();
    let mut doc = Vec::new();
    appliquer(&mut doc, &ms);
    assert_eq!(dossier_config(&doc), Some("/conf".to_string()));
}

#[test]
fn liste_de_remplacements_relue() {
    let doc = vec![section("rename", vec![("last_list_path", texte("/l.txt"))])];
    let mut r = reglages(ModuleType::Image);
    r.load_config(&doc);
    assert_eq!(r.rename_last_list_path, Some("/l.txt".to_string()));
}

#[test]
fn relecture_malgre_une_valeur_simple() {
    let mut r = reglages(ModuleType::Archive);
    r.current_theme = "dark".to_string();
    r.max_parallel_jobs = usize::MAX;
    r.archive_backup_source = "/src".to_string();
    let mut doc = vec![SectionToml { nom: "scrapper".to_string(), table: None }];
    appliquer(&mut doc, &r.save_config());
    let mut b = reglages(ModuleType::Archive);
    b.load_config(&doc);
    assert_eq!(b.current_theme, "dark");
    assert_eq!(b.max_parallel_jobs, usize::MAX);
    assert_eq!(b.archive_backup_source, "/src");
}
