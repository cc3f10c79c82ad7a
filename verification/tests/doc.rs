use oxytools::conversion::{
    convertir_avec_formats, convertir_csv, convertir_pdf, convertir_typst, convertir_vers_pdf, convertir_yaml,
    extraire_texte, plan_conversion, traiter_log, Cible, PlanConversion, Source, Traitement,
};
use oxytools::doc::{
    apres_operation, appliquer_operation_doc, chemins_operation, detecter_format_entree, detecter_format_sortie, est_pdf,
    Etape, FormatEntree, FormatSortie,
};

const TEST_DOC: &str = "tests/doc";

fn chaine(s: Source, t: Traitement, c: Cible) -> PlanConversion {
    PlanConversion::Chaine { source: s, traitement: t, cible: c }
}

#[test]
fn test_doc_detecter_format_entree_md() {
    let fmt = detecter_format_entree(&format!("{TEST_DOC}/md.md"));
    println!("  format entree MD: {:?}", fmt);
    assert_eq!(fmt, Some(FormatEntree::Md));
}

#[test]
fn test_doc_detecter_format_entree_docx() {
    let fmt = detecter_format_entree(&format!("{TEST_DOC}/docx.docx"));
    println!("  format entree DOCX: {:?}", fmt);
    assert_eq!(fmt, Some(FormatEntree::Docx));
}

#[test]
fn test_doc_detecter_format_entree_html() {
    let fmt = detecter_format_entree(&format!("{TEST_DOC}/html.html"));
    println!("  format entree HTML: {:?}", fmt);
    assert_eq!(fmt, Some(FormatEntree::Html));
}

#[test]
fn test_doc_detecter_format_sortie_pdf() {
    let fmt = detecter_format_sortie("output.pdf");
    println!("  format sortie pdf: {:?}", fmt);
    assert_eq!(fmt, Some(FormatSortie::Pdf));
}

#[test]
fn test_doc_detecter_format_sortie_html() {
    let fmt = detecter_format_sortie("output.html");
    println!("  format sortie html: {:?}", fmt);
    assert_eq!(fmt, Some(FormatSortie::Html));
}

#[test]
fn formats_casse_et_inconnus() {
    assert_eq!(detecter_format_entree("NOTES.MarkDown"), Some(FormatEntree::Md));
    assert_eq!(detecter_format_entree("a/b.YML"), Some(FormatEntree::Yaml));
    assert_eq!(detecter_format_entree("film.nfo"), Some(FormatEntree::Txt));
    assert_eq!(detecter_format_entree("archive.tar.gz"), None);
    assert_eq!(detecter_format_entree(".bashrc"), None);
    assert_eq!(detecter_format_entree("sans_extension"), None);
    assert_eq!(detecter_format_sortie("x.txt"), Some(FormatSortie::Plain));
    assert_eq!(detecter_format_sortie("x.EPUB"), Some(FormatSortie::Epub));
    assert_eq!(detecter_format_sortie("x.csv"), None);
}

#[test]
fn pdf_reconnu_en_toute_casse() {
    assert!(est_pdf("a/B.PdF"));
    assert!(!est_pdf("a/pdf"));
    assert!(!est_pdf("a.pdfx"));
}

#[test]
fn routes_vers_pdf() {
    assert_eq!(plan_conversion(Some(FormatEntree::Md), Some(FormatSortie::Pdf)),
        chaine(Source::Texte, Traitement::MarkdownVersTexte, Cible::Pdf));
    assert_eq!(plan_conversion(Some(FormatEntree::Csv), Some(FormatSortie::Pdf)),
        chaine(Source::Texte, Traitement::Aucun, Cible::Pdf));
    assert_eq!(plan_conversion(Some(FormatEntree::Dotx), Some(FormatSortie::Pdf)),
        chaine(Source::Docx, Traitement::Aucun, Cible::Pdf));
    assert_eq!(plan_conversion(Some(FormatEntree::Pdf), Some(FormatSortie::Pdf)), PlanConversion::Copie);
    assert_eq!(plan_conversion(Some(FormatEntree::Tex), Some(FormatSortie::Pdf)), PlanConversion::Copie);
}

#[test]
fn odt_vers_markdown_extrait_le_texte() {
    assert_eq!(plan_conversion(Some(FormatEntree::Odt), Some(FormatSortie::Md)),
        chaine(Source::Odt, Traitement::Aucun, Cible::Fichier));
    assert_eq!(plan_conversion(Some(FormatEntree::Docx), Some(FormatSortie::Md)),
        chaine(Source::Docx, Traitement::Aucun, Cible::Fichier));
}

#[test]
fn suite_d_une_operation_pdf() {
    let direct = appliquer_operation_doc("a/x.pdf", "a/y.pdf", "/tmp", '/');
    assert_eq!(chemins_operation(&direct, "a/x.pdf", "a/y.pdf"), ("a/x.pdf".to_string(), "a/y.pdf".to_string()));
    match apres_operation(&direct, "a/y.pdf", Err("e".to_string())) {
        (v, Etape::Terminee(Err(e))) => { assert!(v.is_empty()); assert_eq!(e, "e"); },
        _ => panic!("fin attendue"),
    }
    let via = appliquer_operation_doc("a/x.md", "a/y.md", "/tmp", '/');
    assert_eq!(chemins_operation(&via, "a/x.md", "a/y.md"),
        ("/tmp/oxytools_tmp_x.pdf".to_string(), "/tmp/oxytools_tmp_x_out.pdf".to_string()));
    match apres_operation(&via, "a/y.md", Err("e".to_string())) {
        (v, Etape::Terminee(Err(e))) => {
            assert_eq!(v, vec!["/tmp/oxytools_tmp_x.pdf".to_string(), "/tmp/oxytools_tmp_x_out.pdf".to_string()]);
            assert_eq!(e, "e");
        },
        _ => panic!("échec attendu"),
    }
    match apres_operation(&via, "a/y.md", Ok(())) {
        (v, Etape::Reconvertir { de, vers }) => {
            assert_eq!(v, vec!["/tmp/oxytools_tmp_x.pdf".to_string()]);
            assert_eq!((de.as_str(), vers.as_str()), ("/tmp/oxytools_tmp_x_out.pdf", "a/y.md"));
        },
        _ => panic!("reconversion attendue"),
    }
    let recopie = appliquer_operation_doc("a/x.md", "a/y.pdf", "/tmp", '/');
    assert!(matches!(apres_operation(&recopie, "a/y.pdf", Ok(())).1, Etape::Recopier { .. }));
}

#[test]
fn routes_riches_et_simples() {
    assert_eq!(plan_conversion(Some(FormatEntree::Md), Some(FormatSortie::Docx)),
        chaine(Source::Texte, Traitement::MarkdownVersBlocs, Cible::DocxRiche));
    assert_eq!(plan_conversion(Some(FormatEntree::Html), Some(FormatSortie::Odt)),
        chaine(Source::Texte, Traitement::HtmlVersTexte, Cible::OdtSimple));
    assert_eq!(plan_conversion(None, Some(FormatSortie::Rtf)),
        chaine(Source::Texte, Traitement::Aucun, Cible::RtfSimple));
    assert_eq!(plan_conversion(Some(FormatEntree::Md), Some(FormatSortie::Epub)),
        chaine(Source::Texte, Traitement::MarkdownVersTexte, Cible::Epub));
    assert_eq!(plan_conversion(Some(FormatEntree::Pdf), Some(FormatSortie::Epub)),
        chaine(Source::Pdf, Traitement::Aucun, Cible::Epub));
    assert_eq!(plan_conversion(Some(FormatEntree::Md), Some(FormatSortie::Html)),
        chaine(Source::Texte, Traitement::MarkdownVersPage, Cible::Fichier));
    assert_eq!(plan_conversion(Some(FormatEntree::Html), Some(FormatSortie::Md)),
        chaine(Source::Texte, Traitement::HtmlVersMarkdown, Cible::Fichier));
    assert_eq!(plan_conversion(Some(FormatEntree::Md), None), PlanConversion::Copie);
    assert_eq!(plan_conversion(Some(FormatEntree::Html), Some(FormatSortie::Tex)), PlanConversion::Copie);
}

#[test]
fn routes_par_les_chemins() {
    let attendu = chaine(Source::Odt, Traitement::TexteVersHtml, Cible::Fichier);
    assert_eq!(convertir_avec_formats("a.odt", "b.html", None, None), attendu);
    assert_eq!(convertir_avec_formats("a.odt", "b.html", Some(FormatEntree::Pdf), Some(FormatSortie::Md)), attendu);
    assert_eq!(convertir_csv("t.csv", "t.html", FormatSortie::Html),
        chaine(Source::Texte, Traitement::TexteVersHtml, Cible::Fichier));
    assert_eq!(traiter_log("app.log", "app.pdf"), chaine(Source::Texte, Traitement::Aucun, Cible::Pdf));
    assert_eq!(convertir_yaml("c.yaml", "c.docx", FormatSortie::Docx),
        chaine(Source::Texte, Traitement::Aucun, Cible::DocxSimple));
    assert_eq!(convertir_typst("t.typ", "t.pdf", FormatSortie::Pdf), PlanConversion::Copie);
    assert_eq!(convertir_pdf("d.pdf", "d.txt", FormatSortie::Plain),
        chaine(Source::Pdf, Traitement::Aucun, Cible::Fichier));
}

#[test]
fn conversion_vers_pdf_a_cote() {
    let (sortie, plan) = convertir_vers_pdf("docs/rapport.final.md", None);
    assert_eq!(sortie, "docs/rapport.final.pdf");
    assert_eq!(plan, chaine(Source::Texte, Traitement::MarkdownVersTexte, Cible::Pdf));
    let (sortie, _) = convertir_vers_pdf("notes", None);
    assert_eq!(sortie, "notes.pdf");
    let (sortie, _) = convertir_vers_pdf("dossier/.cache", None);
    assert_eq!(sortie, "dossier/.cache.pdf");
}

#[test]
fn extraction_selon_le_format() {
    assert_eq!(extraire_texte("a.DOCX"), (Source::Docx, Traitement::Aucun));
    assert_eq!(extraire_texte("a.md"), (Source::Texte, Traitement::MarkdownVersTexte));
    assert_eq!(extraire_texte("a.htm"), (Source::Texte, Traitement::HtmlVersTexte));
    assert_eq!(extraire_texte("a.csv"), (Source::Texte, Traitement::Aucun));
}
