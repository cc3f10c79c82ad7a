use oxytools::blocs::{Block, Inline};
use oxytools::conversion::{convertir_contenu, texte_docx_xml, texte_odt_xml, Cible, Produit, Traitement};
use oxytools::ecriture::{
    ecrire_docx_riche, ecrire_docx_simple, ecrire_epub_simple, ecrire_odt_simple, ecrire_page_html,
    ecrire_rtf_riche, ecrire_rtf_simple,
};
use oxytools::markdown::md_vers_blocs;
use oxytools::mise_en_page::{decouper_texte, texte_vers_pages};
use oxytools::xml::{extraire_texte_xml, lire_nfo};

const ENTETE_RTF: &str = "{\\rtf1\\ansi\\deff0{\\fonttbl{\\f0 Calibri;}}\\f0\\fs22";

fn rendu(blocs: &[Block]) -> String {
    format!("{:?}", blocs)
}

#[test]
fn xml_docx_paragraphes() {
    let xml = "<w:document><w:body><w:p><w:r><w:t>Bonjour</w:t></w:r></w:p>\
               <w:p><w:r><w:t>Monde</w:t></w:r></w:p></w:body></w:document>";
    assert_eq!(extraire_texte_xml(xml, &["w:t"]).unwrap(), "Bonjour\nMonde");
    assert_eq!(texte_docx_xml(xml).unwrap(), "Bonjour\nMonde");
}

#[test]
fn xml_odt_titres_et_paragraphes() {
    let xml = "<office:text><text:h>Titre</text:h><text:p>Corps du texte</text:p></office:text>";
    assert_eq!(texte_odt_xml(xml).unwrap(), "Titre\nCorps du texte");
}

#[test]
fn xml_texte_hors_balise_ignore() {
    let xml = "<doc><meta>cache</meta><w:t>vu</w:t></doc>";
    assert_eq!(extraire_texte_xml(xml, &["w:t"]).unwrap(), "vu");
}

#[test]
fn xml_mal_forme_erreur() {
    let r = extraire_texte_xml("<a><b></a>", &["b"]);
    assert!(r.unwrap_err().starts_with("Erreur parsing XML"));
}

#[test]
fn nfo_valeurs_multiples_jointes() {
    let xml = "<movie>\n  <title>Film</title>\n  <genre>Action</genre>\n  <genre>Drame</genre>\n</movie>";
    let tags = lire_nfo(xml).unwrap();
    assert_eq!(
        tags,
        vec![
            ("title".to_string(), "Film".to_string()),
            ("genre".to_string(), "Action / Drame".to_string()),
        ]
    );
}

#[test]
fn nfo_mal_forme_erreur() {
    assert!(lire_nfo("<movie><title>x</genre></movie>").unwrap_err().starts_with("Erreur lecture NFO"));
}

#[test]
fn markdown_blocs_titre_et_emphase() {
    let b = md_vers_blocs("# Titre\n\nUn **gras** et *ital*.");
    assert_eq!(
        rendu(&b),
        rendu(&[
            Block::Heading(1, vec![Inline::Text("Titre".to_string())]),
            Block::Paragraph(vec![
                Inline::Text("Un ".to_string()),
                Inline::Bold("gras".to_string()),
                Inline::Text(" et ".to_string()),
                Inline::Italic("ital".to_string()),
                Inline::Text(".".to_string()),
            ]),
        ])
    );
}

#[test]
fn markdown_blocs_liste_a_puces() {
    let b = md_vers_blocs("- un\n- deux");
    assert_eq!(
        rendu(&b),
        rendu(&[
            Block::Paragraph(vec![Inline::Text("• ".to_string()), Inline::Text("un".to_string())]),
            Block::Paragraph(vec![Inline::Text("• ".to_string()), Inline::Text("deux".to_string())]),
        ])
    );
}

#[test]
fn markdown_blocs_gras_italique() {
    let b = md_vers_blocs("***fort***");
    assert_eq!(rendu(&b), rendu(&[Block::Paragraph(vec![Inline::BoldItalic("fort".to_string())])]));
}

fn texte_produit(lu: &str, t: Traitement) -> String {
    match convertir_contenu(lu, t, Cible::Fichier) {
        Ok(Produit::Texte(s)) => s,
        _ => panic!("texte attendu"),
    }
}

#[test]
fn markdown_vers_html_titre() {
    assert_eq!(
        texte_produit("# T", Traitement::MarkdownVersPage),
        ecrire_page_html("<h1>T</h1>\n")
    );
}

#[test]
fn html_vers_markdown_change_le_texte() {
    let md = texte_produit("<p><strong>gras</strong></p>", Traitement::HtmlVersMarkdown);
    assert!(md.contains("**gras**"));
    assert_ne!(md, "<p><strong>gras</strong></p>");
}

#[test]
fn rtf_simple_exact() {
    assert_eq!(ecrire_rtf_simple("a\n{b}"), format!("{}\na\\par\n\\{{b\\}}\\par}}", ENTETE_RTF));
}

#[test]
fn rtf_riche_titre() {
    let b = vec![Block::Heading(2, vec![Inline::Text("T".to_string())])];
    assert_eq!(ecrire_rtf_riche(&b), format!("{}\n\\fs38\\b \\b T\\b0 \\b0\\fs22\\par\n}}", ENTETE_RTF));
}

#[test]
fn docx_simple_entrees() {
    let a = ecrire_docx_simple("x < y");
    let noms: Vec<&str> = a.iter().map(|e| e.nom.as_str()).collect();
    assert_eq!(noms, vec!["[Content_Types].xml", "_rels/.rels", "word/_rels/document.xml.rels", "word/document.xml"]);
    assert!(a.iter().all(|e| e.compresse));
    assert!(a[3].contenu.contains("<w:p><w:r><w:t xml:space=\"preserve\">x &lt; y</w:t></w:r></w:p>"));
}

#[test]
fn docx_riche_taille_titre() {
    let b = vec![Block::Heading(1, vec![Inline::Text("T".to_string())])];
    let a = ecrire_docx_riche(&b);
    assert!(a[3].contenu.contains("<w:sz w:val=\"44\"/>"));
}

#[test]
fn odt_simple_paragraphes() {
    let a = ecrire_odt_simple("un\ndeux");
    let contenu = a.iter().find(|e| e.nom == "content.xml").unwrap();
    assert!(contenu.contenu.contains("<text:p>un</text:p>"));
    assert!(contenu.contenu.contains("<text:p>deux</text:p>"));
    assert_eq!(a[0].nom, "mimetype");
    assert!(!a[0].compresse);
}

#[test]
fn epub_mimetype_premier_et_stocke() {
    let a = ecrire_epub_simple("Bonjour & co");
    assert_eq!(a[0].nom, "mimetype");
    assert_eq!(a[0].contenu, "application/epub+zip");
    assert!(!a[0].compresse);
    assert_eq!(a.len(), 5);
    assert!(a[4].contenu.contains("<p>Bonjour &amp; co</p>"));
}

#[test]
fn page_html_enveloppe() {
    assert_eq!(
        ecrire_page_html("<p>x</p>"),
        "<!DOCTYPE html>\n<html><head><meta charset=\"utf-8\"></head><body>\n<p>x</p>\n</body></html>"
    );
}

#[test]
fn conversion_vers_fichier_texte() {
    match convertir_contenu("# Titre", Traitement::MarkdownVersPage, Cible::Fichier).unwrap() {
        Produit::Texte(t) => assert!(t.contains("<h1>Titre</h1>")),
        _ => panic!("texte attendu"),
    }
}

#[test]
fn conversion_vers_pdf_pages() {
    match convertir_contenu("a\nb", Traitement::Aucun, Cible::Pdf).unwrap() {
        Produit::Pdf(p) => assert_eq!(p, vec![vec!["a".to_string(), "b".to_string()]]),
        _ => panic!("pages attendues"),
    }
}

#[test]
fn conversion_riche_docx() {
    match convertir_contenu("**g**", Traitement::MarkdownVersBlocs, Cible::DocxRiche).unwrap() {
        Produit::Archive(a) => assert!(a[3].contenu.contains("<w:b/>")),
        _ => panic!("archive attendue"),
    }
}

#[test]
fn decoupe_longue_ligne() {
    let t = "mot ".repeat(30);
    let l = decouper_texte(t.trim_end(), 10);
    assert!(l.iter().all(|x| x.chars().count() <= 10));
    assert_eq!(l.join(" "), t.trim_end());
}

#[test]
fn pages_de_texte_vide() {
    assert_eq!(texte_vers_pages(""), vec![Vec::<String>::new()]);
}
