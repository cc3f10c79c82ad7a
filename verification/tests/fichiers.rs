use lopdf::{Dictionary, Document, Object, Stream};
use oxytools::conversion::{texte_docx, texte_odt};
use oxytools::ecriture::EntreeArchive;
use oxytools::fichiers::{archive_zip, compresser_pdf, lire_pdf_texte, membre_zip, pdf_dechiffrer, pdf_reparer};

/// A one-page PDF saying "Bonjour", with an object that nothing refers to.
fn pdf_d_essai() -> Vec<u8> {
    let mut doc = Document::with_version("1.5");
    let arbre = doc.new_object_id();
    let mut police = Dictionary::new();
    police.set("Type", "Font");
    police.set("Subtype", "Type1");
    police.set("BaseFont", "Helvetica");
    let police = doc.add_object(police);
    let mut polices = Dictionary::new();
    polices.set("F1", police);
    let mut ressources = Dictionary::new();
    ressources.set("Font", polices);
    let contenu = doc.add_object(Stream::new(Dictionary::new(), b"BT /F1 12 Tf 100 700 Td (Bonjour) Tj ET".to_vec()));
    let mut page = Dictionary::new();
    page.set("Type", "Page");
    page.set("Parent", arbre);
    page.set("MediaBox", vec![Object::Integer(0), Object::Integer(0), Object::Integer(595), Object::Integer(842)]);
    page.set("Contents", contenu);
    page.set("Resources", ressources);
    let page = doc.add_object(page);
    let mut pages = Dictionary::new();
    pages.set("Type", "Pages");
    pages.set("Kids", vec![Object::Reference(page)]);
    pages.set("Count", 1);
    doc.objects.insert(arbre, Object::Dictionary(pages));
    let mut catalogue = Dictionary::new();
    catalogue.set("Type", "Catalog");
    catalogue.set("Pages", arbre);
    let catalogue = doc.add_object(catalogue);
    doc.trailer.set("Root", catalogue);
    doc.add_object(Object::string_literal("MARQUEURORPHELIN"));
    let mut v = Vec::new();
    doc.save_to(&mut v).unwrap();
    v
}

fn contient(octets: &[u8], motif: &str) -> bool {
    octets.windows(motif.len()).any(|w| w == motif.as_bytes())
}

#[test]
fn reparation_elague_les_objets_orphelins() {
    let pdf = pdf_d_essai();
    assert!(contient(&pdf, "MARQUEURORPHELIN"));
    let r = pdf_reparer(&pdf).unwrap();
    assert!(r.starts_with(b"%PDF"));
    assert!(!contient(&r, "MARQUEURORPHELIN"));
    let e = pdf_reparer(b"pas un pdf").unwrap_err();
    assert!(e.starts_with("Erreur chargement PDF (fichier trop corrompu ?) : "));
}

#[test]
fn compression_et_gain() {
    let pdf = pdf_d_essai();
    let (c, gain) = compresser_pdf(&pdf, 12).unwrap();
    assert!(c.starts_with(b"%PDF"));
    assert!(!contient(&c, "MARQUEURORPHELIN"));
    assert_eq!(gain, (pdf.len() as u64).saturating_sub(c.len() as u64));
    assert!(compresser_pdf(b"x", 9).unwrap_err().starts_with("Erreur chargement PDF : "));
}

#[test]
fn dechiffrement_d_un_pdf_clair() {
    let pdf = pdf_d_essai();
    let r = pdf_dechiffrer(&pdf, "secret").unwrap();
    assert!(r.starts_with(b"%PDF"));
    assert!(pdf_dechiffrer(b"x", "secret").unwrap_err()
        .starts_with("Mot de passe incorrect ou erreur chargement/déchiffrement : "));
}

#[test]
fn texte_d_un_pdf() {
    let t = lire_pdf_texte(&pdf_d_essai()).unwrap();
    assert!(t.contains("Bonjour"));
    assert!(lire_pdf_texte(b"x").unwrap_err().starts_with("Erreur chargement PDF : "));
}

fn entree(nom: &str, contenu: &str, compresse: bool) -> EntreeArchive {
    EntreeArchive { nom: nom.to_string(), contenu: contenu.to_string(), compresse }
}

#[test]
fn archive_ecrite_puis_relue() {
    let docx = archive_zip(&vec![
        entree("mimetype", "application/test", false),
        entree("word/document.xml", "<w:document><w:p><w:r><w:t>Salut</w:t></w:r></w:p></w:document>", true),
    ]).unwrap();
    assert!(docx.starts_with(b"PK"));
    assert_eq!(texte_docx(&docx).unwrap(), "Salut");
    assert_eq!(membre_zip(&docx, "mimetype", "DOCX").unwrap(), "application/test");
    assert!(texte_odt(&docx).unwrap_err().starts_with("content.xml introuvable : "));
    assert!(texte_docx(b"rien").unwrap_err().starts_with("Erreur lecture ZIP DOCX : "));
    let odt = archive_zip(&vec![entree("content.xml", "<office:text><text:p>Corps</text:p></office:text>", true)]).unwrap();
    assert_eq!(texte_odt(&odt).unwrap(), "Corps");
    assert!(archive_zip(&vec![entree("a", "1", true), entree("a", "2", true)]).unwrap_err().starts_with("Erreur ZIP : "));
}
