use lopdf::{Dictionary, Document, Object, Stream};
use oxytools::conversion::{convertir_avec_formats, convertir_contenu, texte_docx, texte_odt, PlanConversion, Produit, Source};
use oxytools::doc::{detecter_format_entree, detecter_format_sortie};
use oxytools::fichiers::{archive_zip, organiser_pdf, supprimer_pages_pdf, tourner_pdf};
use oxytools::fusion::fusionner_pdf;
use oxytools::pdf::{pdf_organiser, pdf_rotate, pdf_supprimer_pages};
use oxytools::tools::contenu_liste;
use oxytools::video::traiter_video;

const MD: &str = "# Titre\n\nBonjour *monde*, voici un paragraphe.\n\n- un\n- deux\n";
const HTML: &str = "<html><body><h1>Titre</h1><p>Bonjour <b>monde</b>.</p></body></html>";
const TXT: &str = "Bonjour\nmonde\n";

/// A PDF of `n` blank A4 pages, made with lopdf.
fn pdf_de(n: usize) -> Vec<u8> {
    let mut doc = Document::with_version("1.5");
    let arbre = doc.new_object_id();
    let mut kids = Vec::new();
    for _ in 0..n {
        let contenu = doc.add_object(Stream::new(Dictionary::new(), b"BT ET".to_vec()));
        let mut page = Dictionary::new();
        page.set("Type", Object::Name(b"Page".to_vec()));
        page.set("Parent", arbre);
        page.set("Contents", contenu);
        page.set("MediaBox", vec![Object::Integer(0), Object::Integer(0), Object::Integer(595), Object::Integer(842)]);
        kids.push(Object::Reference(doc.add_object(page)));
    }
    let mut pages = Dictionary::new();
    pages.set("Type", Object::Name(b"Pages".to_vec()));
    pages.set("Kids", kids);
    pages.set("Count", Object::Integer(n as i64));
    doc.objects.insert(arbre, Object::Dictionary(pages));
    let mut catalogue = Dictionary::new();
    catalogue.set("Type", Object::Name(b"Catalog".to_vec()));
    catalogue.set("Pages", arbre);
    let racine = doc.add_object(catalogue);
    doc.trailer.set("Root", racine);
    let mut v = Vec::new();
    doc.save_to(&mut v).unwrap();
    v
}

fn nombre_pages(octets: &[u8]) -> usize {
    Document::load_mem(octets).unwrap().get_pages().len()
}

/// What the library makes of a document read from `octets` and converted
/// from the name `entree` into the name `sortie`.
fn convertir(entree: &str, octets: &[u8], sortie: &str) -> Produit {
    match convertir_avec_formats(entree, sortie, detecter_format_entree(entree), detecter_format_sortie(sortie)) {
        PlanConversion::Chaine { source, traitement, cible } => {
            let lu = match source {
                Source::Texte => String::from_utf8(octets.to_vec()).unwrap(),
                Source::Docx => texte_docx(octets).unwrap(),
                Source::Odt => texte_odt(octets).unwrap(),
                Source::Pdf => panic!("pas de PDF en entrée ici"),
            };
            convertir_contenu(&lu, traitement, cible).unwrap_or_else(|e| panic!("{entree} -> {sortie} : {e}"))
        }
        PlanConversion::Copie => panic!("{entree} -> {sortie} : pas de conversion"),
    }
}

fn pages_pdf(p: Produit) -> usize {
    match p {
        Produit::Pdf(pages) => pages.len(),
        _ => panic!("PDF attendu"),
    }
}

fn texte(p: Produit) -> String {
    match p {
        Produit::Texte(t) => t,
        _ => panic!("texte attendu"),
    }
}

fn archive(p: Produit) -> Vec<u8> {
    match p {
        Produit::Archive(a) => archive_zip(&a).unwrap(),
        _ => panic!("archive attendue"),
    }
}

fn contient_entree(octets: &[u8], nom: &str) -> bool {
    let mut a = zip::ZipArchive::new(std::io::Cursor::new(octets.to_vec())).unwrap();
    let present = a.by_name(nom).is_ok();
    present
}

#[test]
fn test_doc_convertir_md_vers_pdf() {
    assert!(pages_pdf(convertir("md.md", MD.as_bytes(), "doc_md2pdf.pdf")) > 0);
}

#[test]
fn test_doc_convertir_md_vers_html() {
    assert!(texte(convertir("md.md", MD.as_bytes(), "doc_md2html.html")).contains('<'));
}

#[test]
fn test_doc_convertir_md_vers_docx() {
    let docx = archive(convertir("md.md", MD.as_bytes(), "doc_md2docx.docx"));
    assert!(!docx.is_empty());
    assert!(contient_entree(&docx, "word/document.xml"));
}

#[test]
fn test_doc_convertir_docx_vers_pdf() {
    let docx = archive(convertir("md.md", MD.as_bytes(), "docx.docx"));
    assert!(pages_pdf(convertir("docx.docx", &docx, "doc_docx2pdf.pdf")) > 0);
}

#[test]
fn test_doc_convertir_docx_vers_html() {
    let docx = archive(convertir("md.md", MD.as_bytes(), "docx.docx"));
    assert!(texte(convertir("docx.docx", &docx, "doc_docx2html.html")).contains('<'));
}

#[test]
fn test_doc_convertir_html_vers_pdf() {
    assert!(pages_pdf(convertir("html.html", HTML.as_bytes(), "doc_html2pdf.pdf")) > 0);
}

#[test]
fn test_doc_convertir_html_vers_md() {
    assert!(!texte(convertir("html.html", HTML.as_bytes(), "doc_html2md.md")).is_empty());
}

#[test]
fn test_doc_convertir_txt_vers_pdf() {
    assert!(pages_pdf(convertir("txt.txt", TXT.as_bytes(), "doc_txt2pdf.pdf")) > 0);
}

#[test]
fn test_doc_convertir_txt_vers_html() {
    assert!(texte(convertir("txt.txt", TXT.as_bytes(), "doc_txt2html.html")).contains('<'));
}

#[test]
fn test_doc_convertir_odt_vers_pdf() {
    let odt = archive(convertir("md.md", MD.as_bytes(), "odt.odt"));
    assert!(pages_pdf(convertir("odt.odt", &odt, "doc_odt2pdf.pdf")) > 0);
}

#[test]
fn test_doc_convertir_odt_vers_html() {
    let odt = archive(convertir("md.md", MD.as_bytes(), "odt.odt"));
    assert!(texte(convertir("odt.odt", &odt, "doc_odt2html.html")).contains('<'));
}

#[test]
fn test_doc_pdf_merge() {
    let source = pdf_de(3);
    let pages_source = nombre_pages(&source);
    let fichiers = vec![("pdf.pdf".to_string(), source.clone()), ("pdf.pdf".to_string(), source)];
    let fusion = fusionner_pdf(&fichiers).unwrap();
    assert!(!fusion.is_empty());
    assert_eq!(nombre_pages(&fusion), pages_source * 2);
}

#[test]
fn fusion_sans_fichier_ni_pdf() {
    assert_eq!(fusionner_pdf(&vec![]).unwrap_err(), "Aucun fichier à fusionner");
    let e = fusionner_pdf(&vec![("a.pdf".to_string(), b"pas un pdf".to_vec())]).unwrap_err();
    assert!(e.starts_with("Erreur chargement a.pdf : "), "{e}");
}

#[test]
fn fusion_de_trois_documents_differents() {
    let fichiers = vec![
        ("a.pdf".to_string(), pdf_de(1)),
        ("b.pdf".to_string(), pdf_de(2)),
        ("c.pdf".to_string(), pdf_de(4)),
    ];
    assert_eq!(nombre_pages(&fusionner_pdf(&fichiers).unwrap()), 7);
}

fn rotations(octets: &[u8]) -> Vec<Option<i64>> {
    let doc = Document::load_mem(octets).unwrap();
    doc.get_pages().into_values().map(|p| match doc.get_dictionary(p).unwrap().get(b"Rotate") {
        Ok(Object::Integer(i)) => Some(*i),
        _ => None,
    }).collect()
}

#[test]
fn test_doc_pdf_rotate() {
    let source = pdf_de(3);
    let pages_source = nombre_pages(&source);
    let sortie = tourner_pdf(&source, 90, None).unwrap();
    assert_eq!(nombre_pages(&sortie), pages_source);
    assert_eq!(rotations(&sortie), vec![Some(90), Some(90), Some(90)]);
}

#[test]
fn test_doc_pdf_rotate_180() {
    let source = pdf_de(3);
    let pages_source = nombre_pages(&source);
    let sortie = tourner_pdf(&source, 180, None).unwrap();
    assert_eq!(nombre_pages(&sortie), pages_source);
    assert_eq!(rotations(&sortie), vec![Some(180), Some(180), Some(180)]);
}

#[test]
fn test_doc_pdf_rotate_pages_specifiques() {
    let source = pdf_de(3);
    let pages_source = nombre_pages(&source);
    let sortie = tourner_pdf(&source, 90, Some(&[1u32])).unwrap();
    assert_eq!(nombre_pages(&sortie), pages_source);
    assert_eq!(rotations(&sortie), vec![Some(90), None, None]);
}

#[test]
fn rotation_invalide_ou_fichier_illisible() {
    assert_eq!(tourner_pdf(&pdf_de(1), 45, None).unwrap_err(), "Rotation invalide : 45. Utilisez 90, 180 ou 270.");
    assert!(tourner_pdf(b"rien", 90, None).unwrap_err().starts_with("Erreur chargement PDF : "));
    let deux_fois = tourner_pdf(&tourner_pdf(&pdf_de(1), 270, None).unwrap(), 180, None).unwrap();
    assert_eq!(rotations(&deux_fois), vec![Some(90)]);
}

#[test]
fn test_doc_pdf_organiser() {
    let sortie = organiser_pdf(&pdf_de(3), &[1]).unwrap();
    assert_eq!(nombre_pages(&sortie), 1);
}

#[test]
fn organisation_en_ordre_inverse_et_page_absente() {
    assert_eq!(nombre_pages(&organiser_pdf(&pdf_de(3), &[3, 2, 1]).unwrap()), 3);
    assert_eq!(organiser_pdf(&pdf_de(3), &[1, 4]).unwrap_err(), "Page invalide : 4. Le PDF a 3 pages.");
    assert_eq!(pdf_organiser(3, &[3, 1, 2]).unwrap(), vec![2, 0, 1]);
}

#[test]
fn test_doc_pdf_supprimer_pages() {
    let p = pdf_de(2);
    let fichiers = vec![("pdf.pdf".to_string(), p.clone()), ("pdf.pdf".to_string(), p.clone()), ("pdf.pdf".to_string(), p)];
    let fusion = fusionner_pdf(&fichiers).unwrap();
    let pages_avant = nombre_pages(&fusion);
    let sortie = supprimer_pages_pdf(&fusion, &[2]).unwrap();
    assert_eq!(nombre_pages(&sortie), pages_avant - 1);
}

#[test]
fn suppression_de_toutes_les_pages() {
    assert_eq!(supprimer_pages_pdf(&pdf_de(2), &[1, 2]).unwrap_err(), "Impossible de supprimer toutes les pages");
    assert!(supprimer_pages_pdf(b"rien", &[1]).unwrap_err().starts_with("Erreur : "));
    assert_eq!(pdf_supprimer_pages(5, &[2, 4]).unwrap(), vec![1, 3, 5]);
    assert_eq!(pdf_rotate(&vec![0, 90], 90, None).unwrap(), vec![90, 180]);
}

#[test]
fn test_video_copie_flux() {
    let r = traiter_video("mkv.mkv", "vid_copy.mp4", true, false, 1, "auto", "auto", &vec![], &vec![], 4);
    // a stream copy: `-c copy`, no encoder chosen
    let i = r.iter().position(|a| a == "-c").unwrap();
    assert_eq!(r[i + 1], "copy");
    assert!(!r.iter().any(|a| a == "-c:v"));
    assert_eq!(r.last().unwrap(), "vid_copy.mp4");
}

#[test]
fn liste_triee_ou_retiree() {
    assert_eq!(contenu_liste(&vec![]), None);
    let l = vec!["/b/z.txt".to_string(), "/a/é.txt".to_string(), "/a/b.txt".to_string(), "/B.txt".to_string()];
    assert_eq!(contenu_liste(&l).unwrap(), "/B.txt\n/a/b.txt\n/a/é.txt\n/b/z.txt\n");
}
