use oxytools::reglages::ModuleType;
use oxytools::taches::{chemin_sortie, liste_pages, tailles_ico};

#[test]
fn sortie_a_cote_de_l_entree() {
    assert_eq!(chemin_sortie("photos/vacances.JPG", Some("photos"), ModuleType::Image, "Convert", "WEBP", '/'),
        Some("photos/vacances_oxytools.webp".to_string()));
    assert_eq!(chemin_sortie("d/rapport.docx", Some("d/"), ModuleType::Doc, "pdf_rotate", "docx", '/'),
        Some("d/rapport_oxytools.pdf".to_string()));
    assert_eq!(chemin_sortie("rapport.md", Some(""), ModuleType::Doc, "Convert", "html", '/'),
        Some("rapport_oxytools.html".to_string()));
    assert_eq!(chemin_sortie("C:\\x\\a.md", Some("C:\\x"), ModuleType::Doc, "Convert", "pdf", '\\'),
        Some("C:\\x\\a_oxytools.pdf".to_string()));
    assert_eq!(chemin_sortie("/", None, ModuleType::Doc, "Convert", "pdf", '/'), None);
}

#[test]
fn listes_de_pages() {
    assert_eq!(liste_pages("3, 1,x, 2 ,,+4"), vec![3, 1, 2, 4]);
    assert_eq!(liste_pages(""), Vec::<u32>::new());
    assert_eq!(liste_pages("-1, 99999999999"), Vec::<u32>::new());
}

#[test]
fn tailles_d_icones() {
    assert_eq!(tailles_ico([true, false, true, false, false, true], false, "48"), vec![16, 64, 512]);
    assert_eq!(tailles_ico([false; 6], true, "48"), vec![48]);
    assert_eq!(tailles_ico([false; 6], true, "0"), vec![256]);
    assert_eq!(tailles_ico([false; 6], false, "48"), vec![256]);
    assert_eq!(tailles_ico([false, true, false, false, false, false], true, "abc"), vec![32]);
}
