use oxytools::pdf::{
    niveau_compression, pdf_compresser, pdf_organiser, pdf_proteger, pdf_rotate, pdf_split, pdf_supprimer_pages,
    position_depuis, Permissions, PositionNumero,
};

#[test]
fn noms_des_pages() {
    assert!(pdf_split("doc", 0).is_err());
    let noms = pdf_split("rapport", 3).unwrap();
    assert_eq!(noms, vec!["rapport_page_0001.pdf", "rapport_page_0002.pdf", "rapport_page_0003.pdf"]);
}

#[test]
fn rotation() {
    let actuelles = vec![0, 90, 270, -90];
    assert_eq!(pdf_rotate(&actuelles, 90, None).unwrap(), vec![90, 180, 0, 0]);
    assert_eq!(pdf_rotate(&actuelles, 180, Some(&[2, 4])).unwrap(), vec![0, 270, 270, 90]);
    assert_eq!(pdf_rotate(&vec![-200], 90, None).unwrap(), vec![-110]);
    let e = pdf_rotate(&actuelles, 45, None).unwrap_err();
    assert_eq!(e, "Rotation invalide : 45. Utilisez 90, 180 ou 270.");
}

#[test]
fn reorganisation() {
    assert_eq!(pdf_organiser(3, &[3, 1, 2]).unwrap(), vec![2, 0, 1]);
    assert_eq!(pdf_organiser(3, &[1, 4]).unwrap_err(), "Page invalide : 4. Le PDF a 3 pages.");
    assert!(pdf_organiser(3, &[0]).is_err());
    assert_eq!(pdf_organiser(3, &[]).unwrap(), Vec::<usize>::new());
}

#[test]
fn suppression_de_pages() {
    assert_eq!(pdf_supprimer_pages(5, &[2, 4, 9]).unwrap(), vec![1, 3, 5]);
    assert_eq!(pdf_supprimer_pages(2, &[1, 2]).unwrap_err(), "Impossible de supprimer toutes les pages");
    assert!(pdf_supprimer_pages(0, &[]).is_err());
}

#[test]
fn compression_et_protection() {
    assert_eq!(niveau_compression(4), 4);
    assert_eq!(niveau_compression(12), 9);
    assert_eq!(pdf_compresser(1000, 600), 400);
    assert_eq!(pdf_compresser(600, 1000), 0);
    assert_eq!(pdf_proteger(true, false), Permissions {
        impression: true, impression_haute_qualite: true, copie: false, copie_accessibilite: false,
    });
}

#[test]
fn positions_nommees() {
    assert_eq!(position_depuis("HautGauche", PositionNumero::BasCentre), PositionNumero::HautGauche);
    assert_eq!(position_depuis("n'importe", PositionNumero::BasCentre), PositionNumero::BasCentre);
    assert_eq!(position_depuis("", PositionNumero::BasDroite), PositionNumero::BasDroite);
}
