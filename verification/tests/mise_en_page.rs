use oxytools::mise_en_page::{decouper_texte, paginer, texte_vers_pages, CARACTERES_PAR_LIGNE, LIGNES_PAR_PAGE};

fn v(xs: &[&str]) -> Vec<String> {
    xs.iter().map(|s| s.to_string()).collect()
}

#[test]
fn lignes_courtes_et_vides() {
    assert_eq!(decouper_texte("a\n\nb\r\nc\n", 10), v(&["a", "", "b", "c"]));
    assert_eq!(decouper_texte("", 10), Vec::<String>::new());
    assert_eq!(decouper_texte("fin\r", 10), v(&["fin\r"]));
}

#[test]
fn coupure_au_dernier_espace() {
    assert_eq!(decouper_texte("un deux trois quatre", 10), v(&["un deux", "trois", "quatre"]));
    assert_eq!(decouper_texte("abcdefghijklmno", 5), v(&["abcde", "fghij", "klmno"]));
    assert_eq!(decouper_texte("ab    cd", 3), v(&["ab", "cd"]));
}

#[test]
fn coupure_en_caracteres() {
    assert_eq!(decouper_texte("ééé", 3), v(&["ééé"]));
    assert_eq!(decouper_texte("éééé", 3), v(&["ééé", "é"]));
    assert_eq!(decouper_texte("été déjà", 5), v(&["été", "déjà"]));
}

#[test]
fn pages() {
    let lignes = v(&["1", "2", "3", "4", "5"]);
    assert_eq!(paginer(&lignes, 2), vec![v(&["1", "2"]), v(&["3", "4"]), v(&["5"])]);
    assert_eq!(paginer(&Vec::new(), 2), Vec::<Vec<String>>::new());
    assert_eq!(CARACTERES_PAR_LIGNE, 90);
    assert_eq!(LIGNES_PAR_PAGE, 48);
    let texte = (0..100).map(|i| format!("ligne {i}")).collect::<Vec<_>>().join("\n");
    let p = texte_vers_pages(&texte);
    assert_eq!(p.len(), 3);
    assert_eq!(p[0].len(), 48);
    assert_eq!(p[2].len(), 4);
    assert_eq!(p[2][3], "ligne 99");
}
