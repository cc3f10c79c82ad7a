use vstd::prelude::*;
use vstd::string::StringExecFns;
use crate::reglages::{
    vue_valeur, cherche, chercher, doc_map, inserer, pousser_modif, table_map, texte_cfg, texte_de, vue_items, vue_option,
    vues_modifs, applique, applique_une, lemma_trois, section_libre, EntreeToml, Modification, SectionToml, ValeurToml, VueModif, VueValeur,
};
use crate::tri::{lignes_texte, texte_lignes, trier_chemins, trier_textes};
use crate::tag::{avec, index_cle, lemma_index_cle, lemma_valeur_avec, mettre, valeur, vue_tags, Paires};

verus! {

broadcast use vstd::string::group_string_axioms;

/// Settings of the listing tools: where the lists go, the named sources
/// whose files are listed (by name, each name once, in the order of the
/// `[tools_files]` table), the sources whose folders are listed.
pub struct ToolsConfig {
    pub list_dir: String,
    pub file_sources: Vec<(String, String)>,
    pub folder_sources: Vec<String>,
}

/// The entries of the last section named `s` (the one the file keeps), if
/// the name holds a section.
pub open spec fn entrees_section(d: Seq<SectionToml>, s: Seq<char>) -> Option<Seq<EntreeToml>>
    decreases d.len(),
{
    if d.len() == 0 {
        None
    } else if d.last().nom@ == s {
        match d.last().table {
            Some(t) => Some(t@),
            None => None,
        }
    } else {
        entrees_section(d.drop_last(), s)
    }
}

/// The text entries of a table, a later line of a name replacing an
/// earlier one in place.
pub open spec fn textes_table(t: Seq<EntreeToml>) -> Paires
    decreases t.len(),
{
    if t.len() == 0 {
        Seq::empty()
    } else {
        let r = textes_table(t.drop_last());
        match t.last().valeur {
            ValeurToml::Texte(v) => avec(r, t.last().cle@, v@),
            _ => r,
        }
    }
}

/// The strings among the items of an array.
pub open spec fn textes_items(l: Seq<Option<Seq<char>>>) -> Seq<Seq<char>>
    decreases l.len(),
{
    if l.len() == 0 {
        Seq::empty()
    } else {
        let r = textes_items(l.drop_last());
        match l.last() {
            Some(s) => r.push(s),
            None => r,
        }
    }
}

/// The listing settings that the configuration file holds (`load`).
pub open spec fn charge_outils(d: Seq<SectionToml>) -> (Seq<char>, Paires, Seq<Seq<char>>) {
    let dm = doc_map(d);
    (
        match texte_cfg(dm, "tools"@, "list_dir"@) { Some(t) => t, None => Seq::empty() },
        match entrees_section(d, "tools_files"@) { Some(t) => textes_table(t), None => Seq::empty() },
        match cherche(dm, "tools_folders"@, "sources"@) { Some(VueValeur::Liste(l)) => textes_items(l), _ => Seq::empty() },
    )
}

/// The table of named texts that a list of pairs writes.
pub open spec fn table_paires(l: Paires) -> Map<Seq<char>, VueValeur>
    decreases l.len(),
{
    if l.len() == 0 {
        Map::empty()
    } else {
        table_paires(l.drop_last()).insert(l.last().0, VueValeur::Texte(l.last().1))
    }
}

/// The changes that store the listing settings (`save`): the output folder
/// set in `[tools]`, `[tools_files]` and `[tools_folders]` replaced whole.
pub open spec fn modifs_outils(dir: Seq<char>, fichiers: Paires, dossiers: Seq<Seq<char>>) -> Seq<VueModif> {
    seq![
        VueModif::Inserer("tools"@, "list_dir"@, VueValeur::Texte(dir)),
        VueModif::Remplacer("tools_files"@, table_paires(fichiers)),
        VueModif::Remplacer("tools_folders"@, Map::empty().insert("sources"@,
            VueValeur::Liste(dossiers.map_values(|s: Seq<char>| Some(s))))),
    ]
}

fn meme(a: &String, b: &str) -> (r: bool)
    ensures
        r == (a@ == b@),
{
    let bb = String::from_str(b);
    *a == bb
}

fn entrees_de<'a>(doc: &'a Vec<SectionToml>, s: &str) -> (r: Option<&'a Vec<EntreeToml>>)
    ensures
        match r {
            Some(t) => entrees_section(doc@, s@) == Some(t@),
            None => entrees_section(doc@, s@) is None,
        },
{
    let mut i = doc.len();
    assert(doc@.take(i as int) =~= doc@);
    while i > 0
        invariant
            i <= doc.len(),
            entrees_section(doc@, s@) == entrees_section(doc@.take(i as int), s@),
        decreases i,
    {
        assert(doc@.take(i as int).drop_last() =~= doc@.take(i - 1));
        assert(doc@.take(i as int).last() == doc@[i - 1]);
        if meme(&doc[i - 1].nom, s) {
            return match &doc[i - 1].table {
                Some(t) => Some(t),
                None => None,
            };
        }
        i -= 1;
    }
    None
}

impl ToolsConfig {
    /// Settings with nothing in them.
    pub fn new() -> (r: Self)
        ensures
            r.list_dir@.len() == 0,
            r.file_sources.len() == 0,
            r.folder_sources.len() == 0,
    {
        ToolsConfig { list_dir: String::new(), file_sources: Vec::new(), folder_sources: Vec::new() }
    }

    /// Whether nothing is set: no output folder, no source of either kind.
    pub fn is_empty(&self) -> (r: bool)
        ensures
            r == (self.list_dir@.len() == 0 && self.file_sources.len() == 0 && self.folder_sources.len() == 0),
    {
        self.list_dir.as_str().is_empty() && self.file_sources.len() == 0 && self.folder_sources.len() == 0
    }

    /// The settings that the configuration file holds: `tools.list_dir`, the
    /// text entries of `[tools_files]`, the strings of
    /// `tools_folders.sources`; what is missing stays empty.
    pub fn load(doc: &Vec<SectionToml>) -> (r: Self)
        ensures
            (r.list_dir@, vue_tags(r.file_sources@), crate::texte::vues_chaines(r.folder_sources@))
                == charge_outils(doc@),
    {
        let list_dir = match texte_de(doc, "tools", "list_dir") {
            Some(t) => t,
            None => String::new(),
        };
        let mut file_sources: Vec<(String, String)> = Vec::new();
        match entrees_de(doc, "tools_files") {
            Some(t) => {
                let mut i: usize = 0;
                assert(t@.take(0) =~= Seq::<EntreeToml>::empty());
                while i < t.len()
                    invariant
                        i <= t.len(),
                        vue_tags(file_sources@) == textes_table(t@.take(i as int)),
                    decreases t.len() - i,
                {
                    assert(t@.take(i + 1).drop_last() =~= t@.take(i as int));
                    assert(t@.take(i + 1).last() == t@[i as int]);
                    match &t[i].valeur {
                        ValeurToml::Texte(v) => mettre(&mut file_sources, t[i].cle.clone(), v.clone()),
                        _ => {},
                    }
                    i += 1;
                }
                assert(t@.take(t.len() as int) =~= t@);
            },
            None => {},
        }
        let mut folder_sources: Vec<String> = Vec::new();
        match chercher(doc, "tools_folders", "sources") {
            Some(ValeurToml::Liste(l)) => {
                let ghost vl = vue_items(l@);
                let mut i: usize = 0;
                assert(vl.take(0) =~= Seq::<Option<Seq<char>>>::empty());
                while i < l.len()
                    invariant
                        i <= l.len(),
                        vl == vue_items(l@),
                        crate::texte::vues_chaines(folder_sources@) == textes_items(vl.take(i as int)),
                    decreases l.len() - i,
                {
                    assert(vl.take(i + 1).drop_last() =~= vl.take(i as int));
                    assert(vl.take(i + 1).last() == vl[i as int]);
                    match &l[i] {
                        Some(s) => {
                            let ghost a = crate::texte::vues_chaines(folder_sources@);
                            folder_sources.push(s.clone());
                            assert(crate::texte::vues_chaines(folder_sources@) =~= a.push(s@));
                        },
                        None => {},
                    }
                    i += 1;
                }
                assert(vl.take(l.len() as int) =~= vl);
            },
            _ => {},
        }
        ToolsConfig { list_dir, file_sources, folder_sources }
    }

    /// The changes that store the settings in the configuration file:
    /// `tools.list_dir` set, `[tools_files]` and `[tools_folders]` (with its
    /// `sources` array) written anew.
    pub fn save(&self) -> (ms: Vec<Modification>)
        ensures
            vues_modifs(ms@) == modifs_outils(self.list_dir@, vue_tags(self.file_sources@),
                crate::texte::vues_chaines(self.folder_sources@)),
    {
        let mut ms: Vec<Modification> = Vec::new();
        inserer(&mut ms, "tools", "list_dir", ValeurToml::Texte(self.list_dir.clone()));
        let mut tf: Vec<EntreeToml> = Vec::new();
        let ghost l = vue_tags(self.file_sources@);
        let mut i: usize = 0;
        while i < self.file_sources.len()
            invariant
                i <= self.file_sources.len(),
                l == vue_tags(self.file_sources@),
                tf.len() == i,
                forall|j: int| 0 <= j < i ==> (#[trigger] tf@[j]).cle@ == l[j].0
                    && vue_valeur_texte(tf@[j].valeur, l[j].1),
            decreases self.file_sources.len() - i,
        {
            let (k, v) = &self.file_sources[i];
            tf.push(EntreeToml { cle: k.clone(), valeur: ValeurToml::Texte(v.clone()) });
            i += 1;
        }
        proof { lemma_table_des_paires(tf@, l); }
        pousser_modif(&mut ms, Modification::Remplacer(String::from_str("tools_files"), tf));
        let mut items: Vec<Option<String>> = Vec::new();
        let ghost ds = crate::texte::vues_chaines(self.folder_sources@);
        let mut j: usize = 0;
        while j < self.folder_sources.len()
            invariant
                j <= self.folder_sources.len(),
                ds == crate::texte::vues_chaines(self.folder_sources@),
                vue_items(items@) == ds.take(j as int).map_values(|s: Seq<char>| Some(s)),
            decreases self.folder_sources.len() - j,
        {
            let ghost a = vue_items(items@);
            items.push(Some(self.folder_sources[j].clone()));
            assert(vue_items(items@) =~= a.push(Some(ds[j as int])));
            assert(ds.take(j + 1).map_values(|s: Seq<char>| Some(s))
                =~= ds.take(j as int).map_values(|s: Seq<char>| Some(s)).push(Some(ds[j as int])));
            j += 1;
        }
        assert(ds.take(self.folder_sources.len() as int) =~= ds);
        assert(vue_items(items@) =~= ds.map_values(|s: Seq<char>| Some(s)));
        let ghost vi = vue_items(items@);
        let cle = String::from_str("sources");
        assert(cle@ == "sources"@);
        let entree = EntreeToml { cle, valeur: ValeurToml::Liste(items) };
        assert(vue_valeur(entree.valeur) == VueValeur::Liste(vi));
        let ghost ve = entree;
        let td = vec![entree];
        assert(td@.drop_last() =~= Seq::<EntreeToml>::empty());
        assert(td@.last() == ve);
        assert(table_map(td@) == table_map(td@.drop_last()).insert(ve.cle@, vue_valeur(ve.valeur)));
        assert(table_map(td@) =~= Map::empty().insert("sources"@,
            VueValeur::Liste(ds.map_values(|s: Seq<char>| Some(s)))));
        pousser_modif(&mut ms, Modification::Remplacer(String::from_str("tools_folders"), td));
        assert(vues_modifs(ms@) =~= modifs_outils(self.list_dir@, l, ds));
        ms
    }
}

pub open spec fn vue_valeur_texte(v: ValeurToml, t: Seq<char>) -> bool {
    v matches ValeurToml::Texte(s) && s@ == t
}

proof fn lemma_table_des_paires(t: Seq<EntreeToml>, l: Paires)
    requires
        t.len() == l.len(),
        forall|j: int| 0 <= j < t.len() ==> (#[trigger] t[j]).cle@ == l[j].0 && vue_valeur_texte(t[j].valeur, l[j].1),
    ensures
        table_map(t) == table_paires(l),
    decreases t.len(),
{
    if t.len() > 0 {
        let u = t.drop_last();
        let m = l.drop_last();
        assert forall|j: int| 0 <= j < u.len() implies (#[trigger] u[j]).cle@ == m[j].0
            && vue_valeur_texte(u[j].valeur, m[j].1) by {
            assert(u[j] == t[j] && m[j] == l[j]);
        }
        lemma_table_des_paires(u, m);
        assert(t.last() == t[t.len() - 1]);
    }
}

// ───────────────────────── saving then reading ─────────────────────────

/// No name occurs twice among the pairs.
pub open spec fn cles_uniques(l: Paires) -> bool {
    forall|i: int, j: int| 0 <= i < j < l.len() ==> #[trigger] l[i].0 != #[trigger] l[j].0
}

proof fn lemma_entrees_doc(d: Seq<SectionToml>, s: Seq<char>)
    ensures
        entrees_section(d, s) matches Some(t) ==> doc_map(d).contains_key(s) && doc_map(d)[s] == Some(table_map(t)),
        doc_map(d).contains_key(s) && doc_map(d)[s] is Some ==> entrees_section(d, s) is Some,
    decreases d.len(),
{
    if d.len() > 0 && d.last().nom@ != s {
        lemma_entrees_doc(d.drop_last(), s);
    }
}

proof fn lemma_textes_table(t: Seq<EntreeToml>, k: Seq<char>)
    ensures
        table_map(t).contains_key(k) && table_map(t)[k] is Texte
            ==> valeur(textes_table(t), k) == Some(table_map(t)[k]->Texte_0),
        !table_map(t).contains_key(k) ==> valeur(textes_table(t), k) is None,
    decreases t.len(),
{
    if t.len() == 0 {
        assert(index_cle(textes_table(t), k) == -1);
    } else {
        let u = t.drop_last();
        lemma_textes_table(u, k);
        match t.last().valeur {
            ValeurToml::Texte(v) => lemma_valeur_avec(textes_table(u), t.last().cle@, v@, k),
            _ => {},
        }
    }
}

proof fn lemma_table_paires(l: Paires, k: Seq<char>)
    requires
        cles_uniques(l),
    ensures
        table_paires(l).contains_key(k) <==> valeur(l, k) is Some,
        table_paires(l).contains_key(k) ==> table_paires(l)[k] == VueValeur::Texte(valeur(l, k)->0),
    decreases l.len(),
{
    if l.len() == 0 {
        assert(index_cle(l, k) == -1);
    } else {
        let u = l.drop_last();
        let p = l.last();
        assert forall|i: int, j: int| 0 <= i < j < u.len() implies #[trigger] u[i].0 != #[trigger] u[j].0 by {
            assert(u[i] == l[i] && u[j] == l[j]);
        }
        lemma_table_paires(u, k);
        assert forall|j: int| 0 <= j < u.len() implies u[j].0 != p.0 by {
            assert(u[j] == l[j] && p == l[l.len() - 1]);
        }
        lemma_index_cle(u, p.0, u.len() as int);
        assert(avec(u, p.0, p.1) =~= l);
        lemma_valeur_avec(u, p.0, p.1, k);
    }
}

proof fn lemma_textes_items(ds: Seq<Seq<char>>)
    ensures
        textes_items(ds.map_values(|s: Seq<char>| Some(s))) == ds,
    decreases ds.len(),
{
    if ds.len() > 0 {
        lemma_textes_items(ds.drop_last());
        assert(ds.map_values(|s: Seq<char>| Some(s)).drop_last()
            =~= ds.drop_last().map_values(|s: Seq<char>| Some(s)));
        assert(ds.drop_last().push(ds.last()) =~= ds);
    }
}

/// Saving the listing settings and reading the file back gives them again:
/// the output folder, the value of each named source of files, and the
/// sources of folders in their order. This holds where `tools` names a
/// section or nothing before the save, and no name of a source of files
/// occurs twice.
pub proof fn loi_outils_relus(
    avant: Map<Seq<char>, Option<Map<Seq<char>, VueValeur>>>,
    apres: Seq<SectionToml>,
    dir: Seq<char>,
    fichiers: Paires,
    dossiers: Seq<Seq<char>>,
)
    requires
        cles_uniques(fichiers),
        section_libre(avant, "tools"@),
        doc_map(apres) == applique(avant, modifs_outils(dir, fichiers, dossiers)),
    ensures
        charge_outils(apres).0 == dir,
        forall|k: Seq<char>| valeur(#[trigger] charge_outils(apres).1, k) == valeur(fichiers, k),
        charge_outils(apres).2 == dossiers,
{
    reveal_strlit("tools");
    reveal_strlit("tools_files");
    reveal_strlit("tools_folders");
    assert("tools"@.len() == 5 && "tools_files"@.len() == 11 && "tools_folders"@.len() == 13);
    assert("tools"@ != "tools_files"@ && "tools"@ != "tools_folders"@ && "tools_files"@ != "tools_folders"@);
    let m = modifs_outils(dir, fichiers, dossiers);
    lemma_trois(avant, m[0], m[1], m[2]);
    assert(m =~= seq![m[0], m[1], m[2]]);
    let dm = doc_map(apres);
    let d1 = applique_une(avant, m[0]);
    let d2 = applique_une(d1, m[1]);
    assert({
        &&& d1.contains_key("tools"@)
        &&& d1["tools"@] matches Some(t1)
        &&& t1.contains_key("list_dir"@)
        &&& t1["list_dir"@] == VueValeur::Texte(dir)
    });
    assert(d2["tools"@] == d1["tools"@]);
    assert(dm == applique_une(d2, m[2]));
    assert(dm["tools"@] == d1["tools"@]);
    assert(dm["tools_files"@] == d2["tools_files"@]);
    assert(cherche(dm, "tools"@, "list_dir"@) == Some(VueValeur::Texte(dir)));
    lemma_entrees_doc(apres, "tools_files"@);
    let t = entrees_section(apres, "tools_files"@)->0;
    assert(table_map(t) == table_paires(fichiers));
    assert forall|k: Seq<char>| valeur(#[trigger] charge_outils(apres).1, k) == valeur(fichiers, k) by {
        lemma_textes_table(t, k);
        lemma_table_paires(fichiers, k);
    }
    lemma_textes_items(dossiers);
}

// ───────────────────────── listing ─────────────────────────

/// What became of a source of files: missing, listed with no file (its
/// list is then removed), listed and written, or failed.
pub enum IssueFichiers {
    Inaccessible,
    Vide,
    Ecrite,
    EchecEcriture(String),
    EchecParcours(String),
}

/// What became of a source of folders: missing, or walked (its folders),
/// or failed.
pub enum IssueDossiers {
    Inaccessible,
    Parcouru(Vec<String>),
    EchecParcours(String),
}

/// The list of a source of files: `<list_dir>/<name>.txt`.
pub fn chemin_liste(list_dir: &str, nom: &str, sep: char) -> (r: String)
    ensures
        r@ == crate::chemin::jointure(list_dir@, nom@ + ".txt"@, sep),
{
    let mut n = String::from_str(nom);
    n.append(".txt");
    crate::chemin::joindre_chemin(list_dir, n.as_str(), sep)
}

/// The message of a source that failed, or `None` for one that succeeded.
pub open spec fn erreur_fichiers(nom: Seq<char>, dossier: Seq<char>, i: IssueFichiers) -> Option<Seq<char>> {
    match i {
        IssueFichiers::Inaccessible => Some(dossier + " → inaccessible"@),
        IssueFichiers::EchecEcriture(e) => Some(nom + " → écriture: "@ + e@),
        IssueFichiers::EchecParcours(e) => Some(nom + " → parcours: "@ + e@),
        _ => None,
    }
}

/// The sources that succeeded, and the messages of those that failed, in
/// order.
pub open spec fn bilan_fichiers(sources: Paires, issues: Seq<IssueFichiers>) -> (nat, Seq<Seq<char>>)
    decreases sources.len(),
{
    if sources.len() == 0 || issues.len() == 0 {
        (0, Seq::empty())
    } else {
        let n = (sources.len() - 1) as int;
        let (ok, errs) = bilan_fichiers(sources.drop_last(), issues.take(n));
        match erreur_fichiers(sources[n].0, sources[n].1, issues[n]) {
            Some(m) => (ok, errs.push(m)),
            None => ((ok + 1) as nat, errs),
        }
    }
}

fn message2(a: &str, b: &str) -> (r: String)
    ensures
        r@ == a@ + b@,
{
    let mut m = String::from_str(a);
    m.append(b);
    m
}

fn message(a: &str, b: &str, c: &str) -> (r: String)
    ensures
        r@ == a@ + b@ + c@,
{
    let mut m = String::from_str(a);
    m.append(b);
    m.append(c);
    m
}

/// What is written of the files found under a source (`lister_fichiers`):
/// their paths sorted, one per line; `None` when there is none, the list
/// file being then removed.
pub fn contenu_liste(fichiers: &Vec<String>) -> (r: Option<String>)
    ensures
        fichiers.len() == 0 <==> r is None,
        r matches Some(t) ==> t@ == lignes_texte(trier_textes(crate::texte::vues_chaines(fichiers@))),
{
    if fichiers.len() == 0 {
        return None;
    }
    let t = trier_chemins(fichiers);
    Some(texte_lignes(&t))
}

/// The outcome of listing the files of each source (`lister_fichiers`),
/// given what became of each (in the order of the sources), or of the
/// output folder that could not be made: the sources that succeeded and
/// the messages of the failures.
pub fn lister_fichiers(list_dir: &str, creation: Result<(), String>, sources: &Vec<(String, String)>,
    issues: &Vec<IssueFichiers>) -> (r: (usize, Vec<String>))
    requires
        creation is Ok ==> issues.len() == sources.len(),
    ensures
        match creation {
            Err(e) => r.0 == 0 && crate::texte::vues_chaines(r.1@)
                == seq!["Impossible de créer "@ + list_dir@ + ": "@ + e@],
            Ok(_) => r.0 == bilan_fichiers(vue_tags(sources@), issues@).0
                && crate::texte::vues_chaines(r.1@) == bilan_fichiers(vue_tags(sources@), issues@).1,
        },
{
    if let Err(e) = creation {
        let m = message("Impossible de créer ", list_dir, ": ");
        let mut m2 = m;
        m2.append(e.as_str());
        let r = vec![m2];
        assert(crate::texte::vues_chaines(r@) =~= seq!["Impossible de créer "@ + list_dir@ + ": "@ + e@]);
        return (0, r);
    }
    let ghost l = vue_tags(sources@);
    let mut ok: usize = 0;
    let mut erreurs: Vec<String> = Vec::new();
    let mut i: usize = 0;
    assert(l.take(0) =~= Seq::<(Seq<char>, Seq<char>)>::empty());
    while i < sources.len()
        invariant
            i <= sources.len(),
            issues.len() == sources.len(),
            l == vue_tags(sources@),
            ok <= i,
            (ok as nat, crate::texte::vues_chaines(erreurs@)) == bilan_fichiers(l.take(i as int), issues@.take(i as int)),
        decreases sources.len() - i,
    {
        let ghost t = l.take(i + 1);
        assert(t.drop_last() =~= l.take(i as int));
        assert(issues@.take(i + 1).take(i as int) =~= issues@.take(i as int));
        assert(t[i as int] == l[i as int]);
        assert(l[i as int] == (sources@[i as int].0@, sources@[i as int].1@));
        let ghost avant = crate::texte::vues_chaines(erreurs@);
        match &issues[i] {
            IssueFichiers::Inaccessible => {
                erreurs.push(message2(sources[i].1.as_str(), " → inaccessible"));
                assert(crate::texte::vues_chaines(erreurs@) =~= avant.push(l[i as int].1 + " → inaccessible"@));
            },
            IssueFichiers::EchecEcriture(e) => {
                erreurs.push(message(sources[i].0.as_str(), " → écriture: ", e.as_str()));
                assert(crate::texte::vues_chaines(erreurs@) =~= avant.push(l[i as int].0 + " → écriture: "@ + e@));
            },
            IssueFichiers::EchecParcours(e) => {
                erreurs.push(message(sources[i].0.as_str(), " → parcours: ", e.as_str()));
                assert(crate::texte::vues_chaines(erreurs@) =~= avant.push(l[i as int].0 + " → parcours: "@ + e@));
            },
            _ => {
                ok += 1;
            },
        }
        i += 1;
    }
    assert(l.take(sources.len() as int) =~= l);
    assert(issues@.take(sources.len() as int) =~= issues@);
    (ok, erreurs)
}

/// The lines of `multimedia.txt`: for each source in order, a comment for a
/// missing one, or the folders found under it, sorted.
pub open spec fn lignes_multimedia(sources: Seq<Seq<char>>, issues: Seq<IssueDossiers>) -> Seq<Seq<char>>
    decreases sources.len(),
{
    if sources.len() == 0 || issues.len() == 0 {
        Seq::empty()
    } else {
        let n = (sources.len() - 1) as int;
        let r = lignes_multimedia(sources.drop_last(), issues.take(n));
        match issues[n] {
            IssueDossiers::Inaccessible => r.push("# Inaccessible : "@ + sources[n]),
            IssueDossiers::Parcouru(d) => r + trier_textes(crate::texte::vues_chaines(d@)),
            IssueDossiers::EchecParcours(_) => r,
        }
    }
}

/// The sources walked, and the messages of the missing and failed ones.
pub open spec fn bilan_dossiers(sources: Seq<Seq<char>>, issues: Seq<IssueDossiers>) -> (nat, Seq<Seq<char>>)
    decreases sources.len(),
{
    if sources.len() == 0 || issues.len() == 0 {
        (0, Seq::empty())
    } else {
        let n = (sources.len() - 1) as int;
        let (ok, errs) = bilan_dossiers(sources.drop_last(), issues.take(n));
        match issues[n] {
            IssueDossiers::Inaccessible => (ok, errs.push(sources[n] + " → inaccessible"@)),
            IssueDossiers::Parcouru(_) => ((ok + 1) as nat, errs),
            IssueDossiers::EchecParcours(e) => (ok, errs.push(sources[n] + " → parcours: "@ + e@)),
        }
    }
}

/// Listing the folders of the sources (`lister_dossiers`), given what became
/// of each: the lines of `multimedia.txt` (removed when there are none),
/// the sources walked and the messages of the failures.
pub fn lister_dossiers(sources: &Vec<String>, issues: &Vec<IssueDossiers>) -> (r: (Vec<String>, usize, Vec<String>))
    requires
        issues.len() == sources.len(),
    ensures
        crate::texte::vues_chaines(r.0@) == lignes_multimedia(crate::texte::vues_chaines(sources@), issues@),
        (r.1 as nat, crate::texte::vues_chaines(r.2@)) == bilan_dossiers(crate::texte::vues_chaines(sources@), issues@),
{
    let ghost l = crate::texte::vues_chaines(sources@);
    let mut lignes: Vec<String> = Vec::new();
    let mut ok: usize = 0;
    let mut erreurs: Vec<String> = Vec::new();
    let mut i: usize = 0;
    assert(l.take(0) =~= Seq::<Seq<char>>::empty());
    while i < sources.len()
        invariant
            i <= sources.len(),
            issues.len() == sources.len(),
            l == crate::texte::vues_chaines(sources@),
            ok <= i,
            crate::texte::vues_chaines(lignes@) == lignes_multimedia(l.take(i as int), issues@.take(i as int)),
            (ok as nat, crate::texte::vues_chaines(erreurs@)) == bilan_dossiers(l.take(i as int), issues@.take(i as int)),
        decreases sources.len() - i,
    {
        let ghost t = l.take(i + 1);
        assert(t.drop_last() =~= l.take(i as int));
        assert(issues@.take(i + 1).take(i as int) =~= issues@.take(i as int));
        assert(t[i as int] == l[i as int]);
        assert(l[i as int] == sources@[i as int]@);
        let ghost avant = crate::texte::vues_chaines(erreurs@);
        let ghost avant_l = crate::texte::vues_chaines(lignes@);
        match &issues[i] {
            IssueDossiers::Inaccessible => {
                lignes.push(message2("# Inaccessible : ", sources[i].as_str()));
                assert(crate::texte::vues_chaines(lignes@) =~= avant_l.push("# Inaccessible : "@ + l[i as int]));
                erreurs.push(message2(sources[i].as_str(), " → inaccessible"));
                assert(crate::texte::vues_chaines(erreurs@) =~= avant.push(l[i as int] + " → inaccessible"@));
            },
            IssueDossiers::Parcouru(d0) => {
                let d = trier_chemins(d0);
                let mut k: usize = 0;
                while k < d.len()
                    invariant
                        k <= d.len(),
                        crate::texte::vues_chaines(lignes@) == avant_l + crate::texte::vues_chaines(d@).take(k as int),
                    decreases d.len() - k,
                {
                    let ghost a = crate::texte::vues_chaines(lignes@);
                    lignes.push(d[k].clone());
                    assert(crate::texte::vues_chaines(lignes@) =~= a.push(d@[k as int]@));
                    assert(crate::texte::vues_chaines(d@).take(k + 1)
                        =~= crate::texte::vues_chaines(d@).take(k as int).push(d@[k as int]@));
                    k += 1;
                }
                assert(crate::texte::vues_chaines(d@).take(d.len() as int) =~= crate::texte::vues_chaines(d@));
                ok += 1;
            },
            IssueDossiers::EchecParcours(e) => {
                erreurs.push(message(sources[i].as_str(), " → parcours: ", e.as_str()));
                assert(crate::texte::vues_chaines(erreurs@) =~= avant.push(l[i as int] + " → parcours: "@ + e@));
            },
        }
        i += 1;
    }
    assert(l.take(sources.len() as int) =~= l);
    assert(issues@.take(sources.len() as int) =~= issues@);
    (lignes, ok, erreurs)
}

} // verus!
