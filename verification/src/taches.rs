use vstd::prelude::*;
use vstd::string::StringExecFns;
use crate::chemin::{jointure, joindre_chemin, nom_fichier, radical, radical_de};
use crate::reglages::ModuleType;
use crate::texte::{
    caracteres, chaine, decouper, en_minuscules, lecture_u32, lire_u32, rogne, rogner, vers_minuscules, vues,
    morceaux,
};

verus! {

broadcast use vstd::string::group_string_axioms;

// ───────────────────────── output of a job ─────────────────────────

/// The extension of what a job writes: `pdf` for the document operations
/// other than conversion, else the chosen format in lower case.
pub open spec fn format_effectif(module: ModuleType, doc_action: Seq<char>, fmt: Seq<char>) -> Seq<char> {
    if module == ModuleType::Doc && doc_action != "Convert"@ { "pdf"@ } else { en_minuscules(fmt) }
}

/// The file a job writes beside its input: `<stem>_oxytools.<ext>` in the
/// input's folder; none when the input has no folder.
pub open spec fn sortie_tache(parent: Option<Seq<char>>, input: Seq<char>, module: ModuleType,
    doc_action: Seq<char>, fmt: Seq<char>, sep: char) -> Option<Seq<char>>
{
    match parent {
        Some(p) => Some(jointure(p, radical(nom_fichier(input)) + "_oxytools."@ + format_effectif(module, doc_action, fmt), sep)),
        None => None,
    }
}

/// The file a job writes: see `sortie_tache` (`parent` is the input's
/// folder as `Path::parent` gives it, `sep` the platform's separator).
pub fn chemin_sortie(input: &str, parent: Option<&str>, module: ModuleType, doc_action: &str, fmt: &str, sep: char)
    -> (r: Option<String>)
    ensures
        match r {
            Some(s) => sortie_tache(match parent { Some(p) => Some(p@), None => None }, input@, module, doc_action@,
                fmt@, sep) == Some(s@),
            None => parent is None,
        },
{
    let p = match parent { Some(p) => p, None => return None };
    let convertir = String::from_str("Convert");
    let action = String::from_str(doc_action);
    let ext: String = if module == ModuleType::Doc && !(action == convertir) {
        String::from_str("pdf")
    } else {
        chaine(&vers_minuscules(&caracteres(fmt)))
    };
    let mut nom = chaine(&radical_de(input));
    nom.append("_oxytools.");
    nom.append(ext.as_str());
    Some(joindre_chemin(p, nom.as_str(), sep))
}

// ───────────────────────── lists typed by the user ─────────────────────────

/// The numbers of a comma-separated list, the pieces that do not read as a
/// `u32` (once trimmed) left out.
pub open spec fn nombres_liste(pieces: Seq<Seq<char>>) -> Seq<u32>
    decreases pieces.len(),
{
    if pieces.len() == 0 {
        Seq::empty()
    } else {
        nombres_liste(pieces.drop_last()) + match lecture_u32(rogne(pieces.last())) {
            Some(n) => seq![n],
            None => Seq::empty(),
        }
    }
}

/// The page numbers of a list such as `3, 1, 2` (for reordering or deleting
/// pages): see `nombres_liste`.
pub fn liste_pages(texte: &str) -> (r: Vec<u32>)
    ensures
        r@ == nombres_liste(morceaux(texte@, ',')),
{
    let v = caracteres(texte);
    let pieces = decouper(&v, ',');
    let ghost ps = vues(pieces@);
    let mut r: Vec<u32> = Vec::new();
    let mut i: usize = 0;
    assert(ps.take(0) =~= Seq::<Seq<char>>::empty());
    while i < pieces.len()
        invariant
            i <= pieces.len(),
            ps == vues(pieces@),
            r@ == nombres_liste(ps.take(i as int)),
        decreases pieces.len() - i,
    {
        assert(ps.take(i + 1).drop_last() =~= ps.take(i as int));
        assert(ps.take(i + 1).last() == pieces@[i as int]@);
        let ghost avant = r@;
        match lire_u32(&rogner(&pieces[i])) {
            Some(n) => {
                r.push(n);
                assert(r@ =~= avant + seq![n]);
            },
            None => {
                assert(r@ =~= avant + Seq::<u32>::empty());
            },
        }
        i += 1;
    }
    assert(ps.take(pieces.len() as int) =~= ps);
    r
}

pub open spec fn si_coche(c: bool, v: u32) -> Seq<u32> {
    if c { seq![v] } else { Seq::empty() }
}

/// The icon sizes to make: those ticked among 16, 32, 64, 128, 256 and 512,
/// then the custom width when ticked and a positive number; 256 alone when
/// nothing is left.
pub open spec fn tailles_ico_spec(cases: [bool; 6], perso: bool, largeur: Seq<char>) -> Seq<u32> {
    let toutes = si_coche(cases[0], 16) + si_coche(cases[1], 32) + si_coche(cases[2], 64)
        + si_coche(cases[3], 128) + si_coche(cases[4], 256) + si_coche(cases[5], 512)
        + match lecture_u32(largeur) {
            Some(w) => si_coche(perso && w > 0, w),
            None => Seq::empty(),
        };
    if toutes.len() == 0 { seq![256u32] } else { toutes }
}

fn ajouter_si(s: &mut Vec<u32>, c: bool, v: u32)
    ensures
        final(s)@ == old(s)@ + si_coche(c, v),
{
    let ghost a = s@;
    if c {
        s.push(v);
    }
    assert(s@ =~= a + si_coche(c, v));
}

/// The icon sizes to make: see `tailles_ico_spec`.
pub fn tailles_ico(cases: [bool; 6], perso: bool, largeur: &str) -> (r: Vec<u32>)
    ensures
        r@ == tailles_ico_spec(cases, perso, largeur@),
{
    let mut s: Vec<u32> = Vec::new();
    ajouter_si(&mut s, cases[0], 16);
    assert(s@ =~= si_coche(cases[0], 16));
    ajouter_si(&mut s, cases[1], 32);
    ajouter_si(&mut s, cases[2], 64);
    ajouter_si(&mut s, cases[3], 128);
    ajouter_si(&mut s, cases[4], 256);
    ajouter_si(&mut s, cases[5], 512);
    let ghost fixes = s@;
    match lire_u32(&caracteres(largeur)) {
        Some(w) => ajouter_si(&mut s, perso && w > 0, w),
        None => {
            assert(s@ =~= fixes + Seq::<u32>::empty());
        },
    }
    if s.len() == 0 {
        s.push(256);
        assert(s@ =~= seq![256u32]);
    }
    s
}

// ───────────────────────── starting a batch ─────────────────────────

/// The missing tools that the start reports (`verifier_deps`): none, the
/// tools being bundled or looked up on the `PATH` when they are run.
pub fn verifier_deps() -> (r: Vec<String>)
    ensures
        r.len() == 0,
{
    Vec::new()
}

/// How many workers a batch starts (`lancer_batch`): as many as jobs may
/// run at once, but no more than there are files.
pub fn lancer_batch(max_parallel_jobs: usize, nombre_fichiers: usize) -> (r: usize)
    ensures
        r == if max_parallel_jobs < nombre_fichiers { max_parallel_jobs } else { nombre_fichiers },
{
    if max_parallel_jobs < nombre_fichiers { max_parallel_jobs } else { nombre_fichiers }
}

} // verus!
