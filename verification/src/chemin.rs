use vstd::prelude::*;
use vstd::string::StringExecFns;
use crate::texte::{caracteres, extrait};

verus! {

broadcast use vstd::string::group_string_axioms;

pub open spec fn est_separateur(c: char) -> bool {
    c == '/' || c == '\\'
}

/// The path without its trailing separators.
pub open spec fn sans_separateurs_fin(p: Seq<char>) -> Seq<char>
    decreases p.len(),
{
    if p.len() > 0 && est_separateur(p.last()) { sans_separateurs_fin(p.drop_last()) } else { p }
}

/// What follows the last separator of `p`.
pub open spec fn dernier_composant(p: Seq<char>) -> Seq<char>
    decreases p.len(),
{
    if p.len() == 0 {
        p
    } else if est_separateur(p.last()) {
        Seq::empty()
    } else {
        dernier_composant(p.drop_last()).push(p.last())
    }
}

/// The file name of a path: its last component, trailing separators aside
/// (`/` and `\` both separate components).
pub open spec fn nom_fichier(p: Seq<char>) -> Seq<char> {
    dernier_composant(sans_separateurs_fin(p))
}

/// Position of the last `.` of a name, or -1.
pub open spec fn dernier_point(s: Seq<char>) -> int
    decreases s.len(),
{
    if s.len() == 0 {
        -1
    } else if s.last() == '.' {
        s.len() - 1
    } else {
        dernier_point(s.drop_last())
    }
}

/// The name without its extension (`Path::file_stem`: a leading dot starts
/// no extension).
pub open spec fn radical(nom: Seq<char>) -> Seq<char> {
    if dernier_point(nom) > 0 { nom.take(dernier_point(nom)) } else { nom }
}

/// The extension of a name, if it has one (`Path::extension`).
pub open spec fn extension(nom: Seq<char>) -> Option<Seq<char>> {
    if dernier_point(nom) > 0 { Some(nom.skip(dernier_point(nom) + 1)) } else { None }
}

/// The extension of the file that a path names.
pub open spec fn extension_chemin(p: Seq<char>) -> Option<Seq<char>> {
    extension(nom_fichier(p))
}

proof fn lemma_composant(p: Seq<char>, j: int)
    requires
        0 <= j <= p.len(),
        forall|k: int| j <= k < p.len() ==> !est_separateur(#[trigger] p[k]),
        j == 0 || est_separateur(p[j - 1]),
    ensures
        dernier_composant(p) == p.skip(j),
    decreases p.len(),
{
    if p.len() == j {
        assert(p.skip(j) =~= Seq::<char>::empty());
    } else {
        if j > 0 {
            assert(p.drop_last()[j - 1] == p[j - 1]);
        }
        lemma_composant(p.drop_last(), j);
        assert(p.drop_last().skip(j).push(p.last()) =~= p.skip(j));
    }
}

proof fn lemma_sans_fin(p: Seq<char>, j: int)
    requires
        0 <= j <= p.len(),
        forall|k: int| j <= k < p.len() ==> est_separateur(#[trigger] p[k]),
        j == 0 || !est_separateur(p[j - 1]),
    ensures
        sans_separateurs_fin(p) == p.take(j),
    decreases p.len(),
{
    if p.len() == j {
        assert(p.take(j) =~= p);
    } else {
        if j > 0 {
            assert(p.drop_last()[j - 1] == p[j - 1]);
        }
        lemma_sans_fin(p.drop_last(), j);
        assert(p.drop_last().take(j) =~= p.take(j));
    }
}

/// The file name of a path.
pub fn nom_de_chemin(p: &[char]) -> (r: Vec<char>)
    ensures
        r@ == nom_fichier(p@),
{
    let mut f = p.len();
    while f > 0 && (p[f - 1] == '/' || p[f - 1] == '\\')
        invariant
            f <= p.len(),
            forall|k: int| f <= k < p.len() ==> est_separateur(#[trigger] p@[k]),
        decreases f,
    {
        f -= 1;
    }
    proof {
        lemma_sans_fin(p@, f as int);
    }
    let mut j = f;
    while j > 0 && !(p[j - 1] == '/' || p[j - 1] == '\\')
        invariant
            j <= f <= p.len(),
            forall|k: int| j <= k < f ==> !est_separateur(#[trigger] p@[k]),
        decreases j,
    {
        j -= 1;
    }
    proof {
        let t = p@.take(f as int);
        assert forall|k: int| j <= k < t.len() implies !est_separateur(#[trigger] t[k]) by {
            assert(t[k] == p@[k]);
        }
        if j > 0 {
            assert(t[j - 1] == p@[j - 1]);
        }
        lemma_composant(t, j as int);
        assert(t.skip(j as int) =~= p@.subrange(j as int, f as int));
    }
    extrait(p, j, f)
}

proof fn lemma_point(s: Seq<char>, k: int)
    requires
        0 <= k <= s.len(),
        forall|m: int| k <= m < s.len() ==> #[trigger] s[m] != '.',
        k == 0 || s[k - 1] == '.',
    ensures
        dernier_point(s) == k - 1,
    decreases s.len(),
{
    if s.len() > k {
        if k > 0 {
            assert(s.drop_last()[k - 1] == s[k - 1]);
        }
        lemma_point(s.drop_last(), k);
    }
}

pub proof fn lemma_point_valide(s: Seq<char>)
    ensures
        -1 <= dernier_point(s) < s.len(),
        dernier_point(s) >= 0 ==> s[dernier_point(s)] == '.',
    decreases s.len(),
{
    if s.len() > 0 && s.last() != '.' {
        lemma_point_valide(s.drop_last());
    }
}

/// One past the position of the last `.` of a name (0 when there is none).
pub fn apres_dernier_point(s: &[char]) -> (r: usize)
    ensures
        r as int - 1 == dernier_point(s@),
        r <= s.len(),
{
    let mut k = s.len();
    while k > 0 && s[k - 1] != '.'
        invariant
            k <= s.len(),
            forall|m: int| k <= m < s.len() ==> #[trigger] s@[m] != '.',
        decreases k,
    {
        k -= 1;
    }
    proof {
        lemma_point(s@, k as int);
    }
    k
}

/// The name split into the part before its extension and the extension.
pub fn decomposer(nom: &[char]) -> (r: (Vec<char>, Option<Vec<char>>))
    ensures
        r.0@ == radical(nom@),
        match r.1 {
            Some(e) => extension(nom@) == Some(e@),
            None => extension(nom@) is None,
        },
{
    let k = apres_dernier_point(nom);
    if k > 1 {
        let stem = extrait(nom, 0, k - 1);
        let ext = extrait(nom, k, nom.len());
        assert(nom@.subrange(0, k - 1) =~= nom@.take(k - 1));
        assert(nom@.subrange(k as int, nom.len() as int) =~= nom@.skip(k as int));
        (stem, Some(ext))
    } else {
        let stem = extrait(nom, 0, nom.len());
        assert(nom@.subrange(0, nom.len() as int) =~= nom@);
        (stem, None)
    }
}

/// The extension of the file that a path names.
pub fn extension_de(chemin: &str) -> (r: Option<Vec<char>>)
    ensures
        match r {
            Some(e) => extension_chemin(chemin@) == Some(e@),
            None => extension_chemin(chemin@) is None,
        },
{
    let p = caracteres(chemin);
    let nom = nom_de_chemin(&p);
    let (_stem, ext) = decomposer(&nom);
    ext
}

/// The file name of a path, without its extension.
pub fn radical_de(chemin: &str) -> (r: Vec<char>)
    ensures
        r@ == radical(nom_fichier(chemin@)),
{
    let p = caracteres(chemin);
    let nom = nom_de_chemin(&p);
    let (stem, _ext) = decomposer(&nom);
    stem
}

proof fn lemma_composant_court(p: Seq<char>)
    ensures
        dernier_composant(p).len() <= p.len(),
    decreases p.len(),
{
    if p.len() > 0 && !est_separateur(p.last()) {
        lemma_composant_court(p.drop_last());
    }
}

fn fin_sans_separateurs(p: &[char]) -> (f: usize)
    ensures
        f <= p.len(),
        sans_separateurs_fin(p@) == p@.take(f as int),
{
    let mut f = p.len();
    while f > 0 && (p[f - 1] == '/' || p[f - 1] == '\\')
        invariant
            f <= p.len(),
            forall|k: int| f <= k < p.len() ==> est_separateur(#[trigger] p@[k]),
        decreases f,
    {
        f -= 1;
    }
    proof {
        lemma_sans_fin(p@, f as int);
    }
    f
}

/// The path with the extension of its file name replaced by `ext`
/// (`Path::with_extension`): trailing separators are dropped, a path without
/// a file name is kept.
pub open spec fn avec_extension(p: Seq<char>, ext: Seq<char>) -> Seq<char> {
    let base = sans_separateurs_fin(p);
    let nom = nom_fichier(p);
    if nom.len() == 0 {
        p
    } else {
        base.take(base.len() - nom.len() + radical(nom).len()) + seq!['.'] + ext
    }
}

/// The path with the extension of its file name replaced by `ext`.
pub fn chemin_avec_extension(chemin: &str, ext: &[char]) -> (r: String)
    ensures
        r@ == avec_extension(chemin@, ext@),
{
    let p = caracteres(chemin);
    let nom = nom_de_chemin(&p);
    if nom.len() == 0 {
        return crate::texte::chaine(&p);
    }
    let f = fin_sans_separateurs(&p);
    let (stem, _ext) = decomposer(&nom);
    proof {
        lemma_composant_court(p@.take(f as int));
        lemma_point_valide(nom@);
    }
    let n = f - nom.len() + stem.len();
    let mut v = extrait(&p, 0, n);
    v.push('.');
    let mut i: usize = 0;
    let ghost debut = v@;
    while i < ext.len()
        invariant
            i <= ext.len(),
            v@ == debut + ext@.take(i as int),
        decreases ext.len() - i,
    {
        v.push(ext[i]);
        i += 1;
        assert(ext@.take(i as int) =~= ext@.take(i - 1).push(ext@[i - 1]));
    }
    assert(ext@.take(ext.len() as int) =~= ext@);
    assert(p@.take(f as int).take(n as int) =~= p@.subrange(0, n as int));
    crate::texte::chaine(&v)
}

/// Whether `c` separates path components on a platform whose main
/// separator is `sep`: `/` everywhere, `\` too where it is the main one.
pub open spec fn separe(c: char, sep: char) -> bool {
    c == '/' || (sep == '\\' && c == '\\')
}

/// A relative name joined to a directory (`Path::join`): the name alone
/// after an empty directory, else after the directory and the main
/// separator, unless the directory already ends with a separator.
pub open spec fn jointure(dossier: Seq<char>, nom: Seq<char>, sep: char) -> Seq<char> {
    if dossier.len() == 0 {
        nom
    } else if separe(dossier.last(), sep) {
        dossier + nom
    } else {
        dossier + seq![sep] + nom
    }
}

/// The platform's main path separator (`std::path::MAIN_SEPARATOR`): `/` or
/// `\`.
#[verifier::external_body]
pub(crate) fn separateur() -> (r: char)
    ensures
        r == '/' || r == '\\',
{
    std::path::MAIN_SEPARATOR
}

/// A relative name joined to a directory: see `jointure`.
pub fn joindre_chemin(dossier: &str, nom: &str, sep: char) -> (r: String)
    ensures
        r@ == jointure(dossier@, nom@, sep),
{
    let d = caracteres(dossier);
    let mut r = String::from_str(dossier);
    if d.len() == 0 {
        return String::from_str(nom);
    }
    let c = d[d.len() - 1];
    assert(d@.last() == c);
    if !(c == '/' || (sep == '\\' && c == '\\')) {
        crate::texte::pousser(&mut r, sep);
    }
    r.append(nom);
    r
}

} // verus!
