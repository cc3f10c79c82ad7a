use vstd::prelude::*;
use crate::chemin::{decomposer, dernier_point, extension, lemma_point_valide, nom_de_chemin, nom_fichier, radical};
use crate::texte::{
    avec_zeros, caracteres, chaine, decimal, en_majuscules, en_minuscules, extrait, majuscule,
    majuscule_de, minuscule, minuscule_de, remplace, remplacer, rogne, rogner, ecrire_decimal_zeros,
    vers_majuscules, vers_minuscules,
};

verus! {

broadcast use vstd::string::group_string_axioms;

/// Where the number goes in a numbered name.
#[derive(Clone, Copy, Debug, PartialEq, Eq, Structural)]
pub enum NumPos {
    Prefix,
    Suffix,
}

/// How the letters of the name (without its extension) change.
#[derive(Clone, Copy, Debug, PartialEq, Eq, Structural)]
pub enum CaseMode {
    Unchanged,
    Lower,
    Upper,
    Title,
    Sentence,
}

/// What happens to the extension.
#[derive(Clone, Copy, Debug, PartialEq, Eq, Structural)]
pub enum ExtMode {
    Unchanged,
    Lower,
    Upper,
    Replace,
    Remove,
}

/// The settings of a batch rename.
pub struct RenameConfig {
    pub find: String,
    pub replace_with: String,
    pub insert_text: String,
    pub insert_pos: usize,
    pub insert_from_end: bool,
    pub delete_enabled: bool,
    pub delete_from: usize,
    pub delete_count: usize,
    pub delete_from_end: bool,
    pub num_enabled: bool,
    pub num_start: u32,
    pub num_step: u32,
    pub num_padding: usize,
    pub num_pos: NumPos,
    pub num_sep: String,
    pub case_mode: CaseMode,
    pub strip_trailing_spaces: bool,
    pub strip_double_spaces: bool,
    pub strip_leading_dots: bool,
    pub strip_chars: String,
    pub ext_mode: ExtMode,
    pub ext_new: String,
}

impl Default for RenameConfig {
    fn default() -> (r: Self)
        ensures
            r.find@ == Seq::<char>::empty(),
            r.replace_with@ == Seq::<char>::empty(),
            r.insert_text@ == Seq::<char>::empty(),
            r.insert_pos == 0,
            !r.insert_from_end,
            !r.delete_enabled,
            r.delete_from == 0,
            r.delete_count == 0,
            !r.delete_from_end,
            !r.num_enabled,
            r.num_start == 1,
            r.num_step == 1,
            r.num_padding == 2,
            r.num_pos == NumPos::Suffix,
            r.num_sep@ == seq![' '],
            r.case_mode == CaseMode::Unchanged,
            !r.strip_trailing_spaces,
            !r.strip_double_spaces,
            !r.strip_leading_dots,
            r.strip_chars@ == Seq::<char>::empty(),
            r.ext_mode == ExtMode::Unchanged,
            r.ext_new@ == Seq::<char>::empty(),
    {
        let mut sep = String::new();
        crate::texte::pousser(&mut sep, ' ');
        RenameConfig {
            find: String::new(),
            replace_with: String::new(),
            insert_text: String::new(),
            insert_pos: 0,
            insert_from_end: false,
            delete_enabled: false,
            delete_from: 0,
            delete_count: 0,
            delete_from_end: false,
            num_enabled: false,
            num_start: 1,
            num_step: 1,
            num_padding: 2,
            num_pos: NumPos::Suffix,
            num_sep: sep,
            case_mode: CaseMode::Unchanged,
            strip_trailing_spaces: false,
            strip_double_spaces: false,
            strip_leading_dots: false,
            strip_chars: String::new(),
            ext_mode: ExtMode::Unchanged,
            ext_new: String::new(),
        }
    }
}

// ───────────────────────── the model ─────────────────────────

pub open spec fn sans_caracteres(s: Seq<char>, ens: Seq<char>) -> Seq<char> {
    filtre_hors(s, ens)
}

/// A space that follows another space goes away.
pub open spec fn sans_doubles_espaces(s: Seq<char>) -> Seq<char>
    decreases s.len(),
{
    if s.len() == 0 {
        s
    } else if s.last() == ' ' && s.len() >= 2 && s[s.len() - 2] == ' ' {
        sans_doubles_espaces(s.drop_last())
    } else {
        sans_doubles_espaces(s.drop_last()).push(s.last())
    }
}

pub open spec fn sans_points_debut(s: Seq<char>) -> Seq<char>
    decreases s.len(),
{
    if s.len() > 0 && s[0] == '.' { sans_points_debut(s.drop_first()) } else { s }
}

pub open spec fn min_int(a: int, b: int) -> int {
    if a < b { a } else { b }
}

pub open spec fn max_int(a: int, b: int) -> int {
    if a > b { a } else { b }
}

/// `count` characters removed from position `from` (counted from the end
/// when `from_end`), clipped to the name.
pub open spec fn supprime(s: Seq<char>, from: int, count: int, from_end: bool) -> Seq<char> {
    let n = s.len() as int;
    let a = if from_end { max_int(n - from - count, 0) } else { min_int(from, n) };
    let b = if from_end { max_int(n - from, 0) } else { min_int(from + count, n) };
    s.take(a) + s.skip(b)
}

/// `texte` inserted at position `pos` (counted from the end when `from_end`),
/// clipped to the name.
pub open spec fn insere(s: Seq<char>, texte: Seq<char>, pos: int, from_end: bool) -> Seq<char> {
    let n = s.len() as int;
    let p = if from_end { n - min_int(pos, n) } else { min_int(pos, n) };
    s.take(p) + texte + s.skip(p)
}

/// Title case: a letter that starts the name or follows a space is raised,
/// every other letter lowered.
pub open spec fn en_titre(s: Seq<char>) -> Seq<char>
    decreases s.len(),
{
    if s.len() == 0 {
        s
    } else if s.len() == 1 || s[s.len() - 2] == ' ' {
        en_titre(s.drop_last()) + majuscule(s.last())
    } else {
        en_titre(s.drop_last()) + minuscule(s.last())
    }
}

/// Sentence case: the first letter raised, the others lowered.
pub open spec fn en_phrase(s: Seq<char>) -> Seq<char> {
    if s.len() == 0 { s } else { majuscule(s[0]) + en_minuscules(s.drop_first()) }
}

pub open spec fn casse(s: Seq<char>, mode: CaseMode) -> Seq<char> {
    match mode {
        CaseMode::Unchanged => s,
        CaseMode::Lower => en_minuscules(s),
        CaseMode::Upper => en_majuscules(s),
        CaseMode::Title => en_titre(s),
        CaseMode::Sentence => en_phrase(s),
    }
}

/// The number that the file at position `i` of the batch receives.
pub open spec fn numero(cfg: RenameConfig, i: int) -> Seq<char> {
    avec_zeros(decimal((cfg.num_start + i * cfg.num_step) as nat), cfg.num_padding as nat)
}

/// The name without its extension, after every step that applies to it.
pub open spec fn radical_final(stem: Seq<char>, cfg: RenameConfig, i: int) -> Seq<char> {
    let s1 = remplace(stem, cfg.find@, cfg.replace_with@);
    let s2 = sans_caracteres(s1, cfg.strip_chars@);
    let s3 = if cfg.delete_enabled {
        supprime(s2, cfg.delete_from as int, cfg.delete_count as int, cfg.delete_from_end)
    } else {
        s2
    };
    let s4 = insere(s3, cfg.insert_text@, cfg.insert_pos as int, cfg.insert_from_end);
    let s5 = casse(s4, cfg.case_mode);
    let s6 = if cfg.strip_double_spaces { sans_doubles_espaces(s5) } else { s5 };
    let s7 = if cfg.strip_leading_dots { sans_points_debut(s6) } else { s6 };
    let s8 = if cfg.strip_trailing_spaces { rogne(s7) } else { s7 };
    if cfg.num_enabled {
        match cfg.num_pos {
            NumPos::Prefix => numero(cfg, i) + cfg.num_sep@ + s8,
            NumPos::Suffix => s8 + cfg.num_sep@ + numero(cfg, i),
        }
    } else {
        s8
    }
}

/// The extension after the extension step.
pub open spec fn extension_finale(ext: Option<Seq<char>>, cfg: RenameConfig) -> Option<Seq<char>> {
    match cfg.ext_mode {
        ExtMode::Unchanged => ext,
        ExtMode::Lower => match ext { Some(e) => Some(en_minuscules(e)), None => None },
        ExtMode::Upper => match ext { Some(e) => Some(en_majuscules(e)), None => None },
        ExtMode::Replace => Some(cfg.ext_new@),
        ExtMode::Remove => None,
    }
}

/// The new name of the file at position `i` of the batch, whose path is `chemin`.
pub open spec fn nouveau_nom(chemin: Seq<char>, cfg: RenameConfig, i: int) -> Seq<char> {
    let nom = nom_fichier(chemin);
    let r = radical_final(radical(nom), cfg, i);
    match extension_finale(extension(nom), cfg) {
        Some(e) => r + seq!['.'] + e,
        None => r,
    }
}

} // verus!

verus! {

/// The characters of `s` that are not in `ens`, in order.
pub open spec fn filtre_hors(s: Seq<char>, ens: Seq<char>) -> Seq<char>
    decreases s.len(),
{
    if s.len() == 0 {
        s
    } else if ens.contains(s.last()) {
        filtre_hors(s.drop_last(), ens)
    } else {
        filtre_hors(s.drop_last(), ens).push(s.last())
    }
}

pub fn retirer_caracteres(s: &[char], ens: &[char]) -> (r: Vec<char>)
    ensures
        r@ == filtre_hors(s@, ens@),
{
    let mut r: Vec<char> = Vec::new();
    let mut i: usize = 0;
    assert(s@.take(0) =~= Seq::<char>::empty());
    while i < s.len()
        invariant
            i <= s.len(),
            r@ == filtre_hors(s@.take(i as int), ens@),
        decreases s.len() - i,
    {
        assert(s@.take(i + 1).drop_last() =~= s@.take(i as int));
        assert(s@.take(i + 1).last() == s@[i as int]);
        if !crate::texte::contient(ens, s[i]) {
            r.push(s[i]);
        }
        i += 1;
    }
    assert(s@.take(s.len() as int) =~= s@);
    r
}

pub fn retirer_doubles_espaces(s: &[char]) -> (r: Vec<char>)
    ensures
        r@ == sans_doubles_espaces(s@),
{
    let mut r: Vec<char> = Vec::new();
    let mut i: usize = 0;
    assert(s@.take(0) =~= Seq::<char>::empty());
    while i < s.len()
        invariant
            i <= s.len(),
            r@ == sans_doubles_espaces(s@.take(i as int)),
        decreases s.len() - i,
    {
        let ghost t = s@.take(i + 1);
        assert(t.drop_last() =~= s@.take(i as int));
        assert(t.last() == s@[i as int]);
        if i > 0 {
            assert(t[t.len() - 2] == s@[i - 1]);
        }
        if !(s[i] == ' ' && i > 0 && s[i - 1] == ' ') {
            r.push(s[i]);
        }
        i += 1;
    }
    assert(s@.take(s.len() as int) =~= s@);
    r
}

proof fn lemma_points(s: Seq<char>, i: int)
    requires
        0 <= i <= s.len(),
        forall|j: int| 0 <= j < i ==> #[trigger] s[j] == '.',
        i == s.len() || s[i] != '.',
    ensures
        sans_points_debut(s) == s.skip(i),
    decreases i,
{
    if i == 0 {
        assert(s.skip(0) =~= s);
    } else {
        assert(s.drop_first().skip(i - 1) =~= s.skip(i));
        assert forall|j: int| 0 <= j < i - 1 implies #[trigger] s.drop_first()[j] == '.' by {
            assert(s.drop_first()[j] == s[j + 1]);
        }
        if i < s.len() {
            assert(s.drop_first()[i - 1] == s[i]);
        }
        lemma_points(s.drop_first(), i - 1);
    }
}

pub fn retirer_points_debut(s: &[char]) -> (r: Vec<char>)
    ensures
        r@ == sans_points_debut(s@),
{
    let mut i: usize = 0;
    while i < s.len() && s[i] == '.'
        invariant
            i <= s.len(),
            forall|j: int| 0 <= j < i ==> #[trigger] s@[j] == '.',
        decreases s.len() - i,
    {
        i += 1;
    }
    proof {
        lemma_points(s@, i as int);
    }
    extrait(s, i, s.len())
}

pub fn supprimer_plage(s: &[char], from: usize, count: usize, from_end: bool) -> (r: Vec<char>)
    ensures
        r@ == supprime(s@, from as int, count as int, from_end),
{
    let n = s.len();
    let (a, b) = if from_end {
        let b = if from < n { n - from } else { 0 };
        let a = if count < b { b - count } else { 0 };
        (a, b)
    } else {
        let a = if from < n { from } else { n };
        let b = if count < n - a { a + count } else { n };
        (a, b)
    };
    let debut = extrait(s, 0, a);
    let fin = extrait(s, b, n);
    assert(s@.subrange(0, a as int) =~= s@.take(a as int));
    assert(s@.subrange(b as int, n as int) =~= s@.skip(b as int));
    crate::texte::concat(&debut, &fin)
}

pub fn inserer_texte(s: &[char], texte: &[char], pos: usize, from_end: bool) -> (r: Vec<char>)
    ensures
        r@ == insere(s@, texte@, pos as int, from_end),
{
    let n = s.len();
    let m = if pos < n { pos } else { n };
    let p = if from_end { n - m } else { m };
    let debut = extrait(s, 0, p);
    let fin = extrait(s, p, n);
    assert(s@.subrange(0, p as int) =~= s@.take(p as int));
    assert(s@.subrange(p as int, n as int) =~= s@.skip(p as int));
    let d = crate::texte::concat(&debut, texte);
    let r = crate::texte::concat(&d, &fin);
    r
}

pub fn vers_titre(s: &[char]) -> (r: Vec<char>)
    ensures
        r@ == en_titre(s@),
{
    let mut r: Vec<char> = Vec::new();
    let mut i: usize = 0;
    assert(s@.take(0) =~= Seq::<char>::empty());
    while i < s.len()
        invariant
            i <= s.len(),
            r@ == en_titre(s@.take(i as int)),
        decreases s.len() - i,
    {
        let ghost t = s@.take(i + 1);
        assert(t.drop_last() =~= s@.take(i as int));
        assert(t.last() == s@[i as int]);
        if i > 0 {
            assert(t[t.len() - 2] == s@[i - 1]);
        }
        let m = if i == 0 || s[i - 1] == ' ' { majuscule_de(s[i]) } else { minuscule_de(s[i]) };
        r.append(&mut m.clone());
        i += 1;
    }
    assert(s@.take(s.len() as int) =~= s@);
    r
}

pub fn vers_phrase(s: &[char]) -> (r: Vec<char>)
    ensures
        r@ == en_phrase(s@),
{
    if s.len() == 0 {
        return Vec::new();
    }
    let premiere = majuscule_de(s[0]);
    let reste = extrait(s, 1, s.len());
    assert(s@.subrange(1, s.len() as int) =~= s@.drop_first());
    let bas = vers_minuscules(&reste);
    crate::texte::concat(&premiere, &bas)
}

pub fn appliquer_casse(s: &[char], mode: CaseMode) -> (r: Vec<char>)
    ensures
        r@ == casse(s@, mode),
{
    match mode {
        CaseMode::Unchanged => {
            let r = extrait(s, 0, s.len());
            assert(s@.subrange(0, s.len() as int) =~= s@);
            r
        },
        CaseMode::Lower => vers_minuscules(s),
        CaseMode::Upper => vers_majuscules(s),
        CaseMode::Title => vers_titre(s),
        CaseMode::Sentence => vers_phrase(s),
    }
}

} // verus!

verus! {

/// The part of the new name before its extension.
pub fn transformer_radical(stem: &[char], cfg: &RenameConfig, i: usize) -> (r: Vec<char>)
    ensures
        r@ == radical_final(stem@, *cfg, i as int),
{
    let find = caracteres(cfg.find.as_str());
    let rep = caracteres(cfg.replace_with.as_str());
    let s1 = remplacer(stem, &find, &rep);
    let ens = caracteres(cfg.strip_chars.as_str());
    let s2 = retirer_caracteres(&s1, &ens);
    let s3 = if cfg.delete_enabled {
        supprimer_plage(&s2, cfg.delete_from, cfg.delete_count, cfg.delete_from_end)
    } else {
        s2
    };
    let ins = caracteres(cfg.insert_text.as_str());
    let s4 = inserer_texte(&s3, &ins, cfg.insert_pos, cfg.insert_from_end);
    let s5 = appliquer_casse(&s4, cfg.case_mode);
    let s6 = if cfg.strip_double_spaces { retirer_doubles_espaces(&s5) } else { s5 };
    let s7 = if cfg.strip_leading_dots { retirer_points_debut(&s6) } else { s6 };
    let s8 = if cfg.strip_trailing_spaces { rogner(&s7) } else { s7 };
    if cfg.num_enabled {
        let a: u128 = i as u128;
        let b: u128 = cfg.num_step as u128;
        assert(a <= 0xffff_ffff_ffff_ffffu128);
        assert(a * b <= 0xffff_ffff_ffff_ffffu128 * 0xffff_ffffu128) by (nonlinear_arith)
            requires
                a <= 0xffff_ffff_ffff_ffffu128,
                b <= 0xffff_ffffu128,
        ;
        let n: u128 = cfg.num_start as u128 + a * b;
        let num = ecrire_decimal_zeros(n, cfg.num_padding);
        let sep = caracteres(cfg.num_sep.as_str());
        match cfg.num_pos {
            NumPos::Prefix => {
                let a = crate::texte::concat(&num, &sep);
                crate::texte::concat(&a, &s8)
            },
            NumPos::Suffix => {
                let a = crate::texte::concat(&s8, &sep);
                crate::texte::concat(&a, &num)
            },
        }
    } else {
        s8
    }
}

/// The new name of the file at position `i` of the batch.
pub fn nouveau_nom_de(chemin: &str, cfg: &RenameConfig, i: usize) -> (r: String)
    ensures
        r@ == nouveau_nom(chemin@, *cfg, i as int),
{
    let p = caracteres(chemin);
    let nom = nom_de_chemin(&p);
    let (stem, ext) = decomposer(&nom);
    let r = transformer_radical(&stem, cfg, i);
    let ext2: Option<Vec<char>> = match cfg.ext_mode {
        ExtMode::Unchanged => ext,
        ExtMode::Lower => match ext { Some(e) => Some(vers_minuscules(&e)), None => None },
        ExtMode::Upper => match ext { Some(e) => Some(vers_majuscules(&e)), None => None },
        ExtMode::Replace => Some(caracteres(cfg.ext_new.as_str())),
        ExtMode::Remove => None,
    };
    match ext2 {
        Some(e) => {
            let mut point: Vec<char> = Vec::new();
            point.push('.');
            let a = crate::texte::concat(&r, &point);
            let b = crate::texte::concat(&a, &e);
            chaine(&b)
        },
        None => chaine(&r),
    }
}

/// For each file of the batch, its path and the name it would be given.
pub fn preview(files: &[String], cfg: &RenameConfig) -> (r: Vec<(String, String)>)
    ensures
        r.len() == files.len(),
        forall|i: int| 0 <= i < files.len() ==> (#[trigger] r@[i]).0@ == files@[i]@
            && r@[i].1@ == nouveau_nom(files@[i]@, *cfg, i),
{
    let mut r: Vec<(String, String)> = Vec::new();
    let mut i: usize = 0;
    while i < files.len()
        invariant
            i <= files.len(),
            r.len() == i,
            forall|j: int| 0 <= j < i ==> (#[trigger] r@[j]).0@ == files@[j]@
                && r@[j].1@ == nouveau_nom(files@[j]@, *cfg, j),
        decreases files.len() - i,
    {
        let nom = nouveau_nom_de(files[i].as_str(), cfg, i);
        r.push((files[i].clone(), nom));
        i += 1;
    }
    r
}

} // verus!

verus! {

proof fn lemma_filtre_vide(s: Seq<char>)
    ensures
        filtre_hors(s, Seq::<char>::empty()) == s,
    decreases s.len(),
{
    if s.len() > 0 {
        lemma_filtre_vide(s.drop_last());
        assert(s.drop_last().push(s.last()) =~= s);
    }
}

/// Settings that change nothing: no replacement, removal, insertion,
/// numbering, case or extension change.
pub open spec fn reglages_neutres(cfg: RenameConfig) -> bool {
    &&& cfg.find@.len() == 0
    &&& cfg.strip_chars@.len() == 0
    &&& !cfg.delete_enabled
    &&& cfg.insert_text@.len() == 0
    &&& cfg.case_mode == CaseMode::Unchanged
    &&& !cfg.strip_double_spaces
    &&& !cfg.strip_trailing_spaces
    &&& !cfg.strip_leading_dots
    &&& !cfg.num_enabled
    &&& cfg.ext_mode == ExtMode::Unchanged
}

/// With settings that change nothing (the defaults among them), every file
/// keeps its name.
pub proof fn loi_reglages_neutres(chemin: Seq<char>, cfg: RenameConfig, i: int)
    requires
        reglages_neutres(cfg),
    ensures
        nouveau_nom(chemin, cfg, i) == nom_fichier(chemin),
{
    let nom = nom_fichier(chemin);
    let st = radical(nom);
    assert(cfg.strip_chars@ =~= Seq::<char>::empty());
    lemma_filtre_vide(st);
    assert(st.take(st.len() as int) + cfg.insert_text@ + st.skip(st.len() as int) =~= st);
    assert(insere(st, cfg.insert_text@, cfg.insert_pos as int, cfg.insert_from_end) =~= st);
    lemma_point_valide(nom);
    if dernier_point(nom) > 0 {
        let k = dernier_point(nom);
        assert(nom.take(k) + seq!['.'] + nom.skip(k + 1) =~= nom);
    }
}

} // verus!

verus! {

/// The settings with numbering turned off.
pub open spec fn sans_numerotation(cfg: RenameConfig) -> RenameConfig {
    RenameConfig { num_enabled: false, ..cfg }
}

/// Numbering: the file at position `i` of the batch gets, before or after
/// its transformed name and the separator, a number written in decimal
/// digits, with at least `num_padding` of them and no more zeros in front
/// than the padding needs, whose value is
/// `num_start + i * num_step`; so two consecutive files get numbers that
/// differ by `num_step`.
pub proof fn loi_numerotation(stem: Seq<char>, cfg: RenameConfig, i: nat)
    requires
        cfg.num_enabled,
    ensures
        exists|n: Seq<char>| {
            &&& crate::texte::tous_chiffres(n)
            &&& n.len() >= cfg.num_padding
            &&& crate::texte::valeur_chiffres(n) == cfg.num_start + i * cfg.num_step
            &&& (n.len() <= cfg.num_padding || n[0] != '0' || n == seq!['0'])
            &&& radical_final(stem, cfg, i as int) == match cfg.num_pos {
                NumPos::Prefix => n + cfg.num_sep@ + radical_final(stem, sans_numerotation(cfg), i as int),
                NumPos::Suffix => radical_final(stem, sans_numerotation(cfg), i as int) + cfg.num_sep@ + n,
            }
        },
{
    let v: nat = (cfg.num_start + i * cfg.num_step) as nat;
    let d = decimal(v);
    crate::texte::lemma_decimal_chiffres(v);
    crate::texte::lemma_decimal_tete(v);
    let n = numero(cfg, i as int);
    assert(n == avec_zeros(d, cfg.num_padding as nat));
    if d.len() < cfg.num_padding {
        let z = Seq::new((cfg.num_padding - d.len()) as nat, |_j: int| '0');
        crate::texte::lemma_zeros_devant(z, d);
        assert(n == z + d);
    }
    assert(crate::texte::tous_chiffres(n));
    assert(crate::texte::valeur_chiffres(n) == cfg.num_start + i * cfg.num_step);
}

} // verus!
