use vstd::prelude::*;
use crate::texte::{morceaux, sans_espaces_debut, est_espace_spec, est_espace, extrait, chaine, vues_chaines};

verus! {

broadcast use vstd::string::group_string_axioms;

// ───────────────────────── lines of a text ─────────────────────────

/// A line without the `\r` of a `\r\n` ending.
pub open spec fn sans_cr(l: Seq<char>) -> Seq<char> {
    if l.len() > 0 && l.last() == '\r' { l.drop_last() } else { l }
}

/// The lines of a text (`str::lines`): split at `\n`, a `\r` before the
/// `\n` dropped, no empty last line after a final line break.
pub open spec fn lignes_texte(s: Seq<char>) -> Seq<Seq<char>> {
    let m = morceaux(s, '\n');
    let debut = m.drop_last().map_values(|l: Seq<char>| sans_cr(l));
    if m.last().len() == 0 { debut } else { debut.push(m.last()) }
}

// ───────────────────────── wrapping a line ─────────────────────────

/// The position of the last space of `s`, or -1.
pub open spec fn dernier_espace(s: Seq<char>) -> int
    decreases s.len(),
{
    if s.len() == 0 { -1 } else if s.last() == ' ' { s.len() - 1 } else { dernier_espace(s.drop_last()) }
}

/// Where a too long line is cut: at its last space within its first `max`
/// characters, else right after them.
pub open spec fn point_coupe(s: Seq<char>, max: nat) -> nat {
    if dernier_espace(s.take(max as int)) >= 0 { dernier_espace(s.take(max as int)) as nat } else { max }
}

proof fn lemma_sans_espaces_debut(s: Seq<char>)
    ensures
        sans_espaces_debut(s).len() <= s.len(),
        s.len() > 0 && est_espace_spec(s[0]) ==> sans_espaces_debut(s).len() < s.len(),
    decreases s.len(),
{
    if s.len() > 0 && est_espace_spec(s[0]) {
        lemma_sans_espaces_debut(s.drop_first());
    }
}

proof fn lemma_dernier_espace(s: Seq<char>)
    ensures
        -1 <= dernier_espace(s) < s.len(),
        dernier_espace(s) >= 0 ==> s[dernier_espace(s)] == ' ',
        forall|j: int| dernier_espace(s) < j < s.len() ==> s[j] != ' ',
    decreases s.len(),
{
    if s.len() > 0 && s.last() != ' ' {
        lemma_dernier_espace(s.drop_last());
        assert forall|j: int| dernier_espace(s) < j < s.len() implies s[j] != ' ' by {
            if j < s.len() - 1 {
                assert(s.drop_last()[j] == s[j]);
            }
        }
    }
}

/// What remains of a too long line once its first piece is taken: the text
/// after the cut, without its leading white space.
pub open spec fn apres_coupe(s: Seq<char>, max: nat) -> Seq<char> {
    sans_espaces_debut(s.skip(point_coupe(s, max) as int))
}

pub proof fn lemma_apres_coupe(s: Seq<char>, k: nat)
    requires
        0 < k <= s.len(),
    ensures
        apres_coupe(s, k).len() < s.len(),
        point_coupe(s, k) <= k,
{
    let t = s.take(k as int);
    lemma_dernier_espace(t);
    let p = point_coupe(s, k);
    lemma_sans_espaces_debut(s.skip(p as int));
    if p == 0 {
        assert(dernier_espace(t) == 0);
        assert(s[0] == ' ');
        assert(s.skip(0) =~= s);
        assert(est_espace_spec(s[0]));
    }
}

/// The pieces of a line wrapped at `max` characters (the loop of
/// `decouper_texte`): a line that fits is one piece; a longer one is cut at
/// its last space within its first `max` characters (or right after them),
/// and the rest, its leading white space dropped, is wrapped in turn. (A
/// width of 0 wraps nothing; the functions that wrap require a width.)
pub open spec fn coupe(s: Seq<char>, max: nat) -> Seq<Seq<char>>
    decreases s.len(),
{
    if s.len() == 0 {
        Seq::empty()
    } else if s.len() <= max || max == 0 {
        seq![s]
    } else {
        proof { lemma_apres_coupe(s, max); }
        seq![s.take(point_coupe(s, max) as int)] + coupe(apres_coupe(s, max), max)
    }
}

/// The wrapped lines of the lines of a text: an empty line stays one empty
/// line.
pub open spec fn coupe_lignes(ls: Seq<Seq<char>>, max: nat) -> Seq<Seq<char>>
    decreases ls.len(),
{
    if ls.len() == 0 {
        Seq::empty()
    } else {
        coupe_lignes(ls.drop_last(), max) + if ls.last().len() == 0 {
            seq![Seq::<char>::empty()]
        } else {
            coupe(ls.last(), max)
        }
    }
}

/// No wrapped piece is longer than the width.
pub proof fn lemma_coupe_largeur(s: Seq<char>, max: nat)
    requires
        max > 0,
    ensures
        forall|i: int| 0 <= i < coupe(s, max).len() ==> (#[trigger] coupe(s, max)[i]).len() <= max,
    decreases s.len(),
{
    if s.len() > max {
        lemma_apres_coupe(s, max);
        lemma_coupe_largeur(apres_coupe(s, max), max);
        let c = coupe(s, max);
        let q = coupe(apres_coupe(s, max), max);
        assert forall|i: int| 0 <= i < c.len() implies (#[trigger] c[i]).len() <= max by {
            if i > 0 {
                assert(c[i] == q[i - 1]);
            }
        }
    }
}

/// No wrapped line of a text is longer than the width.
pub proof fn lemma_coupe_lignes_largeur(ls: Seq<Seq<char>>, max: nat)
    requires
        max > 0,
    ensures
        forall|i: int| 0 <= i < coupe_lignes(ls, max).len() ==> (#[trigger] coupe_lignes(ls, max)[i]).len() <= max,
    decreases ls.len(),
{
    if ls.len() > 0 {
        lemma_coupe_lignes_largeur(ls.drop_last(), max);
        lemma_coupe_largeur(ls.last(), max);
        let a = coupe_lignes(ls.drop_last(), max);
        let b = if ls.last().len() == 0 { seq![Seq::<char>::empty()] } else { coupe(ls.last(), max) };
        let c = coupe_lignes(ls, max);
        assert(c == a + b);
        assert forall|i: int| 0 <= i < c.len() implies (#[trigger] c[i]).len() <= max by {
            if i < a.len() {
                assert(c[i] == a[i]);
            } else {
                assert(c[i] == b[i - a.len()]);
            }
        }
    }
}

// ───────────────────────── wrapping, executed ─────────────────────────

/// The position of the last space of `v[debut..fin]`, counted from `debut`.
fn dernier_espace_de(v: &[char], debut: usize, fin: usize) -> (r: Option<usize>)
    requires
        debut <= fin <= v.len(),
    ensures
        match r {
            Some(p) => dernier_espace(v@.subrange(debut as int, fin as int)) == p,
            None => dernier_espace(v@.subrange(debut as int, fin as int)) < 0,
        },
{
    let mut j = fin;
    while j > debut
        invariant
            debut <= j <= fin,
            fin <= v.len(),
            dernier_espace(v@.subrange(debut as int, fin as int)) == dernier_espace(v@.subrange(debut as int, j as int)),
        decreases j,
    {
        assert(v@.subrange(debut as int, j as int).last() == v[j - 1]);
        if v[j - 1] == ' ' {
            return Some(j - 1 - debut);
        }
        assert(v@.subrange(debut as int, j as int).drop_last() =~= v@.subrange(debut as int, j - 1));
        j -= 1;
    }
    None
}

/// The wrapped pieces of the line `l` appended to `out`.
fn couper_ligne(l: &[char], max: usize, out: &mut Vec<String>)
    requires
        max > 0,
    ensures
        vues_chaines(final(out)@) == vues_chaines(old(out)@) + coupe(l@, max as nat),
{
    let ghost cible = vues_chaines(out@) + coupe(l@, max as nat);
    let mut d: usize = 0;
    assert(l@.skip(0) =~= l@);
    while d < l.len()
        invariant
            d <= l.len(),
            max > 0,
            vues_chaines(out@) + coupe(l@.skip(d as int), max as nat) == cible,
        decreases l.len() - d,
    {
        let ghost r = l@.skip(d as int);
        let ghost avant = vues_chaines(out@);
        if l.len() - d <= max {
            out.push(chaine(&extrait(l, d, l.len())));
            assert(l@.subrange(d as int, l.len() as int) =~= r);
            assert(vues_chaines(out@) =~= avant.push(r));
            assert(l@.skip(l.len() as int) =~= Seq::<char>::empty());
            assert(avant + coupe(r, max as nat) =~= vues_chaines(out@) + coupe(l@.skip(l.len() as int), max as nat));
            d = l.len();
        } else {
            let k = max;
            let pc = match dernier_espace_de(l, d, d + k) {
                Some(p) => p,
                None => k,
            };
            assert(l@.subrange(d as int, (d + k) as int) =~= r.take(k as int));
            assert(pc == point_coupe(r, k as nat));
            proof {
                lemma_dernier_espace(r.take(k as int));
                lemma_apres_coupe(r, k as nat);
            }
            out.push(chaine(&extrait(l, d, d + pc)));
            assert(l@.subrange(d as int, (d + pc) as int) =~= r.take(pc as int));
            assert(vues_chaines(out@) =~= avant.push(r.take(pc as int)));
            let mut e = d + pc;
            assert(r.skip(pc as int) =~= l@.skip(e as int));
            while e < l.len() && est_espace(l[e])
                invariant
                    d + pc <= e <= l.len(),
                    sans_espaces_debut(l@.skip((d + pc) as int)) == sans_espaces_debut(l@.skip(e as int)),
                decreases l.len() - e,
            {
                assert(l@.skip(e as int)[0] == l[e as int]);
                assert(l@.skip(e as int).drop_first() =~= l@.skip(e + 1));
                e += 1;
            }
            if e < l.len() {
                assert(l@.skip(e as int)[0] == l[e as int]);
            }
            assert(sans_espaces_debut(l@.skip(e as int)) == l@.skip(e as int));
            assert(apres_coupe(r, k as nat) == l@.skip(e as int));
            assert(coupe(r, max as nat) == seq![r.take(pc as int)] + coupe(l@.skip(e as int), max as nat));
            assert(avant + coupe(r, max as nat) =~= vues_chaines(out@) + coupe(l@.skip(e as int), max as nat));
            d = e;
        }
    }
    assert(l@.skip(d as int) =~= Seq::<char>::empty());
    assert(vues_chaines(out@) + Seq::<Seq<char>>::empty() =~= vues_chaines(out@));
}

proof fn lemma_coupe_lignes_pousse(ls: Seq<Seq<char>>, l: Seq<char>, max: nat)
    ensures
        coupe_lignes(ls.push(l), max) == coupe_lignes(ls, max) + if l.len() == 0 {
            seq![Seq::<char>::empty()]
        } else {
            coupe(l, max)
        },
{
    assert(ls.push(l).drop_last() =~= ls);
}

/// Splits a text into lines of at most `max_chars` characters
/// (`decouper_texte`): see `coupe_lignes`. A width of 0 is left out: a
/// non-empty line could then never be wrapped.
pub fn decouper_texte(texte: &str, max_chars: usize) -> (r: Vec<String>)
    requires
        max_chars > 0,
    ensures
        vues_chaines(r@) == coupe_lignes(lignes_texte(texte@), max_chars as nat),
        forall|i: int| 0 <= i < r.len() ==> (#[trigger] r@[i])@.len() <= max_chars,
{
    let ls = lignes(texte);
    let ghost vl = vues_chaines(ls@);
    let mut out: Vec<String> = Vec::new();
    let mut i: usize = 0;
    assert(vl.take(0) =~= Seq::<Seq<char>>::empty());
    while i < ls.len()
        invariant
            i <= ls.len(),
            max_chars > 0,
            vl == vues_chaines(ls@),
            vl == lignes_texte(texte@),
            vues_chaines(out@) == coupe_lignes(vl.take(i as int), max_chars as nat),
        decreases ls.len() - i,
    {
        let l = crate::texte::caracteres(ls[i].as_str());
        assert(l@ == vl[i as int]);
        proof { lemma_coupe_lignes_pousse(vl.take(i as int), l@, max_chars as nat); }
        assert(vl.take(i + 1) =~= vl.take(i as int).push(l@));
        if l.len() == 0 {
            out.push(String::new());
            assert(vues_chaines(out@) =~= coupe_lignes(vl.take(i + 1), max_chars as nat));
        } else {
            couper_ligne(&l, max_chars, &mut out);
        }
        i += 1;
    }
    assert(vl.take(ls.len() as int) =~= vl);
    proof {
        lemma_coupe_lignes_largeur(vl, max_chars as nat);
        assert forall|i: int| 0 <= i < out.len() implies (#[trigger] out@[i])@.len() <= max_chars by {
            assert(vues_chaines(out@)[i] == out@[i]@);
        }
    }
    out
}

pub proof fn lemma_morceaux_non_vides(s: Seq<char>, sep: char)
    ensures
        morceaux(s, sep).len() >= 1,
    decreases s.len(),
{
    if s.len() > 0 {
        lemma_morceaux_non_vides(s.drop_last(), sep);
    }
}

// ───────────────────────── pages ─────────────────────────

/// The characters per line of a page of text: an A4 page (595 points wide)
/// with 50-point margins, in 11-point Helvetica counted at half its size
/// per character: (595 - 100) / 5.5.
pub const CARACTERES_PAR_LIGNE: usize = 90;

/// The lines per page: (842 - 100) points of height, 11-point type with
/// 1.4 line spacing.
pub const LIGNES_PAR_PAGE: usize = 48;

/// The lines grouped into pages of `n` lines, the last page holding the
/// rest (`slice::chunks`).
pub open spec fn paquets(ls: Seq<Seq<char>>, n: nat) -> Seq<Seq<Seq<char>>>
    decreases ls.len(),
{
    if ls.len() == 0 || n == 0 {
        Seq::empty()
    } else if ls.len() <= n {
        seq![ls]
    } else {
        seq![ls.take(n as int)] + paquets(ls.skip(n as int), n)
    }
}

pub open spec fn vues_pages(p: Seq<Vec<String>>) -> Seq<Seq<Seq<char>>> {
    p.map_values(|v: Vec<String>| vues_chaines(v@))
}

/// The lines grouped into pages of `par_page` lines.
pub fn paginer(lignes: &Vec<String>, par_page: usize) -> (r: Vec<Vec<String>>)
    requires
        par_page > 0,
    ensures
        vues_pages(r@) == paquets(vues_chaines(lignes@), par_page as nat),
{
    let ghost ls = vues_chaines(lignes@);
    let mut r: Vec<Vec<String>> = Vec::new();
    let mut d: usize = 0;
    assert(ls.skip(0) =~= ls);
    while d < lignes.len()
        invariant
            d <= lignes.len(),
            par_page > 0,
            ls == vues_chaines(lignes@),
            vues_pages(r@) + paquets(ls.skip(d as int), par_page as nat) == paquets(ls, par_page as nat),
        decreases lignes.len() - d,
    {
        let fin = if lignes.len() - d <= par_page { lignes.len() } else { d + par_page };
        let mut page: Vec<String> = Vec::new();
        let mut j = d;
        while j < fin
            invariant
                d <= j <= fin <= lignes.len(),
                ls == vues_chaines(lignes@),
                vues_chaines(page@) == ls.subrange(d as int, j as int),
            decreases fin - j,
        {
            let c = lignes[j].clone();
            assert(c@ == ls[j as int]);
            let ghost avant_page = vues_chaines(page@);
            page.push(c);
            assert(vues_chaines(page@) =~= avant_page.push(c@));
            assert(vues_chaines(page@) =~= ls.subrange(d as int, j + 1));
            j += 1;
        }
        let ghost reste = ls.skip(d as int);
        let ghost avant = vues_pages(r@);
        r.push(page);
        assert(vues_pages(r@) =~= avant.push(ls.subrange(d as int, fin as int)));
        if lignes.len() - d <= par_page {
            assert(reste =~= ls.subrange(d as int, fin as int));
            assert(ls.skip(fin as int) =~= Seq::<Seq<char>>::empty());
            assert(vues_pages(r@) + paquets(ls.skip(fin as int), par_page as nat) =~= avant + paquets(reste, par_page as nat));
        } else {
            assert(reste.take(par_page as int) =~= ls.subrange(d as int, fin as int));
            assert(reste.skip(par_page as int) =~= ls.skip(fin as int));
            assert(vues_pages(r@) + paquets(ls.skip(fin as int), par_page as nat) =~= avant + paquets(reste, par_page as nat));
        }
        d = fin;
    }
    assert(ls.skip(d as int) =~= Seq::<Seq<char>>::empty());
    assert(vues_pages(r@) + Seq::<Seq<Seq<char>>>::empty() =~= vues_pages(r@));
    r
}

/// The lines of a PDF made from a text: its lines wrapped at
/// `CARACTERES_PAR_LIGNE` characters.
pub open spec fn lignes_pdf(texte: Seq<char>) -> Seq<Seq<char>> {
    coupe_lignes(lignes_texte(texte), CARACTERES_PAR_LIGNE as nat)
}

/// The pages of a PDF made from a text: its wrapped lines grouped by
/// `LIGNES_PAR_PAGE`; an empty text gives one blank page.
pub open spec fn pages_texte(texte: Seq<char>) -> Seq<Seq<Seq<char>>> {
    if lignes_pdf(texte).len() == 0 {
        seq![Seq::<Seq<char>>::empty()]
    } else {
        paquets(lignes_pdf(texte), LIGNES_PAR_PAGE as nat)
    }
}

/// Grouping `m` lines by `n` gives `m / n` pages, rounded up.
pub proof fn lemma_nombre_paquets(ls: Seq<Seq<char>>, n: nat)
    requires
        n > 0,
    ensures
        paquets(ls, n).len() == (ls.len() + n - 1) / (n as int),
    decreases ls.len(),
{
    let m = ls.len() as int;
    let k = n as int;
    if ls.len() == 0 {
        assert((k - 1) / k == 0) by (nonlinear_arith) requires k > 0;
    } else if ls.len() <= n {
        assert((m + k - 1) / k == 1) by (nonlinear_arith) requires k > 0, 0 < m <= k;
    } else {
        lemma_nombre_paquets(ls.skip(n as int), n);
        assert(ls.skip(n as int).len() == m - k);
        assert((m + k - 1) / k == (m - k + k - 1) / k + 1) by (nonlinear_arith) requires k > 0, m > k;
    }
}

/// The pages of text of a PDF made from a text (`texte_vers_pdf`): see
/// `pages_texte`. There are as many pages as `LIGNES_PAR_PAGE` lines need,
/// at least one, and no line is wider than `CARACTERES_PAR_LIGNE`.
pub fn texte_vers_pages(texte: &str) -> (r: Vec<Vec<String>>)
    ensures
        vues_pages(r@) == pages_texte(texte@),
        r.len() == if lignes_pdf(texte@).len() == 0 { 1 } else {
            (lignes_pdf(texte@).len() + LIGNES_PAR_PAGE - 1) / (LIGNES_PAR_PAGE as int)
        },
        forall|i: int, j: int| 0 <= i < r.len() && 0 <= j < r@[i].len()
            ==> (#[trigger] r@[i]@[j])@.len() <= CARACTERES_PAR_LIGNE,
{
    let lignes = decouper_texte(texte, CARACTERES_PAR_LIGNE);
    if lignes.len() == 0 {
        let r: Vec<Vec<String>> = vec![Vec::new()];
        assert(vues_pages(r@) =~= pages_texte(texte@)) by {
            assert(vues_pages(r@)[0] =~= Seq::<Seq<char>>::empty());
        }
        return r;
    }
    let r = paginer(&lignes, LIGNES_PAR_PAGE);
    proof {
        lemma_nombre_paquets(vues_chaines(lignes@), LIGNES_PAR_PAGE as nat);
        assert(vues_pages(r@).len() == r.len());
        let ls = vues_chaines(lignes@);
        assert forall|a: int| 0 <= a < ls.len() implies (#[trigger] ls[a]).len() <= CARACTERES_PAR_LIGNE by {
            assert(ls[a] == lignes@[a]@);
        }
        lemma_paquets_largeur(ls, LIGNES_PAR_PAGE as nat, CARACTERES_PAR_LIGNE as nat);
        assert forall|i: int, j: int| 0 <= i < r.len() && 0 <= j < r@[i].len()
            implies (#[trigger] r@[i]@[j])@.len() <= CARACTERES_PAR_LIGNE by {
            assert(vues_pages(r@)[i] == vues_chaines(r@[i]@));
            assert(vues_chaines(r@[i]@)[j] == r@[i]@[j]@);
        }
    }
    r
}

/// The lines of the pages are lines grouped: a bound on the width of the
/// lines holds on the pages.
proof fn lemma_paquets_largeur(ls: Seq<Seq<char>>, n: nat, max: nat)
    requires
        n > 0,
        forall|a: int| 0 <= a < ls.len() ==> (#[trigger] ls[a]).len() <= max,
    ensures
        forall|i: int, j: int| 0 <= i < paquets(ls, n).len() && 0 <= j < paquets(ls, n)[i].len()
            ==> (#[trigger] paquets(ls, n)[i][j]).len() <= max,
    decreases ls.len(),
{
    let p = paquets(ls, n);
    if ls.len() > n {
        let t = ls.skip(n as int);
        assert forall|a: int| 0 <= a < t.len() implies (#[trigger] t[a]).len() <= max by {
            assert(t[a] == ls[a + n]);
        }
        lemma_paquets_largeur(t, n, max);
        let q = paquets(t, n);
        assert forall|i: int, j: int| 0 <= i < p.len() && 0 <= j < p[i].len()
            implies (#[trigger] p[i][j]).len() <= max by {
            if i == 0 {
                assert(p[0][j] == ls[j]);
            } else {
                assert(p[i] == q[i - 1]);
            }
        }
    } else if ls.len() > 0 {
        assert forall|i: int, j: int| 0 <= i < p.len() && 0 <= j < p[i].len()
            implies (#[trigger] p[i][j]).len() <= max by {
            assert(p[i][j] == ls[j]);
        }
    }
}

/// The lines of a text (`str::lines`): see `lignes_texte`.
pub fn lignes(texte: &str) -> (r: Vec<String>)
    ensures
        vues_chaines(r@) == lignes_texte(texte@),
{
    let v = crate::texte::caracteres(texte);
    let m = crate::texte::decouper(&v, '\n');
    let ghost mv = crate::texte::vues(m@);
    let ghost ls = lignes_texte(texte@);
    proof { lemma_morceaux_non_vides(texte@, '\n'); }
    let mut out: Vec<String> = Vec::new();
    let mut i: usize = 0;
    let n = m.len();
    while i + 1 < n
        invariant
            n == m.len(),
            n >= 1,
            i + 1 <= n,
            mv == crate::texte::vues(m@),
            mv == morceaux(texte@, '\n'),
            ls == lignes_texte(texte@),
            vues_chaines(out@) == ls.take(i as int),
        decreases n - i,
    {
        let piece = &m[i];
        let mut fin = piece.len();
        if fin > 0 && piece[fin - 1] == '\r' {
            fin -= 1;
        }
        let ligne = extrait(piece, 0, fin);
        assert(mv[i as int] == piece@);
        assert(ligne@ == sans_cr(piece@)) by {
            if piece@.len() > 0 && piece@.last() == '\r' {
                assert(piece@.subrange(0, fin as int) =~= piece@.drop_last());
            } else {
                assert(piece@.subrange(0, fin as int) =~= piece@);
            }
        }
        assert(ls[i as int] == ligne@);
        let ghost avant = vues_chaines(out@);
        let c = chaine(&ligne);
        out.push(c);
        assert(vues_chaines(out@) =~= avant.push(ligne@));
        assert(ls.take(i + 1) =~= ls.take(i as int).push(ligne@));
        i += 1;
    }
    let dernier = &m[n - 1];
    assert(mv[n - 1] == dernier@);
    if dernier.len() > 0 {
        let ghost avant = vues_chaines(out@);
        assert(ls.len() == n);
        assert(ls[n - 1] == dernier@);
        let c = chaine(dernier);
        out.push(c);
        assert(vues_chaines(out@) =~= avant.push(dernier@));
        assert(ls =~= ls.take(n - 1).push(dernier@));
    } else {
        assert(ls =~= ls.take(n - 1));
    }
    out
}

} // verus!
