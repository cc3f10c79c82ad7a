use vstd::prelude::*;

verus! {

broadcast use vstd::string::group_string_axioms;

// ───────────────────────── specifications ─────────────────────────

/// Unicode `White_Space` (what `char::is_whitespace` tests).
pub open spec fn est_espace_spec(c: char) -> bool {
    ||| ('\t' <= c && c <= '\r')
    ||| c == ' '
    ||| c == '\u{85}'
    ||| c == '\u{A0}'
    ||| c == '\u{1680}'
    ||| ('\u{2000}' <= c && c <= '\u{200A}')
    ||| c == '\u{2028}'
    ||| c == '\u{2029}'
    ||| c == '\u{202F}'
    ||| c == '\u{205F}'
    ||| c == '\u{3000}'
}

/// The text without its leading white space.
pub open spec fn sans_espaces_debut(s: Seq<char>) -> Seq<char>
    decreases s.len(),
{
    if s.len() > 0 && est_espace_spec(s[0]) {
        sans_espaces_debut(s.drop_first())
    } else {
        s
    }
}

/// The text without its trailing white space.
pub open spec fn sans_espaces_fin(s: Seq<char>) -> Seq<char>
    decreases s.len(),
{
    if s.len() > 0 && est_espace_spec(s.last()) {
        sans_espaces_fin(s.drop_last())
    } else {
        s
    }
}

/// The text without leading and trailing white space (`str::trim`).
pub open spec fn rogne(s: Seq<char>) -> Seq<char> {
    sans_espaces_fin(sans_espaces_debut(s))
}

/// The pieces of `s` between the occurrences of `sep` (`str::split` on a char).
pub open spec fn morceaux(s: Seq<char>, sep: char) -> Seq<Seq<char>>
    decreases s.len(),
{
    if s.len() == 0 {
        seq![Seq::<char>::empty()]
    } else {
        let r = morceaux(s.drop_last(), sep);
        if s.last() == sep {
            r.push(Seq::<char>::empty())
        } else {
            r.update(r.len() - 1, r.last().push(s.last()))
        }
    }
}

pub open spec fn est_chiffre_spec(c: char) -> bool {
    '0' <= c && c <= '9'
}

pub open spec fn tous_chiffres(s: Seq<char>) -> bool {
    forall|i: int| 0 <= i < s.len() ==> est_chiffre_spec(#[trigger] s[i])
}

/// The number that a string of decimal digits writes.
pub open spec fn valeur_chiffres(s: Seq<char>) -> nat
    decreases s.len(),
{
    if s.len() == 0 {
        0
    } else {
        valeur_chiffres(s.drop_last()) * 10 + ((s.last() as nat) - ('0' as nat)) as nat
    }
}

/// What `str::parse::<u32>` gives: an optional `+`, then at least one
/// ASCII digit, and a value that fits in a `u32`.
pub open spec fn lecture_u32(s: Seq<char>) -> Option<u32> {
    lecture_chiffres(sans_plus(s))
}

pub open spec fn sans_plus(s: Seq<char>) -> Seq<char> {
    if s.len() > 0 && s[0] == '+' { s.drop_first() } else { s }
}

pub open spec fn lecture_chiffres(d: Seq<char>) -> Option<u32> {
    if d.len() == 0 || !tous_chiffres(d) || valeur_chiffres(d) > u32::MAX {
        None
    } else {
        Some(valeur_chiffres(d) as u32)
    }
}

// ───────────────────────── lemmas ─────────────────────────

proof fn lemma_debut(s: Seq<char>, i: int)
    requires
        0 <= i <= s.len(),
        forall|j: int| 0 <= j < i ==> est_espace_spec(#[trigger] s[j]),
    ensures
        sans_espaces_debut(s) == sans_espaces_debut(s.skip(i)),
    decreases i,
{
    if i == 0 {
        assert(s.skip(0) =~= s);
    } else {
        assert(s.drop_first().skip(i - 1) =~= s.skip(i));
        assert forall|j: int| 0 <= j < i - 1 implies est_espace_spec(#[trigger] s.drop_first()[j]) by {
            assert(s.drop_first()[j] == s[j + 1]);
        }
        lemma_debut(s.drop_first(), i - 1);
    }
}

proof fn lemma_fin(s: Seq<char>, j: int)
    requires
        0 <= j <= s.len(),
        forall|k: int| j <= k < s.len() ==> est_espace_spec(#[trigger] s[k]),
    ensures
        sans_espaces_fin(s) == sans_espaces_fin(s.take(j)),
    decreases s.len() - j,
{
    if j == s.len() {
        assert(s.take(j) =~= s);
    } else {
        assert(s.drop_last().take(j) =~= s.take(j));
        lemma_fin(s.drop_last(), j);
    }
}

proof fn lemma_valeur_bornee(s: Seq<char>)
    requires
        tous_chiffres(s),
    ensures
        valeur_chiffres(s) < pow10(s.len()),
    decreases s.len(),
{
    if s.len() > 0 {
        assert(tous_chiffres(s.drop_last())) by {
            assert forall|i: int| 0 <= i < s.drop_last().len() implies est_chiffre_spec(#[trigger] s.drop_last()[i]) by {
                assert(s.drop_last()[i] == s[i]);
            }
        }
        lemma_valeur_bornee(s.drop_last());
        assert(est_chiffre_spec(s[s.len() - 1]));
    }
}

pub open spec fn pow10(n: nat) -> nat
    decreases n,
{
    if n == 0 { 1 } else { 10 * pow10((n - 1) as nat) }
}

// ───────────────────────── executable ─────────────────────────

/// Appends one character to a string (std's `String::push`).
#[verifier::external_body]
pub(crate) fn pousser(s: &mut String, c: char)
    ensures
        final(s)@ == old(s)@.push(c),
{
    s.push(c);
}

/// The characters of a string, in order.
pub fn caracteres(s: &str) -> (v: Vec<char>)
    ensures
        v@ == s@,
{
    let mut v: Vec<char> = Vec::new();
    for c in it: s.chars()
        invariant
            it.seq() == s@,
            v@ == it.seq().take(it.index() as int),
    {
        v.push(c);
    }
    v
}

/// The string written by a sequence of characters.
pub fn chaine(v: &[char]) -> (s: String)
    ensures
        s@ == v@,
{
    let mut s = String::new();
    let mut i: usize = 0;
    while i < v.len()
        invariant
            i <= v.len(),
            s@ == v@.take(i as int),
        decreases v.len() - i,
    {
        pousser(&mut s, v[i]);
        assert(v@.take(i as int).push(v@[i as int]) =~= v@.take(i + 1));
        i += 1;
    }
    assert(v@.take(v.len() as int) =~= v@);
    s
}

/// Appends characters to a string.
pub fn ajouter_caracteres(s: &mut String, v: &[char])
    ensures
        final(s)@ == old(s)@ + v@,
{
    let mut i: usize = 0;
    while i < v.len()
        invariant
            i <= v.len(),
            s@ == old(s)@ + v@.take(i as int),
        decreases v.len() - i,
    {
        pousser(s, v[i]);
        assert(old(s)@ + v@.take(i as int).push(v@[i as int]) =~= old(s)@ + v@.take(i + 1));
        i += 1;
    }
    assert(v@.take(v.len() as int) =~= v@);
}

pub fn est_espace(c: char) -> (r: bool)
    ensures
        r == est_espace_spec(c),
{
    ('\t' <= c && c <= '\r') || c == ' ' || c == '\u{85}' || c == '\u{A0}' || c == '\u{1680}'
        || ('\u{2000}' <= c && c <= '\u{200A}') || c == '\u{2028}' || c == '\u{2029}'
        || c == '\u{202F}' || c == '\u{205F}' || c == '\u{3000}'
}

/// A copy of `v[debut..fin]`.
pub fn extrait(v: &[char], debut: usize, fin: usize) -> (r: Vec<char>)
    requires
        debut <= fin <= v.len(),
    ensures
        r@ == v@.subrange(debut as int, fin as int),
{
    let mut r: Vec<char> = Vec::new();
    let mut i = debut;
    while i < fin
        invariant
            debut <= i <= fin,
            fin <= v.len(),
            r@ == v@.subrange(debut as int, i as int),
        decreases fin - i,
    {
        r.push(v[i]);
        assert(v@.subrange(debut as int, i as int).push(v@[i as int]) =~= v@.subrange(
            debut as int,
            i + 1,
        ));
        i += 1;
    }
    r
}

/// `v` without leading and trailing white space.
pub fn rogner(v: &[char]) -> (r: Vec<char>)
    ensures
        r@ == rogne(v@),
{
    let n = v.len();
    let mut i: usize = 0;
    while i < n && est_espace(v[i])
        invariant
            i <= n,
            n == v.len(),
            forall|j: int| 0 <= j < i ==> est_espace_spec(#[trigger] v@[j]),
        decreases n - i,
    {
        i += 1;
    }
    proof {
        lemma_debut(v@, i as int);
    }
    let ghost t = v@.skip(i as int);
    assert(sans_espaces_debut(t) == t);
    let mut j: usize = n;
    while j > i && est_espace(v[j - 1])
        invariant
            i <= j <= n,
            n == v.len(),
            t == v@.skip(i as int),
            forall|k: int| (j - i) <= k < t.len() ==> est_espace_spec(#[trigger] t[k]),
        decreases j,
    {
        assert(t[j - 1 - i] == v@[j - 1]);
        j -= 1;
    }
    proof {
        lemma_fin(t, (j - i) as int);
        assert(t.take((j - i) as int) =~= v@.subrange(i as int, j as int));
        if j > i {
            assert(t.take((j - i) as int).last() == v@[j - 1]);
        }
        assert(sans_espaces_fin(t.take((j - i) as int)) == t.take((j - i) as int));
    }
    extrait(v, i, j)
}

/// Parses a decimal `u32` as `str::parse::<u32>` does.
pub fn lire_u32(v: &[char]) -> (r: Option<u32>)
    ensures
        r == lecture_u32(v@),
{
    let debut: usize = if v.len() > 0 && v[0] == '+' { 1 } else { 0 };
    let ghost d = sans_plus(v@);
    assert(d =~= v@.skip(debut as int));
    if debut == v.len() {
        return None;
    }
    let mut valeur: u64 = 0;
    let mut i = debut;
    while i < v.len()
        invariant
            debut <= i <= v.len(),
            d =~= v@.skip(debut as int),
            d == sans_plus(v@),
            d.len() > 0,
            tous_chiffres(d.take(i - debut)),
            valeur == valeur_chiffres(d.take(i - debut)),
            valeur <= u32::MAX,
        decreases v.len() - i,
    {
        let c = v[i];
        if !('0' <= c && c <= '9') {
            assert(d[i - debut] == c);
            assert(!tous_chiffres(d));
            return None;
        }
        let chiffre = (c as u32 - '0' as u32) as u64;
        let ghost avant = d.take(i - debut);
        assert(d.take(i + 1 - debut).drop_last() =~= avant);
        assert(d.take(i + 1 - debut).last() == c);
        valeur = valeur * 10 + chiffre;
        assert(valeur == valeur_chiffres(d.take(i + 1 - debut)));
        assert(tous_chiffres(d.take(i + 1 - debut))) by {
            assert forall|k: int| 0 <= k < d.take(i + 1 - debut).len() implies est_chiffre_spec(
                #[trigger] d.take(i + 1 - debut)[k],
            ) by {
                if k < i - debut {
                    assert(d.take(i + 1 - debut)[k] == avant[k]);
                }
            }
        }
        if valeur > u32::MAX as u64 {
            proof {
                lemma_croissance(d, (i + 1 - debut) as int);
                assert(lecture_u32(v@) is None);
            }
            return None;
        }
        i += 1;
    }
    assert(d.take(v.len() - debut) =~= d);
    Some(valeur as u32)
}

/// A longer run of digits never writes a smaller number.
proof fn lemma_croissance(d: Seq<char>, k: int)
    requires
        0 <= k <= d.len(),
        tous_chiffres(d.take(k)),
    ensures
        tous_chiffres(d) ==> valeur_chiffres(d.take(k)) <= valeur_chiffres(d),
    decreases d.len() - k,
{
    if k < d.len() && tous_chiffres(d) {
        assert(d.take(k + 1).drop_last() =~= d.take(k));
        assert(est_chiffre_spec(d[k]));
        assert(tous_chiffres(d.take(k + 1))) by {
            assert forall|j: int| 0 <= j < d.take(k + 1).len() implies est_chiffre_spec(
                #[trigger] d.take(k + 1)[j],
            ) by {
                assert(d.take(k + 1)[j] == d[j]);
            }
        }
        lemma_croissance(d, k + 1);
    } else if k == d.len() {
        assert(d.take(k) =~= d);
    }
}

} // verus!

verus! {

/// The texts that a list of character vectors holds.
pub open spec fn vues(r: Seq<Vec<char>>) -> Seq<Seq<char>> {
    r.map_values(|x: Vec<char>| x@)
}

/// The pieces of `v` between the occurrences of `sep`, as `str::split` gives them.
pub fn decouper(v: &[char], sep: char) -> (r: Vec<Vec<char>>)
    ensures
        vues(r@) == morceaux(v@, sep),
{
    let mut r: Vec<Vec<char>> = Vec::new();
    let mut courant: Vec<char> = Vec::new();
    let mut i: usize = 0;
    assert(v@.take(0) =~= Seq::<char>::empty());
    assert(vues(r@).push(courant@) =~= morceaux(v@.take(0), sep));
    while i < v.len()
        invariant
            i <= v.len(),
            morceaux(v@.take(i as int), sep) == vues(r@).push(courant@),
        decreases v.len() - i,
    {
        let c = v[i];
        let ghost avant = vues(r@);
        let ghost cour = courant@;
        assert(v@.take(i + 1).drop_last() =~= v@.take(i as int));
        assert(v@.take(i + 1).last() == c);
        if c == sep {
            r.push(courant);
            courant = Vec::new();
            assert(vues(r@) =~= avant.push(cour));
            assert(vues(r@).push(courant@) =~= avant.push(cour).push(Seq::<char>::empty()));
        } else {
            courant.push(c);
            assert(vues(r@).push(courant@) =~= avant.push(cour).update(
                avant.len() as int,
                cour.push(c),
            ));
        }
        i += 1;
    }
    assert(v@.take(v.len() as int) =~= v@);
    r.push(courant);
    r
}

} // verus!

verus! {

// ───────────────────────── replacing ─────────────────────────

/// `s` with every occurrence of `motif`, taken from left to right without
/// overlap, replaced by `par` (`str::replace` with a non-empty pattern).
pub open spec fn remplace(s: Seq<char>, motif: Seq<char>, par: Seq<char>) -> Seq<char>
    decreases s.len(),
{
    if s.len() == 0 || motif.len() == 0 {
        s
    } else if motif.len() <= s.len() && s.take(motif.len() as int) == motif {
        par + remplace(s.skip(motif.len() as int), motif, par)
    } else {
        seq![s[0]] + remplace(s.drop_first(), motif, par)
    }
}

/// Whether `motif` occurs in `s` from position `i` on.
pub fn commence_par(s: &[char], i: usize, motif: &[char]) -> (r: bool)
    requires
        i <= s.len(),
    ensures
        r == (motif.len() <= s.len() - i && s@.skip(i as int).take(motif.len() as int) == motif@),
{
    if motif.len() > s.len() - i {
        return false;
    }
    let mut k: usize = 0;
    while k < motif.len()
        invariant
            k <= motif.len(),
            motif.len() <= s.len() - i,
            forall|j: int| 0 <= j < k ==> s@[i + j] == motif@[j],
        decreases motif.len() - k,
    {
        if s[i + k] != motif[k] {
            assert(s@.skip(i as int).take(motif.len() as int)[k as int] != motif@[k as int]);
            return false;
        }
        k += 1;
    }
    assert(s@.skip(i as int).take(motif.len() as int) =~= motif@);
    true
}

/// Replaces every occurrence of a non-empty `motif` by `par`.
pub fn remplacer(s: &[char], motif: &[char], par: &[char]) -> (r: Vec<char>)
    ensures
        r@ == remplace(s@, motif@, par@),
{
    if motif.len() == 0 {
        return extrait(s, 0, s.len());
    }
    let mut r: Vec<char> = Vec::new();
    let mut i: usize = 0;
    assert(s@.skip(0) =~= s@);
    while i < s.len()
        invariant
            i <= s.len(),
            motif.len() > 0,
            remplace(s@, motif@, par@) == r@ + remplace(s@.skip(i as int), motif@, par@),
        decreases s.len() - i,
    {
        let ghost reste = s@.skip(i as int);
        if commence_par(s, i, motif) {
            let ghost avant = r@;
            let mut k: usize = 0;
            while k < par.len()
                invariant
                    k <= par.len(),
                    r@ == avant + par@.take(k as int),
                decreases par.len() - k,
            {
                r.push(par[k]);
                assert(avant + par@.take(k as int).push(par@[k as int]) =~= avant + par@.take(k + 1));
                k += 1;
            }
            assert(par@.take(par.len() as int) =~= par@);
            assert(reste.skip(motif.len() as int) =~= s@.skip(i + motif.len()));
            assert(avant + (par@ + remplace(reste.skip(motif.len() as int), motif@, par@)) =~= r@ + remplace(s@.skip(i + motif.len()), motif@, par@));
            i = i + motif.len();
        } else {
            let ghost avant = r@;
            r.push(s[i]);
            assert(reste.drop_first() =~= s@.skip(i + 1));
            assert(reste[0] == s@[i as int]);
            assert(avant + (seq![reste[0]] + remplace(reste.drop_first(), motif@, par@)) =~= r@ + remplace(s@.skip(i + 1), motif@, par@));
            i = i + 1;
        }
    }
    assert(s@.skip(s.len() as int) =~= Seq::<char>::empty());
    assert(r@ + Seq::<char>::empty() =~= r@);
    r
}

// ───────────────────────── letter case ─────────────────────────

/// The ASCII lowercase of a character: `A`..`Z` become `a`..`z`, any other
/// character stays.
pub open spec fn ascii_minuscule(c: char) -> char {
    if 'A' <= c && c <= 'Z' { ((c as u32) + 32) as char } else { c }
}

/// The ASCII uppercase of a character: `a`..`z` become `A`..`Z`, any other
/// character stays.
pub open spec fn ascii_majuscule(c: char) -> char {
    if 'a' <= c && c <= 'z' { ((c as u32) - 32) as char } else { c }
}

/// Whether every character of a text is ASCII.
pub open spec fn est_ascii(s: Seq<char>) -> bool {
    forall|i: int| 0 <= i < s.len() ==> (#[trigger] s[i] as u32) < 0x80
}

/// What `char::to_lowercase` yields for a character.
pub uninterp spec fn minuscule(c: char) -> Seq<char>;

/// What `char::to_uppercase` yields for a character.
pub uninterp spec fn majuscule(c: char) -> Seq<char>;

/// The lowercase form of a character, from std's `char::to_lowercase`
/// (one or more characters; the mapping is Unicode's and is left unstated).
#[verifier::external_body]
pub(crate) fn minuscule_de(c: char) -> (r: Vec<char>)
    ensures
        r@ == minuscule(c),
        (c as u32) < 0x80 ==> r@ == seq![ascii_minuscule(c)],
{
    c.to_lowercase().collect()
}

/// The uppercase form of a character, from std's `char::to_uppercase`
/// (one or more characters; the mapping is Unicode's and is left unstated).
#[verifier::external_body]
pub(crate) fn majuscule_de(c: char) -> (r: Vec<char>)
    ensures
        r@ == majuscule(c),
        (c as u32) < 0x80 ==> r@ == seq![ascii_majuscule(c)],
{
    c.to_uppercase().collect()
}

/// What `str::to_lowercase` gives for a text (Unicode's lowercase mapping of
/// each character, with the rule for a word-final capital sigma).
pub uninterp spec fn en_minuscules(s: Seq<char>) -> Seq<char>;

/// A text in lowercase, from std's `str::to_lowercase`.
#[verifier::external_body]
fn minuscules_de(s: &str) -> (r: String)
    ensures
        r@ == en_minuscules(s@),
        est_ascii(s@) ==> r@ == s@.map_values(|c: char| ascii_minuscule(c)),
{
    s.to_lowercase()
}

/// `s` with each character mapped through `majuscule` (`str::to_uppercase`).
pub open spec fn en_majuscules(s: Seq<char>) -> Seq<char>
    decreases s.len(),
{
    if s.len() == 0 { s } else { en_majuscules(s.drop_last()) + majuscule(s.last()) }
}

/// A text in lowercase (`str::to_lowercase`): an ASCII text has each of
/// `A`..`Z` lowered and its other characters kept.
pub open spec fn minuscules_texte(s: Seq<char>) -> Seq<char> {
    if est_ascii(s) { s.map_values(|c: char| ascii_minuscule(c)) } else { en_minuscules(s) }
}

pub fn vers_minuscules(s: &[char]) -> (r: Vec<char>)
    ensures
        r@ == en_minuscules(s@),
        est_ascii(s@) ==> r@ == s@.map_values(|c: char| ascii_minuscule(c)),
        r@ == minuscules_texte(s@),
{
    let t = chaine(s);
    let r = caracteres(minuscules_de(t.as_str()).as_str());
    assert(t@ == s@);
    r
}

pub fn vers_majuscules(s: &[char]) -> (r: Vec<char>)
    ensures
        r@ == en_majuscules(s@),
        est_ascii(s@) ==> r@ == s@.map_values(|c: char| ascii_majuscule(c)),
{
    let mut r: Vec<char> = Vec::new();
    let mut i: usize = 0;
    assert(s@.take(0) =~= Seq::<char>::empty());
    while i < s.len()
        invariant
            i <= s.len(),
            r@ == en_majuscules(s@.take(i as int)),
            est_ascii(s@) ==> r@ == s@.take(i as int).map_values(|c: char| ascii_majuscule(c)),
        decreases s.len() - i,
    {
        let m = majuscule_de(s[i]);
        let ghost avant = r@;
        r.append(&mut m.clone());
        proof {
            if est_ascii(s@) {
                assert((s@[i as int] as u32) < 0x80);
                assert(s@.take(i + 1).map_values(|c: char| ascii_majuscule(c))
                    =~= s@.take(i as int).map_values(|c: char| ascii_majuscule(c)).push(ascii_majuscule(s@[i as int])));
            }
        }
        assert(s@.take(i + 1).drop_last() =~= s@.take(i as int));
        assert(s@.take(i + 1).last() == s@[i as int]);
        i += 1;
    }
    assert(s@.take(s.len() as int) =~= s@);
    r
}

// ───────────────────────── decimal numbers ─────────────────────────

/// The decimal writing of `n`, without leading zeros (`"0"` for zero).
pub open spec fn decimal(n: nat) -> Seq<char>
    decreases n,
{
    if n < 10 {
        seq![chiffre(n)]
    } else {
        decimal(n / 10).push(chiffre(n % 10))
    }
}

pub open spec fn chiffre(d: nat) -> char {
    (('0' as nat) + d) as char
}

pub proof fn lemma_decimal_chiffres(n: nat)
    ensures
        decimal(n).len() >= 1,
        tous_chiffres(decimal(n)),
        valeur_chiffres(decimal(n)) == n,
        est_chiffre_spec(decimal(n)[0]),
    decreases n,
{
    if n < 10 {
        let c = chiffre(n);
        assert(c as nat == ('0' as nat) + n);
        assert(decimal(n) =~= seq![c]);
        assert(seq![c].drop_last() =~= Seq::<char>::empty());
        assert(valeur_chiffres(seq![c]) == valeur_chiffres(Seq::<char>::empty()) * 10 + ((c as nat) - ('0' as nat)) as nat);
    } else {
        lemma_decimal_chiffres(n / 10);
        let s = decimal(n / 10);
        let c = chiffre(n % 10);
        assert(c as nat == ('0' as nat) + n % 10);
        assert(decimal(n) == s.push(c));
        assert(s.push(c).drop_last() =~= s);
        assert(tous_chiffres(s.push(c))) by {
            assert forall|i: int| 0 <= i < s.push(c).len() implies est_chiffre_spec(#[trigger] s.push(c)[i]) by {
                if i < s.len() {
                    assert(s.push(c)[i] == s[i]);
                }
            }
        }
        assert(s.push(c)[0] == s[0]);
        assert(valeur_chiffres(s.push(c)) == valeur_chiffres(s) * 10 + ((c as nat) - ('0' as nat)) as nat);
        assert((n / 10) * 10 + n % 10 == n) by (nonlinear_arith);
    }
}

/// Reading back the decimal writing of a `u32` gives it back.
pub proof fn lemma_lecture_decimal(n: nat)
    requires
        n <= u32::MAX,
    ensures
        lecture_u32(decimal(n)) == Some(n as u32),
{
    lemma_decimal_chiffres(n);
    assert(sans_plus(decimal(n)) == decimal(n));
}

/// The decimal writing of a number starts with a zero only for zero itself.
pub proof fn lemma_decimal_tete(n: nat)
    ensures
        n > 0 ==> decimal(n)[0] != '0',
        n == 0 ==> decimal(n) == seq!['0'],
    decreases n,
{
    if n < 10 {
        let c = chiffre(n);
        assert(c as nat == ('0' as nat) + n);
        assert(decimal(n) =~= seq![c]);
    } else {
        lemma_decimal_tete(n / 10);
        lemma_decimal_chiffres(n / 10);
        assert(decimal(n)[0] == decimal(n / 10)[0]);
    }
}

proof fn lemma_zeros_nuls(z: Seq<char>)
    requires
        forall|i: int| 0 <= i < z.len() ==> #[trigger] z[i] == '0',
    ensures
        valeur_chiffres(z) == 0,
        tous_chiffres(z),
    decreases z.len(),
{
    if z.len() > 0 {
        assert forall|i: int| 0 <= i < z.drop_last().len() implies #[trigger] z.drop_last()[i] == '0' by {
            assert(z.drop_last()[i] == z[i]);
        }
        lemma_zeros_nuls(z.drop_last());
        assert(z.last() == '0');
    }
}

/// Zeros written before digits change neither their value nor that they
/// are digits.
pub proof fn lemma_zeros_devant(z: Seq<char>, s: Seq<char>)
    requires
        forall|i: int| 0 <= i < z.len() ==> #[trigger] z[i] == '0',
        tous_chiffres(s),
    ensures
        valeur_chiffres(z + s) == valeur_chiffres(s),
        tous_chiffres(z + s),
    decreases s.len(),
{
    lemma_zeros_nuls(z);
    if s.len() == 0 {
        assert(z + s =~= z);
    } else {
        assert forall|i: int| 0 <= i < s.drop_last().len() implies est_chiffre_spec(#[trigger] s.drop_last()[i]) by {
            assert(s.drop_last()[i] == s[i]);
        }
        lemma_zeros_devant(z, s.drop_last());
        assert((z + s).drop_last() =~= z + s.drop_last());
        assert((z + s).last() == s.last());
        assert forall|i: int| 0 <= i < (z + s).len() implies est_chiffre_spec(#[trigger] (z + s)[i]) by {
            if i < z.len() {
                assert((z + s)[i] == z[i]);
            } else {
                assert((z + s)[i] == s[i - z.len()]);
            }
        }
    }
}

/// `s` left-padded with `'0'` up to `largeur` characters (`{:0width$}`).
pub open spec fn avec_zeros(s: Seq<char>, largeur: nat) -> Seq<char> {
    if s.len() >= largeur {
        s
    } else {
        Seq::new((largeur - s.len()) as nat, |_i: int| '0') + s
    }
}

/// The decimal writing of a number.
pub fn ecrire_decimal(n: u128) -> (r: Vec<char>)
    ensures
        r@ == decimal(n as nat),
    decreases n,
{
    let c = (('0' as u8) + ((n % 10) as u8)) as char;
    if n < 10 {
        let mut r = Vec::new();
        r.push(c);
        r
    } else {
        let mut r = ecrire_decimal(n / 10);
        r.push(c);
        r
    }
}

/// The decimal writing of a number, left-padded with zeros.
pub fn ecrire_decimal_zeros(n: u128, largeur: usize) -> (r: Vec<char>)
    ensures
        r@ == avec_zeros(decimal(n as nat), largeur as nat),
{
    let d = ecrire_decimal(n);
    if d.len() >= largeur {
        return d;
    }
    let mut r: Vec<char> = Vec::new();
    let manque = largeur - d.len();
    let mut k: usize = 0;
    while k < manque
        invariant
            k <= manque,
            r@ == Seq::new(k as nat, |_i: int| '0'),
        decreases manque - k,
    {
        r.push('0');
        assert(r@ =~= Seq::new((k + 1) as nat, |_i: int| '0'));
        k += 1;
    }
    let mut i: usize = 0;
    while i < d.len()
        invariant
            i <= d.len(),
            r@ == Seq::new(manque as nat, |_i: int| '0') + d@.take(i as int),
        decreases d.len() - i,
    {
        r.push(d[i]);
        assert(Seq::new(manque as nat, |_i: int| '0') + d@.take(i as int).push(d@[i as int]) =~= Seq::new(manque as nat, |_i: int| '0') + d@.take(i + 1));
        i += 1;
    }
    assert(d@.take(d.len() as int) =~= d@);
    r
}

} // verus!

verus! {

/// `a` followed by `b`.
pub fn concat(a: &[char], b: &[char]) -> (r: Vec<char>)
    ensures
        r@ == a@ + b@,
{
    let mut r = extrait(a, 0, a.len());
    assert(a@.subrange(0, a.len() as int) =~= a@);
    let mut i: usize = 0;
    while i < b.len()
        invariant
            i <= b.len(),
            r@ == a@ + b@.take(i as int),
        decreases b.len() - i,
    {
        r.push(b[i]);
        assert(a@ + b@.take(i as int).push(b@[i as int]) =~= a@ + b@.take(i + 1));
        i += 1;
    }
    assert(b@.take(b.len() as int) =~= b@);
    r
}

/// Whether `c` is one of the characters of `ens`.
pub fn contient(ens: &[char], c: char) -> (r: bool)
    ensures
        r == ens@.contains(c),
{
    let mut i: usize = 0;
    while i < ens.len()
        invariant
            i <= ens.len(),
            forall|j: int| 0 <= j < i ==> ens@[j] != c,
        decreases ens.len() - i,
    {
        if ens[i] == c {
            assert(ens@[i as int] == c);
            return true;
        }
        i += 1;
    }
    false
}

} // verus!

verus! {

/// Whether two character sequences are equal.
pub fn egal(a: &[char], b: &[char]) -> (r: bool)
    ensures
        r == (a@ == b@),
{
    if a.len() != b.len() {
        return false;
    }
    let mut i: usize = 0;
    while i < a.len()
        invariant
            i <= a.len(),
            a.len() == b.len(),
            forall|j: int| 0 <= j < i ==> a@[j] == b@[j],
        decreases a.len() - i,
    {
        if a[i] != b[i] {
            return false;
        }
        i += 1;
    }
    assert(a@ =~= b@);
    true
}

} // verus!

verus! {

/// The texts of a list of strings.
pub open spec fn vues_chaines(v: Seq<String>) -> Seq<Seq<char>> {
    v.map_values(|s: String| s@)
}

/// Whether one of the strings of `v` is `s`.
pub fn contient_chaine(v: &Vec<String>, s: &[char]) -> (r: bool)
    ensures
        r == vues_chaines(v@).contains(s@),
{
    let mut i: usize = 0;
    while i < v.len()
        invariant
            i <= v.len(),
            forall|j: int| 0 <= j < i ==> v@[j]@ != s@,
        decreases v.len() - i,
    {
        let c = caracteres(v[i].as_str());
        if egal(&c, s) {
            assert(vues_chaines(v@)[i as int] == s@);
            return true;
        }
        i += 1;
    }
    assert forall|j: int| 0 <= j < vues_chaines(v@).len() implies vues_chaines(v@)[j] != s@ by {
        assert(vues_chaines(v@)[j] == v@[j]@);
    }
    false
}

/// Whether `s` is `lit`.
pub fn est_mot(s: &str, lit: &str) -> (r: bool)
    ensures
        r == (s@ == lit@),
{
    let a = caracteres(s);
    let b = caracteres(lit);
    egal(&a, &b)
}

} // verus!

verus! {

/// The texts of `parts` with `sep` between two consecutive ones.
pub open spec fn joindre(parts: Seq<Seq<char>>, sep: Seq<char>) -> Seq<char>
    decreases parts.len(),
{
    if parts.len() == 0 {
        Seq::empty()
    } else if parts.len() == 1 {
        parts[0]
    } else {
        joindre(parts.drop_last(), sep) + sep + parts.last()
    }
}


/// The words of `s`: its maximal runs of non-white-space characters
/// (`str::split_whitespace`).
pub open spec fn mots(s: Seq<char>) -> Seq<Seq<char>>
    decreases s.len(),
{
    if s.len() == 0 {
        Seq::empty()
    } else {
        let m = mots(s.drop_last());
        let c = s.last();
        if est_espace_spec(c) {
            m
        } else if s.len() >= 2 && !est_espace_spec(s[s.len() - 2]) && m.len() > 0 {
            m.update(m.len() - 1, m.last().push(c))
        } else {
            m.push(seq![c])
        }
    }
}

proof fn lemma_mots_non_vides(s: Seq<char>)
    ensures
        s.len() > 0 && !est_espace_spec(s.last()) ==> mots(s).len() > 0,
    decreases s.len(),
{
    if s.len() > 0 {
        lemma_mots_non_vides(s.drop_last());
    }
}

proof fn lemma_joindre_allonge(m: Seq<Seq<char>>, sep: Seq<char>, c: char)
    requires
        m.len() > 0,
    ensures
        joindre(m.update(m.len() - 1, m.last().push(c)), sep) == joindre(m, sep).push(c),
{
    let m2 = m.update(m.len() - 1, m.last().push(c));
    if m.len() == 1 {
        assert(m2[0] == m[0].push(c));
    } else {
        assert(m2.drop_last() =~= m.drop_last());
        assert(m2.last() == m.last().push(c));
        assert(joindre(m, sep) == joindre(m.drop_last(), sep) + sep + m.last());
        assert(joindre(m.drop_last(), sep) + sep + m.last().push(c) =~= (joindre(m.drop_last(), sep) + sep + m.last()).push(c));
    }
}

proof fn lemma_joindre_ajoute(m: Seq<Seq<char>>, sep: Seq<char>, w: Seq<char>)
    ensures
        joindre(m.push(w), sep) == if m.len() == 0 { w } else { joindre(m, sep) + sep + w },
{
    assert(m.push(w).drop_last() =~= m);
    if m.len() == 0 {
        assert(m.push(w)[0] == w);
    }
}

/// The words of `s` with one space between two of them
/// (`split_whitespace` joined by `" "`).
pub fn espaces_normalises(s: &[char]) -> (r: Vec<char>)
    ensures
        r@ == joindre(mots(s@), seq![' ']),
{
    let mut r: Vec<char> = Vec::new();
    let mut i: usize = 0;
    let mut vu = false;
    assert(s@.take(0) =~= Seq::<char>::empty());
    while i < s.len()
        invariant
            i <= s.len(),
            vu == (mots(s@.take(i as int)).len() > 0),
            r@ == joindre(mots(s@.take(i as int)), seq![' ']),
        decreases s.len() - i,
    {
        let c = s[i];
        let ghost t = s@.take(i + 1);
        let ghost m = mots(s@.take(i as int));
        assert(t.drop_last() =~= s@.take(i as int));
        assert(t.last() == c);
        if i > 0 {
            assert(t[t.len() - 2] == s@[i - 1]);
            assert(s@.take(i as int).last() == s@[i - 1]);
        }
        proof {
            lemma_mots_non_vides(s@.take(i as int));
        }
        if est_espace(c) {
        } else if i > 0 && !est_espace(s[i - 1]) {
            proof {
                lemma_joindre_allonge(m, seq![' '], c);
            }
            r.push(c);
        } else {
            proof {
                lemma_joindre_ajoute(m, seq![' '], seq![c]);
            }
            if vu {
                r.push(' ');
            }
            r.push(c);
            vu = true;
            assert(m.len() == 0 ==> r@ =~= seq![c]);
            assert(m.len() > 0 ==> r@ =~= joindre(m, seq![' ']) + seq![' '] + seq![c]);
        }
        i += 1;
    }
    assert(s@.take(s.len() as int) =~= s@);
    r
}

/// `v` without its leading white space (`str::trim_start`).
pub fn rogner_debut(v: &[char]) -> (r: Vec<char>)
    ensures
        r@ == sans_espaces_debut(v@),
{
    let n = v.len();
    let mut i: usize = 0;
    while i < n && est_espace(v[i])
        invariant
            i <= n,
            n == v.len(),
            forall|j: int| 0 <= j < i ==> est_espace_spec(#[trigger] v@[j]),
        decreases n - i,
    {
        i += 1;
    }
    proof {
        lemma_debut(v@, i as int);
    }
    assert(sans_espaces_debut(v@.skip(i as int)) == v@.skip(i as int));
    let r = extrait(v, i, n);
    assert(r@ =~= v@.skip(i as int));
    r
}

/// The words of `v` (`str::split_whitespace`).
pub fn mots_de(v: &[char]) -> (r: Vec<Vec<char>>)
    ensures
        vues(r@) == mots(v@),
{
    let mut r: Vec<Vec<char>> = Vec::new();
    let mut i: usize = 0;
    assert(v@.take(0) =~= Seq::<char>::empty());
    assert(vues(r@) =~= Seq::<Seq<char>>::empty());
    while i < v.len()
        invariant
            i <= v.len(),
            vues(r@) == mots(v@.take(i as int)),
        decreases v.len() - i,
    {
        let c = v[i];
        let ghost t = v@.take(i + 1);
        let ghost m = mots(v@.take(i as int));
        assert(t.drop_last() =~= v@.take(i as int));
        assert(t.last() == c);
        if i > 0 {
            assert(t[t.len() - 2] == v@[i - 1]);
            assert(v@.take(i as int).last() == v@[i - 1]);
        }
        proof {
            lemma_mots_non_vides(v@.take(i as int));
        }
        if est_espace(c) {
        } else if i > 0 && !est_espace(v[i - 1]) {
            let k = r.len() - 1;
            let mut w = r.remove(k);
            w.push(c);
            r.push(w);
            assert(vues(r@) =~= m.update(m.len() - 1, m.last().push(c)));
        } else {
            let mut w: Vec<char> = Vec::new();
            w.push(c);
            assert(w@ =~= seq![c]);
            let ghost avant = r@;
            r.push(w);
            assert(r@ == avant.push(w));
            assert(vues(r@) =~= vues(avant).push(w@));
        }
        i += 1;
    }
    assert(v@.take(v.len() as int) =~= v@);
    r
}

} // verus!

verus! {

/// Position of the first `c` in `s`, or -1.
pub open spec fn premier(s: Seq<char>, c: char) -> int
    decreases s.len(),
{
    if s.len() == 0 {
        -1
    } else if s[0] == c {
        0
    } else {
        let p = premier(s.drop_first(), c);
        if p < 0 { -1 } else { p + 1 }
    }
}

pub proof fn lemma_premier(s: Seq<char>, c: char)
    ensures
        -1 <= premier(s, c) < s.len(),
        premier(s, c) >= 0 ==> s[premier(s, c)] == c,
        forall|j: int| 0 <= j < (if premier(s, c) < 0 { s.len() as int } else { premier(s, c) }) ==> s[j] != c,
    decreases s.len(),
{
    if s.len() > 0 && s[0] != c {
        lemma_premier(s.drop_first(), c);
        let p = premier(s.drop_first(), c);
        assert forall|j: int| 0 <= j < (if premier(s, c) < 0 { s.len() as int } else { premier(s, c) }) implies s[j] != c by {
            if j > 0 {
                assert(s[j] == s.drop_first()[j - 1]);
            }
        }
    }
}

proof fn lemma_premier_caracterise(s: Seq<char>, c: char, k: int)
    requires
        0 <= k <= s.len(),
        forall|j: int| 0 <= j < k ==> s[j] != c,
        k == s.len() || s[k] == c,
    ensures
        premier(s, c) == if k == s.len() { -1 } else { k },
    decreases s.len(),
{
    if s.len() > 0 && k > 0 {
        assert forall|j: int| 0 <= j < k - 1 implies s.drop_first()[j] != c by {
            assert(s.drop_first()[j] == s[j + 1]);
        }
        if k < s.len() {
            assert(s.drop_first()[k - 1] == s[k]);
        }
        lemma_premier_caracterise(s.drop_first(), c, k - 1);
    }
}

/// Position, counted from `debut`, of the first `c` in `v[debut..]`.
pub fn trouver(v: &[char], debut: usize, c: char) -> (r: Option<usize>)
    requires
        debut <= v.len(),
    ensures
        match r {
            Some(p) => premier(v@.skip(debut as int), c) == p as int && debut + p < v.len(),
            None => premier(v@.skip(debut as int), c) == -1,
        },
{
    let mut k = debut;
    while k < v.len() && v[k] != c
        invariant
            debut <= k <= v.len(),
            forall|j: int| debut <= j < k ==> v@[j] != c,
        decreases v.len() - k,
    {
        k += 1;
    }
    let ghost t = v@.skip(debut as int);
    assert forall|j: int| 0 <= j < k - debut implies t[j] != c by {
        assert(t[j] == v@[debut + j]);
    }
    if k < v.len() {
        assert(t[k - debut] == v@[k as int]);
    }
    proof {
        lemma_premier_caracterise(t, c, (k - debut) as int);
    }
    if k < v.len() { Some(k - debut) } else { None }
}

/// Position of the first occurrence of a non-empty `motif` in `s`, or -1.
pub open spec fn premiere_occurrence(s: Seq<char>, motif: Seq<char>) -> int
    decreases s.len(),
{
    if motif.len() > s.len() {
        -1
    } else if s.take(motif.len() as int) == motif {
        0
    } else if s.len() == 0 {
        -1
    } else {
        let p = premiere_occurrence(s.drop_first(), motif);
        if p < 0 { -1 } else { p + 1 }
    }
}

/// Position of the first occurrence of `motif` in `v`.
pub fn chercher(v: &[char], motif: &[char]) -> (r: Option<usize>)
    ensures
        match r {
            Some(p) => premiere_occurrence(v@, motif@) == p as int && p <= v.len(),
            None => premiere_occurrence(v@, motif@) == -1,
        },
{
    let mut k: usize = 0;
    assert(v@.skip(0) =~= v@);
    while k <= v.len()
        invariant
            k <= v.len() + 1,
            k <= v.len() ==> premiere_occurrence(v@, motif@) == (if premiere_occurrence(v@.skip(k as int), motif@) < 0 { -1 } else { premiere_occurrence(v@.skip(k as int), motif@) + k }),
            k > v.len() ==> premiere_occurrence(v@, motif@) == -1,
        decreases v.len() + 1 - k,
    {
        let ghost t = v@.skip(k as int);
        if commence_par(v, k, motif) {
            return Some(k);
        }
        if k == v.len() {
            assert(t.len() == 0);
            return None;
        }
        if motif.len() > v.len() - k {
            return None;
        }
        assert(t.drop_first() =~= v@.skip(k + 1));
        k += 1;
    }
    None
}

} // verus!
