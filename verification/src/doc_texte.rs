use vstd::prelude::*;
use crate::texte::{
    joindre,
    ajouter_caracteres, caracteres, chaine, commence_par, remplace, remplacer,
};

verus! {

broadcast use vstd::string::group_string_axioms;

// ───────────────────────── XML escaping ─────────────────────────

/// The escaped form of one character in XML text: `&`, `<` and `>` become
/// entities.
pub open spec fn echappe_car_xml(c: char) -> Seq<char> {
    if c == '&' { seq!['&', 'a', 'm', 'p', ';'] }
    else if c == '<' { seq!['&', 'l', 't', ';'] }
    else if c == '>' { seq!['&', 'g', 't', ';'] }
    else { seq![c] }
}

/// Each character of `s` escaped for XML text.
pub open spec fn echappe_xml(s: Seq<char>) -> Seq<char>
    decreases s.len(),
{
    if s.len() == 0 { s } else { echappe_xml(s.drop_last()) + echappe_car_xml(s.last()) }
}

pub fn echapper_xml_car(v: &[char]) -> (r: Vec<char>)
    ensures
        r@ == echappe_xml(v@),
{
    let mut r: Vec<char> = Vec::new();
    let mut i: usize = 0;
    assert(v@.take(0) =~= Seq::<char>::empty());
    while i < v.len()
        invariant
            i <= v.len(),
            r@ == echappe_xml(v@.take(i as int)),
        decreases v.len() - i,
    {
        let c = v[i];
        assert(v@.take(i + 1).drop_last() =~= v@.take(i as int));
        assert(v@.take(i + 1).last() == c);
        let ghost avant = r@;
        if c == '&' {
            r.push('&'); r.push('a'); r.push('m'); r.push('p'); r.push(';');
        } else if c == '<' {
            r.push('&'); r.push('l'); r.push('t'); r.push(';');
        } else if c == '>' {
            r.push('&'); r.push('g'); r.push('t'); r.push(';');
        } else {
            r.push(c);
        }
        assert(r@ =~= avant + echappe_car_xml(c));
        i += 1;
    }
    assert(v@.take(v.len() as int) =~= v@);
    r
}

/// Text escaped for XML: `&`, `<`, `>` replaced by their entities.
pub fn xml_escape(s: &str) -> (r: String)
    ensures
        r@ == echappe_xml(s@),
{
    let v = caracteres(s);
    chaine(&echapper_xml_car(&v))
}

// ───────────────────────── text and HTML ─────────────────────────

/// The pieces of `s` between the occurrences of a non-empty `motif`, taken
/// from left to right (`str::split` with a string pattern).
pub open spec fn decoupe(s: Seq<char>, motif: Seq<char>) -> Seq<Seq<char>>
    decreases s.len(),
{
    if s.len() == 0 || motif.len() == 0 {
        seq![s]
    } else if motif.len() <= s.len() && s.take(motif.len() as int) == motif {
        seq![Seq::<char>::empty()] + decoupe(s.skip(motif.len() as int), motif)
    } else {
        let r = decoupe(s.drop_first(), motif);
        r.update(0, seq![s[0]] + r[0])
    }
}

proof fn lemma_decoupe_non_vide(s: Seq<char>, motif: Seq<char>)
    ensures
        decoupe(s, motif).len() >= 1,
    decreases s.len(),
{
    if s.len() == 0 || motif.len() == 0 {
    } else if motif.len() <= s.len() && s.take(motif.len() as int) == motif {
        lemma_decoupe_non_vide(s.skip(motif.len() as int), motif);
    } else {
        lemma_decoupe_non_vide(s.drop_first(), motif);
    }
}

pub fn decouper_motif(s: &[char], motif: &[char]) -> (r: Vec<Vec<char>>)
    requires
        motif.len() > 0,
    ensures
        crate::texte::vues(r@) == decoupe(s@, motif@),
{
    let mut faits: Vec<Vec<char>> = Vec::new();
    let mut courant: Vec<char> = Vec::new();
    let mut i: usize = 0;
    assert(s@.skip(0) =~= s@);
    proof {
        lemma_decoupe_non_vide(s@, motif@);
    }
    assert(crate::texte::vues(faits@) =~= Seq::<Seq<char>>::empty());
    assert(decoupe(s@, motif@) =~= Seq::<Seq<char>>::empty() + seq![Seq::<char>::empty() + decoupe(s@, motif@)[0]] + decoupe(s@, motif@).drop_first());
    while i < s.len()
        invariant
            i <= s.len(),
            motif.len() > 0,
            decoupe(s@.skip(i as int), motif@).len() >= 1,
            decoupe(s@, motif@) == crate::texte::vues(faits@) + seq![courant@ + decoupe(s@.skip(i as int), motif@)[0]]
                + decoupe(s@.skip(i as int), motif@).drop_first(),
        decreases s.len() - i,
    {
        let ghost reste = s@.skip(i as int);
        let ghost d = decoupe(reste, motif@);
        if commence_par(s, i, motif) {
            let ghost suite = s@.skip(i + motif.len());
            assert(reste.skip(motif.len() as int) =~= suite);
            proof {
                lemma_decoupe_non_vide(suite, motif@);
            }
            assert(d =~= seq![Seq::<char>::empty()] + decoupe(suite, motif@));
            let ghost f = crate::texte::vues(faits@);
            let ghost c = courant@;
            faits.push(courant);
            courant = Vec::new();
            assert(crate::texte::vues(faits@) =~= f.push(c));
            assert(c + d[0] =~= c);
            assert(d.drop_first() =~= decoupe(suite, motif@));
            assert(decoupe(suite, motif@) =~= seq![Seq::<char>::empty() + decoupe(suite, motif@)[0]] + decoupe(suite, motif@).drop_first());
            assert(f + seq![c] + decoupe(suite, motif@) =~= crate::texte::vues(faits@) + seq![courant@ + decoupe(suite, motif@)[0]] + decoupe(suite, motif@).drop_first());
            i = i + motif.len();
        } else {
            let ghost suite = s@.skip(i + 1);
            assert(reste.drop_first() =~= suite);
            assert(reste[0] == s@[i as int]);
            proof {
                lemma_decoupe_non_vide(suite, motif@);
            }
            let ghost c = courant@;
            courant.push(s[i]);
            assert(d == decoupe(suite, motif@).update(0, seq![reste[0]] + decoupe(suite, motif@)[0]));
            assert(c + d[0] =~= courant@ + decoupe(suite, motif@)[0]);
            assert(d.drop_first() =~= decoupe(suite, motif@).drop_first());
            i = i + 1;
        }
    }
    assert(s@.skip(s.len() as int) =~= Seq::<char>::empty());
    let ghost f = crate::texte::vues(faits@);
    faits.push(courant);
    assert(crate::texte::vues(faits@) =~= f.push(courant@));
    assert(courant@ + Seq::<char>::empty() =~= courant@);
    faits
}

/// One paragraph of plain text as HTML: line breaks become `<br/>`.
pub open spec fn paragraphe_html(p: Seq<char>) -> Seq<char> {
    seq!['<', 'p', '>'] + remplace(p, seq!['\n'], seq!['<', 'b', 'r', '/', '>']) + seq!['<', '/', 'p', '>']
}

pub open spec fn paragraphes_html(parts: Seq<Seq<char>>) -> Seq<Seq<char>> {
    parts.map_values(|p: Seq<char>| paragraphe_html(p))
}

pub open spec fn entete_html() -> Seq<char> {
    seq!['<', '!', 'D', 'O', 'C', 'T', 'Y', 'P', 'E', ' ', 'h', 't', 'm', 'l', '>', '\n',
        '<', 'h', 't', 'm', 'l', '>', '<', 'b', 'o', 'd', 'y', '>', '\n']
}

pub open spec fn pied_html() -> Seq<char> {
    seq!['\n', '<', '/', 'b', 'o', 'd', 'y', '>', '<', '/', 'h', 't', 'm', 'l', '>']
}

/// Plain text as an HTML page: the text escaped, each block between blank
/// lines a `<p>`, each remaining line break a `<br/>`.
pub open spec fn html_de_texte(t: Seq<char>) -> Seq<char> {
    entete_html() + joindre(paragraphes_html(decoupe(echappe_xml(t), seq!['\n', '\n'])), seq!['\n'])
        + pied_html()
}

/// Plain text → HTML page.
pub fn texte_vers_html(texte: &str) -> (r: String)
    ensures
        r@ == html_de_texte(texte@),
{
    let v = caracteres(texte);
    let e = echapper_xml_car(&v);
    let parts = decouper_motif(&e, &['\n', '\n']);
    let mut corps: Vec<char> = Vec::new();
    let mut i: usize = 0;
    let ghost ps = paragraphes_html(crate::texte::vues(parts@));
    while i < parts.len()
        invariant
            i <= parts.len(),
            ps == paragraphes_html(crate::texte::vues(parts@)),
            corps@ == joindre(ps.take(i as int), seq!['\n']),
        decreases parts.len() - i,
    {
        let ghost avant = corps@;
        if i > 0 {
            corps.push('\n');
        }
        corps.push('<'); corps.push('p'); corps.push('>');
        let nl = ['\n'];
        let br = ['<', 'b', 'r', '/', '>'];
        assert(nl@ =~= seq!['\n']);
        assert(br@ =~= seq!['<', 'b', 'r', '/', '>']);
        let p = remplacer(&parts[i], &nl, &br);
        if i > 0 {
            assert(corps@ =~= avant + seq!['\n'] + seq!['<', 'p', '>']);
        } else {
            assert(corps@ =~= seq!['<', 'p', '>']);
        }
        let mut k: usize = 0;
        let ghost base = corps@;
        while k < p.len()
            invariant
                k <= p.len(),
                corps@ == base + p@.take(k as int),
            decreases p.len() - k,
        {
            corps.push(p[k]);
            assert(base + p@.take(k as int).push(p@[k as int]) =~= base + p@.take(k + 1));
            k += 1;
        }
        assert(p@.take(p.len() as int) =~= p@);
        corps.push('<'); corps.push('/'); corps.push('p'); corps.push('>');
        assert(ps.take(i + 1).drop_last() =~= ps.take(i as int));
        assert(ps[i as int] == paragraphe_html(parts@[i as int]@));
        assert(corps@ =~= base + p@ + seq!['<', '/', 'p', '>']);
        if i > 0 {
            assert(corps@ =~= avant + seq!['\n'] + ps[i as int]);
        } else {
            assert(corps@ =~= ps[i as int]);
        }
        i += 1;
    }
    assert(ps.take(parts.len() as int) =~= ps);
    let mut r: Vec<char> = Vec::new();
    let deb = ['<', '!', 'D', 'O', 'C', 'T', 'Y', 'P', 'E', ' ', 'h', 't', 'm', 'l', '>', '\n',
        '<', 'h', 't', 'm', 'l', '>', '<', 'b', 'o', 'd', 'y', '>', '\n'];
    let fin = ['\n', '<', '/', 'b', 'o', 'd', 'y', '>', '<', '/', 'h', 't', 'm', 'l', '>'];
    let mut s = chaine(&deb);
    ajouter_caracteres(&mut s, &corps);
    ajouter_caracteres(&mut s, &fin);
    assert(deb@ =~= entete_html());
    assert(fin@ =~= pied_html());
    s
}

} // verus!

verus! {

// ───────────────────────── HTML to text ─────────────────────────

/// Whether the reader is inside a tag after reading `s`.
pub open spec fn dans_balise(s: Seq<char>) -> bool
    decreases s.len(),
{
    if s.len() == 0 {
        false
    } else if s.last() == '<' {
        true
    } else if s.last() == '>' {
        false
    } else {
        dans_balise(s.drop_last())
    }
}

/// The characters of `s` outside `<...>` tags.
pub open spec fn hors_balises(s: Seq<char>) -> Seq<char>
    decreases s.len(),
{
    if s.len() == 0 {
        s
    } else if s.last() == '<' || s.last() == '>' || dans_balise(s.drop_last()) {
        hors_balises(s.drop_last())
    } else {
        hors_balises(s.drop_last()).push(s.last())
    }
}

/// HTML to plain text: the tags dropped, then the common entities
/// `&lt; &gt; &quot; &#39; &nbsp; &amp;` decoded, `&amp;` last so that each
/// entity is decoded once (`&amp;lt;` gives `&lt;`).
pub open spec fn texte_de_html(h: Seq<char>) -> Seq<char> {
    let t0 = hors_balises(h);
    let t1 = remplace(t0, seq!['&', 'l', 't', ';'], seq!['<']);
    let t2 = remplace(t1, seq!['&', 'g', 't', ';'], seq!['>']);
    let t3 = remplace(t2, seq!['&', 'q', 'u', 'o', 't', ';'], seq!['"']);
    let t4 = remplace(t3, seq!['&', '#', '3', '9', ';'], seq!['\'']);
    let t5 = remplace(t4, seq!['&', 'n', 'b', 's', 'p', ';'], seq![' ']);
    remplace(t5, seq!['&', 'a', 'm', 'p', ';'], seq!['&'])
}

pub fn retirer_balises(h: &[char]) -> (r: Vec<char>)
    ensures
        r@ == hors_balises(h@),
{
    let mut r: Vec<char> = Vec::new();
    let mut dedans = false;
    let mut i: usize = 0;
    assert(h@.take(0) =~= Seq::<char>::empty());
    while i < h.len()
        invariant
            i <= h.len(),
            r@ == hors_balises(h@.take(i as int)),
            dedans == dans_balise(h@.take(i as int)),
        decreases h.len() - i,
    {
        let c = h[i];
        assert(h@.take(i + 1).drop_last() =~= h@.take(i as int));
        assert(h@.take(i + 1).last() == c);
        if c == '<' {
            dedans = true;
        } else if c == '>' {
            dedans = false;
        } else if !dedans {
            r.push(c);
        }
        i += 1;
    }
    assert(h@.take(h.len() as int) =~= h@);
    r
}

/// HTML → plain text (tags dropped, common entities decoded once).
pub fn html_vers_texte(html: &str) -> (r: String)
    ensures
        r@ == texte_de_html(html@),
{
    let h = caracteres(html);
    let t0 = retirer_balises(&h);
    let a1 = ['&', 'a', 'm', 'p', ';'];
    let b1 = ['&'];
    let a2 = ['&', 'l', 't', ';'];
    let b2 = ['<'];
    let a3 = ['&', 'g', 't', ';'];
    let b3 = ['>'];
    let a4 = ['&', 'q', 'u', 'o', 't', ';'];
    let b4 = ['"'];
    let a5 = ['&', '#', '3', '9', ';'];
    let b5 = ['\''];
    let a6 = ['&', 'n', 'b', 's', 'p', ';'];
    let b6 = [' '];
    assert(a1@ =~= seq!['&', 'a', 'm', 'p', ';'] && b1@ =~= seq!['&']);
    assert(a2@ =~= seq!['&', 'l', 't', ';'] && b2@ =~= seq!['<']);
    assert(a3@ =~= seq!['&', 'g', 't', ';'] && b3@ =~= seq!['>']);
    assert(a4@ =~= seq!['&', 'q', 'u', 'o', 't', ';'] && b4@ =~= seq!['"']);
    assert(a5@ =~= seq!['&', '#', '3', '9', ';'] && b5@ =~= seq!['\'']);
    assert(a6@ =~= seq!['&', 'n', 'b', 's', 'p', ';'] && b6@ =~= seq![' ']);
    let t1 = remplacer(&t0, &a2, &b2);
    let t2 = remplacer(&t1, &a3, &b3);
    let t3 = remplacer(&t2, &a4, &b4);
    let t4 = remplacer(&t3, &a5, &b5);
    let t5 = remplacer(&t4, &a6, &b6);
    let t6 = remplacer(&t5, &a1, &b1);
    chaine(&t6)
}

// ───────────────────────── RTF escaping ─────────────────────────

/// The UTF-16 code units of a character.
pub open spec fn unites_utf16(c: char) -> Seq<u16> {
    let v = c as u32;
    if v < 0x10000 {
        seq![v as u16]
    } else {
        let w = (v - 0x10000) as u32;
        seq![(0xD800 + w / 1024) as u16, (0xDC00 + w % 1024) as u16]
    }
}

/// A code unit read as a signed 16-bit number (`u16 as i16`).
pub open spec fn signe16(u: u16) -> int {
    if u >= 0x8000 { u - 0x10000 } else { u as int }
}

pub open spec fn decimal_signe(i: int) -> Seq<char> {
    if i < 0 { seq!['-'] + crate::texte::decimal((-i) as nat) } else { crate::texte::decimal(i as nat) }
}

/// `\uN?` for one code unit.
pub open spec fn echappe_unite(u: u16) -> Seq<char> {
    seq!['\\', 'u'] + decimal_signe(signe16(u)) + seq!['?']
}

pub open spec fn echappe_unites(us: Seq<u16>) -> Seq<char>
    decreases us.len(),
{
    if us.len() == 0 { Seq::empty() } else { echappe_unites(us.drop_last()) + echappe_unite(us.last()) }
}

/// One character escaped for RTF: `\`, `{`, `}` behind a backslash, printable
/// ASCII as is, everything else as `\uN?` per UTF-16 unit.
pub open spec fn echappe_car_rtf(c: char) -> Seq<char> {
    if c == '\\' { seq!['\\', '\\'] }
    else if c == '{' { seq!['\\', '{'] }
    else if c == '}' { seq!['\\', '}'] }
    else if ' ' <= c && c <= '~' { seq![c] }
    else { echappe_unites(unites_utf16(c)) }
}

pub open spec fn echappe_rtf(s: Seq<char>) -> Seq<char>
    decreases s.len(),
{
    if s.len() == 0 { s } else { echappe_rtf(s.drop_last()) + echappe_car_rtf(s.last()) }
}

proof fn lemma_une_unite(u: u16)
    ensures
        echappe_unites(seq![u]) == echappe_unite(u),
{
    assert(seq![u].drop_last() =~= Seq::<u16>::empty());
    assert(seq![u].last() == u);
    assert(echappe_unites(Seq::<u16>::empty()) == Seq::<char>::empty());
    assert(echappe_unites(seq![u]) == echappe_unites(seq![u].drop_last()) + echappe_unite(u));
    assert(Seq::<char>::empty() + echappe_unite(u) =~= echappe_unite(u));
}

proof fn lemma_deux_unites(a: u16, b: u16)
    ensures
        echappe_unites(seq![a, b]) == echappe_unite(a) + echappe_unite(b),
{
    assert(seq![a, b].drop_last() =~= seq![a]);
    assert(seq![a, b].last() == b);
    lemma_une_unite(a);
}

fn ecrire_unite(r: &mut Vec<char>, u: u16)
    ensures
        final(r)@ == old(r)@ + echappe_unite(u),
{
    r.push('\\');
    r.push('u');
    let ghost a = r@;
    let d = if u >= 0x8000 {
        r.push('-');
        crate::texte::ecrire_decimal((0x10000 - u as u32) as u128)
    } else {
        crate::texte::ecrire_decimal(u as u128)
    };
    let mut k: usize = 0;
    let ghost base = r@;
    while k < d.len()
        invariant
            k <= d.len(),
            r@ == base + d@.take(k as int),
        decreases d.len() - k,
    {
        r.push(d[k]);
        assert(base + d@.take(k as int).push(d@[k as int]) =~= base + d@.take(k + 1));
        k += 1;
    }
    assert(d@.take(d.len() as int) =~= d@);
    r.push('?');
    assert(r@ =~= old(r)@ + echappe_unite(u));
}

/// A character escaped for RTF.
pub fn echapper_car_rtf(r: &mut Vec<char>, c: char)
    ensures
        final(r)@ == old(r)@ + echappe_car_rtf(c),
{
    if c == '\\' {
        r.push('\\'); r.push('\\');
        assert(r@ =~= old(r)@ + echappe_car_rtf(c));
    } else if c == '{' {
        r.push('\\'); r.push('{');
        assert(r@ =~= old(r)@ + echappe_car_rtf(c));
    } else if c == '}' {
        r.push('\\'); r.push('}');
        assert(r@ =~= old(r)@ + echappe_car_rtf(c));
    } else if ' ' <= c && c <= '~' {
        r.push(c);
        assert(r@ =~= old(r)@ + echappe_car_rtf(c));
    } else {
        let v = c as u32;
        if v < 0x10000 {
            ecrire_unite(r, v as u16);
            proof { lemma_une_unite(v as u16); }
            assert(r@ =~= old(r)@ + echappe_car_rtf(c));
        } else {
            let w = v - 0x10000;
            assert(w < 0x100000) by {
                assert(v <= 0x10FFFF);
            }
            assert(w / 1024 < 1024);
            assert(w % 1024 < 1024);
            let hi = (0xD800 + w / 1024) as u16;
            let lo = (0xDC00 + w % 1024) as u16;
            assert(hi == 0xD800 + w / 1024);
            assert(lo == 0xDC00 + w % 1024);
            ecrire_unite(r, hi);
            ecrire_unite(r, lo);
            assert(unites_utf16(c) =~= seq![hi, lo]);
            proof { lemma_deux_unites(hi, lo); }
            assert(r@ =~= old(r)@ + echappe_car_rtf(c));
        }
    }
}

/// Text escaped for RTF.
pub fn rtf_escape(s: &str) -> (r: String)
    ensures
        r@ == echappe_rtf(s@),
{
    let v = caracteres(s);
    let mut r: Vec<char> = Vec::new();
    let mut i: usize = 0;
    assert(v@.take(0) =~= Seq::<char>::empty());
    while i < v.len()
        invariant
            i <= v.len(),
            r@ == echappe_rtf(v@.take(i as int)),
        decreases v.len() - i,
    {
        assert(v@.take(i + 1).drop_last() =~= v@.take(i as int));
        assert(v@.take(i + 1).last() == v@[i as int]);
        echapper_car_rtf(&mut r, v[i]);
        i += 1;
    }
    assert(v@.take(v.len() as int) =~= v@);
    chaine(&r)
}

} // verus!

verus! {

// ───────────────────────── WinAnsi ─────────────────────────

/// The WinAnsi (cp1252) byte of a character; `?` where WinAnsi has none,
/// a space for a tab.
pub open spec fn octet_winansi(c: char) -> u8 {
    let v = c as u32;
    if 0x20 <= v && v <= 0x7E { v as u8 }
    else if v == 0x20AC { 0x80 }
    else if v == 0x201A { 0x82 }
    else if v == 0x0192 { 0x83 }
    else if v == 0x201E { 0x84 }
    else if v == 0x2026 { 0x85 }
    else if v == 0x2020 { 0x86 }
    else if v == 0x2021 { 0x87 }
    else if v == 0x02C6 { 0x88 }
    else if v == 0x2030 { 0x89 }
    else if v == 0x0160 { 0x8A }
    else if v == 0x2039 { 0x8B }
    else if v == 0x0152 { 0x8C }
    else if v == 0x017D { 0x8E }
    else if v == 0x2018 { 0x91 }
    else if v == 0x2019 { 0x92 }
    else if v == 0x201C { 0x93 }
    else if v == 0x201D { 0x94 }
    else if v == 0x2022 { 0x95 }
    else if v == 0x2013 { 0x96 }
    else if v == 0x2014 { 0x97 }
    else if v == 0x02DC { 0x98 }
    else if v == 0x2122 { 0x99 }
    else if v == 0x0161 { 0x9A }
    else if v == 0x203A { 0x9B }
    else if v == 0x0153 { 0x9C }
    else if v == 0x017E { 0x9E }
    else if v == 0x0178 { 0x9F }
    else if 0xA0 <= v && v <= 0xFF { v as u8 }
    else if v == 0x09 { 0x20 }
    else { 0x3F }
}

fn octet_de(c: char) -> (r: u8)
    ensures
        r == octet_winansi(c),
{
    let v = c as u32;
    if 0x20 <= v && v <= 0x7E { v as u8 }
    else if v == 0x20AC { 0x80 }
    else if v == 0x201A { 0x82 }
    else if v == 0x0192 { 0x83 }
    else if v == 0x201E { 0x84 }
    else if v == 0x2026 { 0x85 }
    else if v == 0x2020 { 0x86 }
    else if v == 0x2021 { 0x87 }
    else if v == 0x02C6 { 0x88 }
    else if v == 0x2030 { 0x89 }
    else if v == 0x0160 { 0x8A }
    else if v == 0x2039 { 0x8B }
    else if v == 0x0152 { 0x8C }
    else if v == 0x017D { 0x8E }
    else if v == 0x2018 { 0x91 }
    else if v == 0x2019 { 0x92 }
    else if v == 0x201C { 0x93 }
    else if v == 0x201D { 0x94 }
    else if v == 0x2022 { 0x95 }
    else if v == 0x2013 { 0x96 }
    else if v == 0x2014 { 0x97 }
    else if v == 0x02DC { 0x98 }
    else if v == 0x2122 { 0x99 }
    else if v == 0x0161 { 0x9A }
    else if v == 0x203A { 0x9B }
    else if v == 0x0153 { 0x9C }
    else if v == 0x017E { 0x9E }
    else if v == 0x0178 { 0x9F }
    else if 0xA0 <= v && v <= 0xFF { v as u8 }
    else if v == 0x09 { 0x20 }
    else { 0x3F }
}

/// Text encoded for a PDF builtin Type1 font: one WinAnsi byte per character.
pub fn encoder_winansi(texte: &str) -> (r: Vec<u8>)
    ensures
        r@ == texte@.map_values(|c: char| octet_winansi(c)),
{
    let v = caracteres(texte);
    let mut r: Vec<u8> = Vec::new();
    let mut i: usize = 0;
    while i < v.len()
        invariant
            i <= v.len(),
            v@ == texte@,
            r@ == v@.take(i as int).map_values(|c: char| octet_winansi(c)),
        decreases v.len() - i,
    {
        r.push(octet_de(v[i]));
        assert(v@.take(i + 1).map_values(|c: char| octet_winansi(c)) =~= v@.take(i as int).map_values(
            |c: char| octet_winansi(c),
        ).push(octet_winansi(v@[i as int])));
        i += 1;
    }
    assert(v@.take(v.len() as int) =~= v@);
    r
}

// ───────────────────────── dates ─────────────────────────

/// The civil date `(year, month, day)` of a count of days since 1970-01-01
/// (proleptic Gregorian calendar).
pub open spec fn date_de_jours(j: nat) -> (nat, nat, nat) {
    let z = j + 719468;
    let era = z / 146097;
    let doe = (z - era * 146097) as nat;
    let yoe = ((doe - doe / 1460 + doe / 36524 - doe / 146096) / 365) as nat;
    let y = yoe + era * 400;
    let doy = (doe - (365 * yoe + yoe / 4 - yoe / 100)) as nat;
    let mp = (5 * doy + 2) / 153;
    let d = (doy - (153 * mp + 2) / 5 + 1) as nat;
    let m = if mp < 10 { mp + 3 } else { (mp - 9) as nat };
    let y2 = if m <= 2 { y + 1 } else { y };
    (y2, m, d)
}

/// The civil date of a count of days since the Unix epoch.
pub fn jours_vers_date(jours_epoch: u64) -> (r: (u64, u64, u64))
    requires
        jours_epoch <= u64::MAX - 719468,
    ensures
        (r.0 as nat, r.1 as nat, r.2 as nat) == date_de_jours(jours_epoch as nat),
        1 <= r.1 <= 12,
        1 <= r.2 <= 31,
{
    let z = jours_epoch + 719468;
    let era = z / 146097;
    assert(era * 146097 <= z) by (nonlinear_arith)
        requires era == z / 146097;
    let doe = z - era * 146097;
    assert(doe < 146097) by (nonlinear_arith)
        requires era == z / 146097, doe == z - era * 146097;
    let yoe = (doe - doe / 1460 + doe / 36524 - doe / 146096) / 365;
    assert(yoe <= 399) by (nonlinear_arith)
        requires doe < 146097, yoe == (doe - doe / 1460 + doe / 36524 - doe / 146096) / 365;
    assert(era <= z / 146097);
    assert(era * 400 <= u64::MAX / 2) by (nonlinear_arith)
        requires era == z / 146097, z <= u64::MAX;
    let y = yoe + era * 400;
    assert(365 * yoe + yoe / 4 - yoe / 100 <= doe) by (nonlinear_arith)
        requires doe < 146097, yoe == (doe - doe / 1460 + doe / 36524 - doe / 146096) / 365, yoe <= 399;
    let doy = doe - (365 * yoe + yoe / 4 - yoe / 100);
    assert(doy <= 365) by (nonlinear_arith)
        requires doe < 146097, yoe == (doe - doe / 1460 + doe / 36524 - doe / 146096) / 365,
            doy == doe - (365 * yoe + yoe / 4 - yoe / 100);
    let mp = (5 * doy + 2) / 153;
    assert(mp <= 11);
    assert((153 * mp + 2) / 5 <= doy) by (nonlinear_arith)
        requires mp == (5 * doy + 2) / 153;
    let d = doy - (153 * mp + 2) / 5 + 1;
    assert(d <= 31) by (nonlinear_arith)
        requires mp == (5 * doy + 2) / 153, d == doy - (153 * mp + 2) / 5 + 1, doy <= 365;
    let m = if mp < 10 { mp + 3 } else { mp - 9 };
    let y2 = if m <= 2 { y + 1 } else { y };
    (y2, m, d)
}

} // verus!

verus! {

// ───────────────────────── reading back the HTML of a text ─────────────────────────

/// A text without the given character.
pub open spec fn sans_car(s: Seq<char>, c: char) -> bool {
    forall|i: int| 0 <= i < s.len() ==> s[i] != c
}

proof fn lemma_echappe_concat(a: Seq<char>, b: Seq<char>)
    ensures
        echappe_xml(a + b) == echappe_xml(a) + echappe_xml(b),
    decreases b.len(),
{
    if b.len() == 0 {
        assert(a + b =~= a);
        assert(echappe_xml(a) + echappe_xml(b) =~= echappe_xml(a));
    } else {
        lemma_echappe_concat(a, b.drop_last());
        assert((a + b).drop_last() =~= a + b.drop_last());
        assert((a + b).last() == b.last());
    }
}

proof fn lemma_echappe_gauche(t: Seq<char>)
    requires
        t.len() > 0,
    ensures
        echappe_xml(t) == echappe_car_xml(t[0]) + echappe_xml(t.drop_first()),
{
    assert(t =~= seq![t[0]] + t.drop_first());
    lemma_echappe_concat(seq![t[0]], t.drop_first());
    lemma_echappe_un(t[0]);
}

/// The characters that escaping yields: no line break when the text has
/// none, and never a tag bracket.
proof fn lemma_echappe_sans(t: Seq<char>)
    requires
        sans_car(t, '\n'),
    ensures
        sans_car(echappe_xml(t), '\n'),
        sans_car(echappe_xml(t), '<'),
        sans_car(echappe_xml(t), '>'),
    decreases t.len(),
{
    if t.len() > 0 {
        lemma_echappe_sans(t.drop_last());
        let a = echappe_xml(t.drop_last());
        let b = echappe_car_xml(t.last());
        assert(t.last() == t[t.len() - 1]);
        assert forall|i: int| 0 <= i < (a + b).len() implies (a + b)[i] != '\n' && (a + b)[i] != '<'
            && (a + b)[i] != '>' by {
            if i >= a.len() {
                assert((a + b)[i] == b[i - a.len()]);
            } else {
                assert((a + b)[i] == a[i]);
            }
        }
    }
}

proof fn lemma_remplace_sans(s: Seq<char>, m: Seq<char>, p: Seq<char>)
    requires
        m.len() > 0,
        sans_car(s, m[0]),
    ensures
        remplace(s, m, p) == s,
    decreases s.len(),
{
    if s.len() > 0 {
        assert(m.len() <= s.len() ==> s.take(m.len() as int)[0] == s[0]);
        lemma_remplace_sans(s.drop_first(), m, p);
        assert(seq![s[0]] + s.drop_first() =~= s);
    }
}

proof fn lemma_remplace_debut(x: Seq<char>, y: Seq<char>, m: Seq<char>, p: Seq<char>)
    requires
        m.len() > 0,
        sans_car(x, m[0]),
    ensures
        remplace(x + y, m, p) == x + remplace(y, m, p),
    decreases x.len(),
{
    if x.len() == 0 {
        assert(x + y =~= y);
        assert(x + remplace(y, m, p) =~= remplace(y, m, p));
    } else {
        let s = x + y;
        assert(s[0] == x[0]);
        assert(m.len() <= s.len() ==> s.take(m.len() as int)[0] == s[0]);
        assert(s.drop_first() =~= x.drop_first() + y);
        lemma_remplace_debut(x.drop_first(), y, m, p);
        assert(seq![x[0]] + (x.drop_first() + remplace(y, m, p)) =~= x + remplace(y, m, p));
    }
}

/// After decoding `&lt;`: the `>` still escaped.
pub open spec fn demi_decode(t: Seq<char>) -> Seq<char>
    decreases t.len(),
{
    if t.len() == 0 {
        t
    } else {
        (if t[0] == '>' { seq!['&', 'g', 't', ';'] } else { seq![t[0]] }) + demi_decode(t.drop_first())
    }
}

proof fn lemma_etape_lt(t: Seq<char>)
    requires
        sans_car(t, '&'),
    ensures
        remplace(echappe_xml(t), seq!['&', 'l', 't', ';'], seq!['<']) == demi_decode(t),
    decreases t.len(),
{
    let m = seq!['&', 'l', 't', ';'];
    if t.len() == 0 {
        assert(echappe_xml(t) =~= Seq::<char>::empty());
    } else {
        let r = t.drop_first();
        lemma_echappe_gauche(t);
        lemma_etape_lt(r);
        let er = echappe_xml(r);
        let c = t[0];
        if c == '<' {
            let s = m + er;
            assert(s.take(4) =~= m);
            assert(s.skip(4) =~= er);
        } else if c == '>' {
            let g = seq!['&', 'g', 't', ';'];
            let s = g + er;
            assert(s.take(4) != m) by { assert(s.take(4)[1] == 'g'); }
            assert(s.drop_first() =~= seq!['g', 't', ';'] + er);
            lemma_remplace_debut(seq!['g', 't', ';'], er, m, seq!['<']);
            assert(seq!['&'] + (seq!['g', 't', ';'] + remplace(er, m, seq!['<'])) =~= g + remplace(er, m, seq!['<']));
        } else {
            let s = seq![c] + er;
            assert(m.len() <= s.len() ==> s.take(4)[0] == c);
            assert(s.drop_first() =~= er);
        }
    }
}

proof fn lemma_etape_gt(t: Seq<char>)
    requires
        sans_car(t, '&'),
    ensures
        remplace(demi_decode(t), seq!['&', 'g', 't', ';'], seq!['>']) == t,
    decreases t.len(),
{
    let m = seq!['&', 'g', 't', ';'];
    if t.len() > 0 {
        let r = t.drop_first();
        lemma_etape_gt(r);
        let dr = demi_decode(r);
        let c = t[0];
        if c == '>' {
            let s = m + dr;
            assert(s.take(4) =~= m);
            assert(s.skip(4) =~= dr);
        } else {
            let s = seq![c] + dr;
            assert(m.len() <= s.len() ==> s.take(4)[0] == c);
            assert(s.drop_first() =~= dr);
        }
        assert(seq![c] + r =~= t);
    }
}

proof fn lemma_hors_texte(x: Seq<char>, y: Seq<char>)
    requires
        !dans_balise(x),
        sans_car(y, '<'),
        sans_car(y, '>'),
    ensures
        hors_balises(x + y) == hors_balises(x) + y,
        !dans_balise(x + y),
    decreases y.len(),
{
    if y.len() == 0 {
        assert(x + y =~= x);
        assert(hors_balises(x) + y =~= hors_balises(x));
    } else {
        lemma_hors_texte(x, y.drop_last());
        assert((x + y).drop_last() =~= x + y.drop_last());
        assert((x + y).last() == y[y.len() - 1]);
        assert(hors_balises(x) + y =~= (hors_balises(x) + y.drop_last()).push(y.last()));
    }
}

proof fn lemma_hors_dedans(z: Seq<char>, y: Seq<char>)
    requires
        dans_balise(z),
        sans_car(y, '>'),
    ensures
        hors_balises(z + y) == hors_balises(z),
        dans_balise(z + y),
    decreases y.len(),
{
    if y.len() == 0 {
        assert(z + y =~= z);
    } else {
        lemma_hors_dedans(z, y.drop_last());
        assert((z + y).drop_last() =~= z + y.drop_last());
        assert((z + y).last() == y[y.len() - 1]);
    }
}

/// A tag `<...>` after text outside tags leaves nothing.
proof fn lemma_hors_balise(x: Seq<char>, dedans: Seq<char>)
    requires
        !dans_balise(x),
        sans_car(dedans, '<'),
        sans_car(dedans, '>'),
    ensures
        hors_balises(x + (seq!['<'] + dedans + seq!['>'])) == hors_balises(x),
        !dans_balise(x + (seq!['<'] + dedans + seq!['>'])),
{
    let z = x.push('<');
    assert(z.drop_last() =~= x);
    lemma_hors_dedans(z, dedans);
    let w = z + dedans;
    let s = x + (seq!['<'] + dedans + seq!['>']);
    assert(s =~= w.push('>'));
    assert(s.drop_last() =~= w);
}

proof fn lemma_echappe_un(c: char)
    ensures
        echappe_xml(seq![c]) == echappe_car_xml(c),
{
    let s = seq![c];
    assert(s.drop_last() =~= Seq::<char>::empty());
    assert(s.last() == c);
    assert(echappe_xml(s.drop_last()) == Seq::<char>::empty());
    assert(Seq::<char>::empty() + echappe_car_xml(c) =~= echappe_car_xml(c));
}

/// The text of the page of a text without line breaks: the head's two line
/// breaks, the escaped text, the foot's line break.
proof fn lemma_hors_page(t: Seq<char>)
    requires
        sans_car(t, '\n'),
    ensures
        hors_balises(html_de_texte(t)) == seq!['\n', '\n'] + echappe_xml(t) + seq!['\n'],
{
    let e = echappe_xml(t);
    lemma_echappe_sans(t);
    let nn = seq!['\n', '\n'];
    lemma_decoupe_seule(e, nn);
    let ps = paragraphes_html(seq![e]);
    assert(ps =~= seq![paragraphe_html(e)]);
    lemma_remplace_sans(e, seq!['\n'], seq!['<', 'b', 'r', '/', '>']);
    assert(joindre(ps, seq!['\n']) == ps[0]);
    let p = seq!['<', 'p', '>'];
    let fp = seq!['<', '/', 'p', '>'];
    let h = entete_html() + (p + e + fp) + pied_html();
    assert(html_de_texte(t) =~= h);
    let a = entete_html() + p;
    let vide = Seq::<char>::empty();
    let doctype = seq!['!', 'D', 'O', 'C', 'T', 'Y', 'P', 'E', ' ', 'h', 't', 'm', 'l'];
    lemma_hors_balise(vide, doctype);
    let a1 = vide + (seq!['<'] + doctype + seq!['>']);
    lemma_hors_texte(a1, seq!['\n']);
    let a2 = a1 + seq!['\n'];
    lemma_hors_balise(a2, seq!['h', 't', 'm', 'l']);
    let a3 = a2 + (seq!['<'] + seq!['h', 't', 'm', 'l'] + seq!['>']);
    lemma_hors_balise(a3, seq!['b', 'o', 'd', 'y']);
    let a4 = a3 + (seq!['<'] + seq!['b', 'o', 'd', 'y'] + seq!['>']);
    lemma_hors_texte(a4, seq!['\n']);
    let a5 = a4 + seq!['\n'];
    lemma_hors_balise(a5, seq!['p']);
    let a6 = a5 + (seq!['<'] + seq!['p'] + seq!['>']);
    assert(a6 =~= a);
    assert(hors_balises(vide) == vide);
    lemma_hors_texte(a, e);
    let b = a + e;
    lemma_hors_balise(b, seq!['/', 'p']);
    let c = b + (seq!['<'] + seq!['/', 'p'] + seq!['>']);
    lemma_hors_texte(c, seq!['\n']);
    let d = c + seq!['\n'];
    lemma_hors_balise(d, seq!['/', 'b', 'o', 'd', 'y']);
    let f = d + (seq!['<'] + seq!['/', 'b', 'o', 'd', 'y'] + seq!['>']);
    lemma_hors_balise(f, seq!['/', 'h', 't', 'm', 'l']);
    let g = f + (seq!['<'] + seq!['/', 'h', 't', 'm', 'l'] + seq!['>']);
    assert(g =~= h);
    assert(hors_balises(a) =~= nn);
    assert(hors_balises(h) =~= nn + e + seq!['\n']);
}

/// Reading back the HTML page of a text without line breaks or `&` gives the
/// text, between the two line breaks of the page's head and the one of its
/// foot: the tags are dropped and the escaped `<` and `>` decoded.
pub proof fn loi_html_relu(t: Seq<char>)
    requires
        sans_car(t, '\n'),
        sans_car(t, '&'),
    ensures
        texte_de_html(html_de_texte(t)) == seq!['\n', '\n'] + t + seq!['\n'],
{
    lemma_hors_page(t);
    let nn = seq!['\n', '\n'];
    let u = nn + t + seq!['\n'];
    lemma_echappe_concat(nn + t, seq!['\n']);
    lemma_echappe_concat(nn, t);
    lemma_echappe_concat(seq!['\n'], seq!['\n']);
    lemma_echappe_un('\n');
    assert(seq!['\n'] + seq!['\n'] =~= nn);
    assert(echappe_xml(seq!['\n']) + echappe_xml(seq!['\n']) =~= nn);
    assert(hors_balises(html_de_texte(t)) =~= echappe_xml(u));
    assert forall|i: int| 0 <= i < u.len() implies u[i] != '&' by {
        if 2 <= i < 2 + t.len() { assert(u[i] == t[i - 2]); }
    }
    lemma_etape_lt(u);
    lemma_etape_gt(u);
    lemma_remplace_sans(u, seq!['&', 'q', 'u', 'o', 't', ';'], seq!['"']);
    lemma_remplace_sans(u, seq!['&', '#', '3', '9', ';'], seq!['\'']);
    lemma_remplace_sans(u, seq!['&', 'n', 'b', 's', 'p', ';'], seq![' ']);
    lemma_remplace_sans(u, seq!['&', 'a', 'm', 'p', ';'], seq!['&']);
}

proof fn lemma_decoupe_seule(e: Seq<char>, motif: Seq<char>)
    requires
        motif.len() > 0,
        sans_car(e, motif[0]),
    ensures
        decoupe(e, motif) == seq![e],
    decreases e.len(),
{
    if e.len() > 0 {
        assert(motif.len() <= e.len() ==> e.take(motif.len() as int)[0] == e[0]);
        lemma_decoupe_seule(e.drop_first(), motif);
        assert(seq![e[0]] + e.drop_first() =~= e);
    }
}

} // verus!
