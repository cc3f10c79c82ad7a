use vstd::prelude::*;
use vstd::string::StringExecFns;
use quick_xml::events::Event::{Empty, End, Eof, Start, Text};
use self::EvenementXml::{Autre, Debut, Fin, Texte, Vide};
use crate::texte::{rogne, rogner, caracteres, chaine, joindre};

verus! {

broadcast use vstd::string::group_string_axioms;

/// An event of an XML reader, as far as the text extraction uses it.
pub enum EvenementXml {
    /// An opening tag, by its qualified name.
    Debut(String),
    /// An empty-element tag.
    Vide(String),
    /// A closing tag.
    Fin(String),
    /// Character data between tags, as written (entities not decoded).
    Texte(String),
    /// Any other event (CDATA, comment, declaration, ...).
    Autre,
}

pub enum VueEvenementXml {
    Debut(Seq<char>),
    Vide(Seq<char>),
    Fin(Seq<char>),
    Texte(Seq<char>),
    Autre,
}

pub open spec fn vue_xml(e: EvenementXml) -> VueEvenementXml {
    match e {
        EvenementXml::Debut(n) => VueEvenementXml::Debut(n@),
        EvenementXml::Vide(n) => VueEvenementXml::Vide(n@),
        EvenementXml::Fin(n) => VueEvenementXml::Fin(n@),
        EvenementXml::Texte(t) => VueEvenementXml::Texte(t@),
        EvenementXml::Autre => VueEvenementXml::Autre,
    }
}

pub open spec fn vues_xml(v: Seq<EvenementXml>) -> Seq<VueEvenementXml> {
    v.map_values(|e: EvenementXml| vue_xml(e))
}

/// The events that `quick_xml` reads from a text, up to its end; `None`
/// when the reader meets an error.
pub uninterp spec fn evenements_xml(xml: Seq<char>) -> Option<Seq<VueEvenementXml>>;

/// Reads the events of an XML text with `quick_xml::Reader` (default
/// settings) until its end; on an error, the reader's message.
#[verifier::external_body]
fn lire_evenements_xml(xml: &str) -> (r: Result<Vec<EvenementXml>, String>)
    ensures
        match r {
            Ok(v) => evenements_xml(xml@) == Some(vues_xml(v@)),
            Err(_) => evenements_xml(xml@) is None,
        },
{
    let mut lecteur = quick_xml::Reader::from_str(xml);
    let mut v = Vec::new();
    loop {
        v.push(match lecteur.read_event() {
            Ok(Start(e)) => Debut(String::from_utf8_lossy(e.name().as_ref()).into_owned()),
            Ok(Empty(e)) => Vide(String::from_utf8_lossy(e.name().as_ref()).into_owned()),
            Ok(End(e)) => Fin(String::from_utf8_lossy(e.name().as_ref()).into_owned()),
            Ok(Text(e)) => Texte(String::from_utf8_lossy(&e).into_owned()),
            Ok(Eof) => return Ok(v),
            Ok(_) => Autre,
            Err(e) => return Err(e.to_string()),
        });
    }
}

// ───────────────────────── text of an office document ─────────────────────────

/// Tags that open a paragraph (Word, OpenDocument).
pub open spec fn est_paragraphe(n: Seq<char>) -> bool {
    n == "w:p"@ || n == "text:p"@ || n == "text:h"@
}

pub open spec fn termine_ligne(t: Seq<char>) -> bool {
    t.len() > 0 && t.last() == '\n'
}

/// The state of the extraction: the text so far, whether inside a text tag,
/// how many paragraphs are open.
pub type EtatTexte = (Seq<char>, bool, nat);

/// One event of the extraction: a text tag opens or closes the text; a
/// paragraph starts on a new line and ends with a line break; the
/// characters inside a text tag or a paragraph are kept.
pub open spec fn pas_texte(s: EtatTexte, e: VueEvenementXml, balises: Seq<Seq<char>>) -> EtatTexte {
    let (t, dans, prof) = s;
    match e {
        VueEvenementXml::Debut(n) => {
            let dans2 = if balises.contains(n) { true } else { dans };
            if est_paragraphe(n) {
                (if t.len() > 0 && !termine_ligne(t) { t.push('\n') } else { t }, dans2, prof + 1)
            } else {
                (t, dans2, prof)
            }
        },
        VueEvenementXml::Fin(n) => {
            let dans2 = if balises.contains(n) { false } else { dans };
            if est_paragraphe(n) {
                (if !termine_ligne(t) { t.push('\n') } else { t }, dans2, if prof > 0 { (prof - 1) as nat } else { 0 })
            } else {
                (t, dans2, prof)
            }
        },
        VueEvenementXml::Texte(x) => if dans || prof > 0 { (t + x, dans, prof) } else { s },
        _ => s,
    }
}

pub open spec fn etat_texte(evs: Seq<VueEvenementXml>, balises: Seq<Seq<char>>) -> EtatTexte
    decreases evs.len(),
{
    if evs.len() == 0 {
        (Seq::empty(), false, 0)
    } else {
        pas_texte(etat_texte(evs.drop_last(), balises), evs.last(), balises)
    }
}

/// The text of an office document's XML: see `pas_texte`, then trimmed.
pub open spec fn texte_xml(evs: Seq<VueEvenementXml>, balises: Seq<Seq<char>>) -> Seq<char> {
    rogne(etat_texte(evs, balises).0)
}

pub open spec fn vues_str(v: Seq<&str>) -> Seq<Seq<char>> {
    v.map_values(|s: &str| s@)
}

fn contient_nom(balises: &[&str], n: &String) -> (r: bool)
    ensures
        r == vues_str(balises@).contains(n@),
{
    let mut i: usize = 0;
    while i < balises.len()
        invariant
            i <= balises.len(),
            forall|j: int| 0 <= j < i ==> vues_str(balises@)[j] != n@,
        decreases balises.len() - i,
    {
        let b = String::from_str(balises[i]);
        if b == *n {
            assert(vues_str(balises@)[i as int] == n@);
            return true;
        }
        i += 1;
    }
    false
}

fn nomme(a: &String, b: &str) -> (r: bool)
    ensures
        r == (a@ == b@),
{
    let bb = String::from_str(b);
    *a == bb
}

fn finit_par_saut(t: &Vec<char>) -> (r: bool)
    ensures
        r == termine_ligne(t@),
{
    t.len() > 0 && t[t.len() - 1] == '\n'
}

/// The text of an office document's XML, from its events: see `texte_xml`.
pub fn texte_des_evenements(evs: &Vec<EvenementXml>, balises: &[&str]) -> (r: String)
    ensures
        r@ == texte_xml(vues_xml(evs@), vues_str(balises@)),
{
    let ghost vs = vues_xml(evs@);
    let ghost bs = vues_str(balises@);
    let mut t: Vec<char> = Vec::new();
    let mut dans = false;
    let mut prof: u64 = 0;
    let mut i: usize = 0;
    assert(vs.take(0) =~= Seq::<VueEvenementXml>::empty());
    while i < evs.len()
        invariant
            i <= evs.len(),
            vs == vues_xml(evs@),
            bs == vues_str(balises@),
            prof <= i,
            etat_texte(vs.take(i as int), bs) == (t@, dans, prof as nat),
        decreases evs.len() - i,
    {
        assert(vs.take(i + 1).drop_last() =~= vs.take(i as int));
        assert(vs.take(i + 1).last() == vue_xml(evs@[i as int]));
        match &evs[i] {
            EvenementXml::Debut(n) => {
                if contient_nom(balises, n) { dans = true; }
                if nomme(n, "w:p") || nomme(n, "text:p") || nomme(n, "text:h") {
                    prof = prof + 1;
                    if t.len() > 0 && !finit_par_saut(&t) { t.push('\n'); }
                }
            },
            EvenementXml::Fin(n) => {
                if contient_nom(balises, n) { dans = false; }
                if nomme(n, "w:p") || nomme(n, "text:p") || nomme(n, "text:h") {
                    prof = if prof > 0 { prof - 1 } else { 0 };
                    if !finit_par_saut(&t) { t.push('\n'); }
                }
            },
            EvenementXml::Texte(x) => {
                if dans || prof > 0 {
                    let c = caracteres(x.as_str());
                    let ghost avant = t@;
                    let mut k: usize = 0;
                    while k < c.len()
                        invariant
                            k <= c.len(),
                            t@ == avant + c@.take(k as int),
                        decreases c.len() - k,
                    {
                        t.push(c[k]);
                        assert(c@.take(k + 1) =~= c@.take(k as int).push(c@[k as int]));
                        k += 1;
                    }
                    assert(c@.take(c.len() as int) =~= c@);
                }
            },
            _ => {},
        }
        i += 1;
    }
    assert(vs.take(evs.len() as int) =~= vs);
    chaine(&rogner(&t))
}

/// The text of an office document's XML (`extraire_texte_xml`): the text
/// of the events that `quick_xml` reads (see `texte_xml`), or an error when
/// it cannot read them.
pub fn extraire_texte_xml(xml: &str, balises_texte: &[&str]) -> (r: Result<String, String>)
    ensures
        match evenements_xml(xml@) {
            Some(evs) => r is Ok && r->Ok_0@ == texte_xml(evs, vues_str(balises_texte@)),
            None => r is Err,
        },
{
    match lire_evenements_xml(xml) {
        Ok(evs) => Ok(texte_des_evenements(&evs, balises_texte)),
        Err(e) => {
            let mut m = String::from_str("Erreur parsing XML : ");
            m.append(e.as_str());
            Err(m)
        },
    }
}

// ───────────────────────── reading a NFO ─────────────────────────

/// The values read from a NFO so far, by tag, in the order tags first
/// appear, with the tag being read.
pub type EtatNfo = (Seq<(Seq<char>, Seq<Seq<char>>)>, Seq<char>);

/// The position of a tag in the values, or -1.
pub open spec fn position_cle(l: Seq<(Seq<char>, Seq<Seq<char>>)>, k: Seq<char>) -> int
    decreases l.len(),
{
    if l.len() == 0 {
        -1
    } else if position_cle(l.drop_last(), k) >= 0 {
        position_cle(l.drop_last(), k)
    } else if l.last().0 == k {
        l.len() - 1
    } else {
        -1
    }
}

/// A value added to those of a tag.
pub open spec fn ajoute_valeur(l: Seq<(Seq<char>, Seq<Seq<char>>)>, k: Seq<char>, x: Seq<char>) -> Seq<(Seq<char>, Seq<Seq<char>>)> {
    let p = position_cle(l, k);
    if p >= 0 { l.update(p, (k, l[p].1.push(x))) } else { l.push((k, seq![x])) }
}

/// One event of a NFO: an opening (or empty) tag becomes the current one, a
/// closing tag ends it; a non-empty trimmed text is added to the current
/// tag's values.
pub open spec fn pas_nfo(s: EtatNfo, e: VueEvenementXml) -> EtatNfo {
    let (l, courant) = s;
    match e {
        VueEvenementXml::Debut(n) => (l, n),
        VueEvenementXml::Vide(n) => (l, n),
        VueEvenementXml::Fin(_) => (l, Seq::empty()),
        VueEvenementXml::Texte(t) =>
            if courant.len() > 0 && rogne(t).len() > 0 { (ajoute_valeur(l, courant, rogne(t)), courant) } else { s },
        VueEvenementXml::Autre => s,
    }
}

pub open spec fn etat_nfo(evs: Seq<VueEvenementXml>) -> EtatNfo
    decreases evs.len(),
{
    if evs.len() == 0 { (Seq::empty(), Seq::empty()) } else { pas_nfo(etat_nfo(evs.drop_last()), evs.last()) }
}

/// The tags of a NFO: each tag with its values joined by ` / `.
pub open spec fn tags_nfo_xml(evs: Seq<VueEvenementXml>) -> Seq<(Seq<char>, Seq<char>)> {
    etat_nfo(evs).0.map_values(|p: (Seq<char>, Seq<Seq<char>>)| (p.0, joindre(p.1, " / "@)))
}

pub open spec fn vue_valeurs(l: Seq<(String, Vec<String>)>) -> Seq<(Seq<char>, Seq<Seq<char>>)> {
    l.map_values(|p: (String, Vec<String>)| (p.0@, crate::texte::vues_chaines(p.1@)))
}

fn position_de(l: &Vec<(String, Vec<String>)>, k: &String) -> (r: Option<usize>)
    ensures
        match r {
            Some(p) => position_cle(vue_valeurs(l@), k@) == p && p < l.len(),
            None => position_cle(vue_valeurs(l@), k@) < 0,
        },
{
    let ghost vl = vue_valeurs(l@);
    let mut i: usize = 0;
    assert(vl.take(0) =~= Seq::<(Seq<char>, Seq<Seq<char>>)>::empty());
    while i < l.len()
        invariant
            i <= l.len(),
            vl == vue_valeurs(l@),
            position_cle(vl.take(i as int), k@) < 0,
        decreases l.len() - i,
    {
        assert(vl.take(i + 1).drop_last() =~= vl.take(i as int));
        assert(vl.take(i + 1).last() == vl[i as int]);
        if l[i].0 == *k {
            proof { lemma_position_suite(vl, k@, i + 1); }
            return Some(i);
        }
        i += 1;
    }
    assert(vl.take(l.len() as int) =~= vl);
    None
}

proof fn lemma_position_suite(l: Seq<(Seq<char>, Seq<Seq<char>>)>, k: Seq<char>, n: int)
    requires
        0 < n <= l.len(),
        position_cle(l.take(n), k) >= 0,
    ensures
        position_cle(l, k) == position_cle(l.take(n), k),
    decreases l.len() - n,
{
    if n < l.len() {
        assert(l.take(n + 1).drop_last() =~= l.take(n));
        lemma_position_suite(l, k, n + 1);
    } else {
        assert(l.take(n) =~= l);
    }
}

proof fn lemma_position_bornee(l: Seq<(Seq<char>, Seq<Seq<char>>)>, k: Seq<char>)
    ensures
        -1 <= position_cle(l, k) < l.len(),
        position_cle(l, k) >= 0 ==> l[position_cle(l, k)].0 == k,
    decreases l.len(),
{
    if l.len() > 0 {
        lemma_position_bornee(l.drop_last(), k);
        if position_cle(l.drop_last(), k) >= 0 {
            assert(l.drop_last()[position_cle(l.drop_last(), k)] == l[position_cle(l.drop_last(), k)]);
        }
    }
}

/// The tags of a NFO (`lire_nfo`): each tag with its values joined by
/// ` / ` (see `tags_nfo_xml`), or an error when `quick_xml` cannot read it.
pub fn lire_nfo(xml: &str) -> (r: Result<Vec<(String, String)>, String>)
    ensures
        match evenements_xml(xml@) {
            Some(evs) => r is Ok && crate::tag::vue_tags(r->Ok_0@) == tags_nfo_xml(evs),
            None => r is Err,
        },
{
    let evs = match lire_evenements_xml(xml) {
        Ok(evs) => evs,
        Err(e) => {
            let mut m = String::from_str("Erreur lecture NFO: ");
            m.append(e.as_str());
            return Err(m);
        },
    };
    let ghost vs = vues_xml(evs@);
    let mut l: Vec<(String, Vec<String>)> = Vec::new();
    let mut courant = String::new();
    let mut i: usize = 0;
    assert(vs.take(0) =~= Seq::<VueEvenementXml>::empty());
    assert(vue_valeurs(l@) =~= Seq::<(Seq<char>, Seq<Seq<char>>)>::empty());
    while i < evs.len()
        invariant
            i <= evs.len(),
            vs == vues_xml(evs@),
            etat_nfo(vs.take(i as int)) == (vue_valeurs(l@), courant@),
        decreases evs.len() - i,
    {
        assert(vs.take(i + 1).drop_last() =~= vs.take(i as int));
        assert(vs.take(i + 1).last() == vue_xml(evs@[i as int]));
        match &evs[i] {
            EvenementXml::Debut(n) => { courant = n.clone(); },
            EvenementXml::Vide(n) => { courant = n.clone(); },
            EvenementXml::Fin(_) => { courant = String::new(); },
            EvenementXml::Texte(t) => {
                let x = chaine(&rogner(&caracteres(t.as_str())));
                if courant.as_str().unicode_len() > 0 && x.as_str().unicode_len() > 0 {
                    let ghost avant = vue_valeurs(l@);
                    proof { lemma_position_bornee(avant, courant@); }
                    match position_de(&l, &courant) {
                        Some(p) => {
                            let mut paire = l.remove(p);
                            let ghost vals = crate::texte::vues_chaines(paire.1@);
                            paire.1.push(x);
                            let ghost nv = (paire.0@, crate::texte::vues_chaines(paire.1@));
                            assert(crate::texte::vues_chaines(paire.1@) =~= vals.push(x@));
                            l.insert(p, paire);
                            assert(vue_valeurs(l@) =~= avant.update(p as int, nv));
                        },
                        None => {
                            let v = vec![x];
                            let ghost xv = x@;
                            l.push((courant.clone(), v));
                            assert(crate::texte::vues_chaines(l@[l.len() - 1].1@) =~= seq![xv]);
                            assert(vue_valeurs(l@) =~= avant.push((courant@, seq![xv])));
                        },
                    }
                }
            },
            EvenementXml::Autre => {},
        }
        i += 1;
    }
    assert(vs.take(evs.len() as int) =~= vs);
    let ghost fin = vue_valeurs(l@);
    let mut r: Vec<(String, String)> = Vec::new();
    let mut j: usize = 0;
    while j < l.len()
        invariant
            j <= l.len(),
            fin == vue_valeurs(l@),
            crate::tag::vue_tags(r@) == fin.take(j as int).map_values(
                |p: (Seq<char>, Seq<Seq<char>>)| (p.0, joindre(p.1, " / "@))),
        decreases l.len() - j,
    {
        let jointe = crate::nfo::joindre_textes(&l[j].1, " / ");
        let ghost av = crate::tag::vue_tags(r@);
        let paire = (l[j].0.clone(), jointe);
        let ghost pv = (paire.0@, paire.1@);
        r.push(paire);
        assert(crate::tag::vue_tags(r@) =~= av.push(pv));
        assert(fin.take(j + 1).map_values(|p: (Seq<char>, Seq<Seq<char>>)| (p.0, joindre(p.1, " / "@)))
            =~= fin.take(j as int).map_values(|p: (Seq<char>, Seq<Seq<char>>)| (p.0, joindre(p.1, " / "@))).push(
                (fin[j as int].0, joindre(fin[j as int].1, " / "@))));
        j += 1;
    }
    assert(fin.take(l.len() as int) =~= fin);
    Ok(r)
}

} // verus!
