use vstd::prelude::*;
use vstd::string::StringExecFns;
use crate::doc_texte::{echappe_xml, echapper_xml_car};
use crate::texte::{
    caracteres, chaine, egal, en_majuscules, lecture_u32, lire_u32, premier, premiere_occurrence,
    trouver, chercher, vers_majuscules, lemma_premier,
};

verus! {

broadcast use vstd::string::group_string_axioms;

/// Tags as a list of (name, value) pairs in which no name occurs twice.
pub type Paires = Seq<(Seq<char>, Seq<char>)>;

pub open spec fn vue_tags(v: Seq<(String, String)>) -> Paires {
    v.map_values(|p: (String, String)| (p.0@, p.1@))
}

/// Position of the pair named `k`, or -1.
pub open spec fn index_cle(l: Paires, k: Seq<char>) -> int
    decreases l.len(),
{
    if l.len() == 0 {
        -1
    } else if l[0].0 == k {
        0
    } else {
        let p = index_cle(l.drop_first(), k);
        if p < 0 { -1 } else { p + 1 }
    }
}

/// The value of the tag named `k`, if there is one.
pub open spec fn valeur(l: Paires, k: Seq<char>) -> Option<Seq<char>> {
    if index_cle(l, k) >= 0 { Some(l[index_cle(l, k)].1) } else { None }
}

/// The tags with `k` set to `v` (replacing its value, or added at the end).
pub open spec fn avec(l: Paires, k: Seq<char>, v: Seq<char>) -> Paires {
    if index_cle(l, k) >= 0 { l.update(index_cle(l, k), (k, v)) } else { l.push((k, v)) }
}

/// The tags without the one named `k`.
pub open spec fn sans(l: Paires, k: Seq<char>) -> Paires
    decreases l.len(),
{
    if l.len() == 0 {
        l
    } else if l.last().0 == k {
        sans(l.drop_last(), k)
    } else {
        sans(l.drop_last(), k).push(l.last())
    }
}

pub proof fn lemma_index_cle(l: Paires, k: Seq<char>, i: int)
    requires
        0 <= i <= l.len(),
        forall|j: int| 0 <= j < i ==> l[j].0 != k,
        i == l.len() || l[i].0 == k,
    ensures
        index_cle(l, k) == if i == l.len() { -1 } else { i },
    decreases l.len(),
{
    if l.len() > 0 && i > 0 {
        assert forall|j: int| 0 <= j < i - 1 implies l.drop_first()[j].0 != k by {
            assert(l.drop_first()[j] == l[j + 1]);
        }
        if i < l.len() {
            assert(l.drop_first()[i - 1] == l[i]);
        }
        lemma_index_cle(l.drop_first(), k, i - 1);
    }
}

fn position(v: &Vec<(String, String)>, k: &[char]) -> (r: Option<usize>)
    ensures
        match r {
            Some(i) => index_cle(vue_tags(v@), k@) == i as int && i < v.len(),
            None => index_cle(vue_tags(v@), k@) == -1,
        },
{
    let mut i: usize = 0;
    let ghost l = vue_tags(v@);
    while i < v.len()
        invariant
            i <= v.len(),
            l == vue_tags(v@),
            forall|j: int| 0 <= j < i ==> l[j].0 != k@,
        decreases v.len() - i,
    {
        let c = caracteres(v[i].0.as_str());
        assert(l[i as int].0 == v@[i as int].0@);
        if egal(&c, k) {
            proof { lemma_index_cle(l, k@, i as int); }
            return Some(i);
        }
        i += 1;
    }
    proof { lemma_index_cle(l, k@, i as int); }
    None
}

/// Sets a tag (replacing its value, or adding it at the end).
pub fn mettre(v: &mut Vec<(String, String)>, k: String, val: String)
    ensures
        vue_tags(final(v)@) == avec(vue_tags(old(v)@), k@, val@),
{
    let kc = caracteres(k.as_str());
    let ghost l = vue_tags(v@);
    let ghost kv = k@;
    let ghost vv = val@;
    match position(v, &kc) {
        Some(i) => {
            v.set(i, (k, val));
            assert(vue_tags(v@) =~= l.update(i as int, (kv, vv)));
        },
        None => {
            v.push((k, val));
            assert(vue_tags(v@) =~= l.push((kv, vv)));
        },
    }
}

/// Removes a tag.
pub fn enlever(v: &Vec<(String, String)>, k: &[char]) -> (r: Vec<(String, String)>)
    ensures
        vue_tags(r@) == sans(vue_tags(v@), k@),
{
    let mut r: Vec<(String, String)> = Vec::new();
    let mut i: usize = 0;
    let ghost l = vue_tags(v@);
    assert(l.take(0) =~= Seq::<(Seq<char>, Seq<char>)>::empty());
    while i < v.len()
        invariant
            i <= v.len(),
            l == vue_tags(v@),
            vue_tags(r@) == sans(l.take(i as int), k@),
        decreases v.len() - i,
    {
        assert(l.take(i + 1).drop_last() =~= l.take(i as int));
        assert(l.take(i + 1).last() == l[i as int]);
        assert(l[i as int] == (v@[i as int].0@, v@[i as int].1@));
        let c = caracteres(v[i].0.as_str());
        if !egal(&c, k) {
            let ghost a = vue_tags(r@);
            r.push((v[i].0.clone(), v[i].1.clone()));
            assert(vue_tags(r@) =~= a.push(l[i as int]));
        }
        i += 1;
    }
    assert(l.take(v.len() as int) =~= l);
    r
}

// ───────────────────────── the tags XML ─────────────────────────

pub open spec fn entete_tags() -> Seq<char> {
    "<?xml version=\"1.0\"?>\n<Tags>\n  <Tag>\n    <Targets><TargetTypeValue>50</TargetTypeValue></Targets>\n"@
}

/// One `<Simple>` element: the name in capitals, the value escaped; a tag
/// with an empty value is left out.
pub open spec fn simple(p: (Seq<char>, Seq<char>)) -> Seq<char> {
    if p.1.len() == 0 {
        Seq::empty()
    } else {
        "    <Simple>\n"@ + "      <Name>"@ + en_majuscules(p.0) + "</Name>\n"@ + "      <String>"@
            + echappe_xml(p.1) + "</String>\n"@ + "    </Simple>\n"@
    }
}

pub open spec fn simples(l: Paires) -> Seq<char>
    decreases l.len(),
{
    if l.len() == 0 { Seq::empty() } else { simples(l.drop_last()) + simple(l.last()) }
}

/// The Matroska tags XML that mkvpropedit reads, for the given tags.
pub open spec fn xml_tags(l: Paires) -> Seq<char> {
    entete_tags() + simples(l) + "  </Tag>\n</Tags>"@
}

/// The Matroska tags XML (global target, level 50) of a list of tags.
pub fn creer_xml_tags(tags: &Vec<(String, String)>) -> (r: String)
    ensures
        r@ == xml_tags(vue_tags(tags@)),
{
    let mut xml = String::from_str(
        "<?xml version=\"1.0\"?>\n<Tags>\n  <Tag>\n    <Targets><TargetTypeValue>50</TargetTypeValue></Targets>\n",
    );
    let ghost l = vue_tags(tags@);
    let mut i: usize = 0;
    assert(l.take(0) =~= Seq::<(Seq<char>, Seq<char>)>::empty());
    while i < tags.len()
        invariant
            i <= tags.len(),
            l == vue_tags(tags@),
            xml@ == entete_tags() + simples(l.take(i as int)),
        decreases tags.len() - i,
    {
        assert(l.take(i + 1).drop_last() =~= l.take(i as int));
        assert(l.take(i + 1).last() == l[i as int]);
        let ghost avant = xml@;
        let (cle, valeur) = &tags[i];
        if !valeur.as_str().is_empty() {
            xml.append("    <Simple>\n");
            xml.append("      <Name>");
            let n = chaine(&vers_majuscules(&caracteres(cle.as_str())));
            xml.append(n.as_str());
            xml.append("</Name>\n");
            xml.append("      <String>");
            let e = chaine(&echapper_xml_car(&caracteres(valeur.as_str())));
            xml.append(e.as_str());
            xml.append("</String>\n");
            xml.append("    </Simple>\n");
        }
        assert(xml@ =~= avant + simple(l[i as int]));
        i += 1;
    }
    assert(l.take(tags.len() as int) =~= l);
    xml.append("  </Tag>\n</Tags>");
    xml
}

} // verus!

verus! {

// ───────────────────────── tags printed by ffprobe ─────────────────────────

/// The `"key": "value"` pairs of a JSON object's inside, read quote by quote.
pub open spec fn paires_json(s: Seq<char>) -> Paires
    decreases s.len(),
{
    let q1 = premier(s, '"');
    if q1 < 0 {
        Seq::empty()
    } else {
        let r1 = s.skip(q1 + 1);
        let q2 = premier(r1, '"');
        if q2 < 0 {
            Seq::empty()
        } else {
            let k = r1.take(q2);
            let r2 = r1.skip(q2 + 1);
            let c = premier(r2, ':');
            proof {
                lemma_premier(s, '"');
                lemma_premier(r1, '"');
            }
            if c < 0 {
                paires_json(r2)
            } else {
                let r3 = r2.skip(c + 1);
                let v1 = premier(r3, '"');
                if v1 < 0 {
                    Seq::empty()
                } else {
                    let r4 = r3.skip(v1 + 1);
                    let v2 = premier(r4, '"');
                    if v2 < 0 {
                        Seq::empty()
                    } else {
                        proof {
                            lemma_premier(r2, ':');
                            lemma_premier(r3, '"');
                            lemma_premier(r4, '"');
                        }
                        seq![(k, r4.take(v2))] + paires_json(r4.skip(v2 + 1))
                    }
                }
            }
        }
    }
}

pub open spec fn marque_tags() -> Seq<char> {
    seq!['"', 't', 'a', 'g', 's', '"']
}

/// The inside of the braces that follow the first `"tags"` of ffprobe's
/// JSON output, if there is one.
pub open spec fn contenu_tags(j: Seq<char>) -> Option<Seq<char>> {
    let p = premiere_occurrence(j, marque_tags());
    if p < 0 {
        None
    } else {
        let bloc = j.skip(p);
        let b = premier(bloc, '{');
        if b < 0 {
            None
        } else {
            let dedans = bloc.skip(b + 1);
            let e = premier(dedans, '}');
            if e < 0 { None } else { Some(dedans.take(e)) }
        }
    }
}

/// The pairs set one after the other (names in capitals; a later value wins).
pub open spec fn avec_toutes(l: Paires, ps: Paires) -> Paires
    decreases ps.len(),
{
    if ps.len() == 0 { l } else { avec(avec_toutes(l, ps.drop_last()), en_majuscules(ps.last().0), ps.last().1) }
}

/// The format tags of a file as ffprobe prints them in JSON.
pub open spec fn tags_de_json(j: Seq<char>) -> Paires {
    match contenu_tags(j) {
        Some(c) => avec_toutes(Seq::empty(), paires_json(c)),
        None => Seq::empty(),
    }
}

#[verifier::rlimit(40)]
fn lire_paires(v: &[char]) -> (r: Vec<(String, String)>)
    ensures
        vue_tags(r@) == paires_json(v@),
{
    let mut r: Vec<(String, String)> = Vec::new();
    let mut pos: usize = 0;
    assert(v@.skip(0) =~= v@);
    while pos < v.len()
        invariant
            pos <= v.len(),
            paires_json(v@) == vue_tags(r@) + paires_json(v@.skip(pos as int)),
        decreases v.len() - pos,
    {
        let ghost s = v@.skip(pos as int);
        proof { lemma_premier(s, '"'); }
        let q1 = match trouver(v, pos, '"') { Some(q) => q, None => {
            assert(vue_tags(r@) + Seq::<(Seq<char>, Seq<char>)>::empty() =~= vue_tags(r@));
            return r;
        } };
        let d1 = pos + q1 + 1;
        assert(s.skip(q1 + 1) =~= v@.skip(d1 as int));
        proof { lemma_premier(v@.skip(d1 as int), '"'); }
        let q2 = match trouver(v, d1, '"') { Some(q) => q, None => {
            assert(vue_tags(r@) + Seq::<(Seq<char>, Seq<char>)>::empty() =~= vue_tags(r@));
            return r;
        } };
        let cle = crate::texte::extrait(v, d1, d1 + q2);
        assert(cle@ =~= v@.skip(d1 as int).take(q2 as int));
        let d2 = d1 + q2 + 1;
        assert(v@.skip(d1 as int).skip(q2 + 1) =~= v@.skip(d2 as int));
        proof { lemma_premier(v@.skip(d2 as int), ':'); }
        let c = match trouver(v, d2, ':') { Some(c) => c, None => {
            pos = d2;
            continue;
        } };
        let d3 = d2 + c + 1;
        assert(v@.skip(d2 as int).skip(c + 1) =~= v@.skip(d3 as int));
        proof { lemma_premier(v@.skip(d3 as int), '"'); }
        let v1 = match trouver(v, d3, '"') { Some(x) => x, None => {
            assert(vue_tags(r@) + Seq::<(Seq<char>, Seq<char>)>::empty() =~= vue_tags(r@));
            return r;
        } };
        let d4 = d3 + v1 + 1;
        assert(v@.skip(d3 as int).skip(v1 + 1) =~= v@.skip(d4 as int));
        proof { lemma_premier(v@.skip(d4 as int), '"'); }
        let v2 = match trouver(v, d4, '"') { Some(x) => x, None => {
            assert(vue_tags(r@) + Seq::<(Seq<char>, Seq<char>)>::empty() =~= vue_tags(r@));
            return r;
        } };
        let val = crate::texte::extrait(v, d4, d4 + v2);
        assert(val@ =~= v@.skip(d4 as int).take(v2 as int));
        let d5 = d4 + v2 + 1;
        assert(v@.skip(d4 as int).skip(v2 + 1) =~= v@.skip(d5 as int));
        let ghost avant = vue_tags(r@);
        r.push((chaine(&cle), chaine(&val)));
        assert(vue_tags(r@) =~= avant.push((cle@, val@)));
        assert(avant + (seq![(cle@, val@)] + paires_json(v@.skip(d5 as int))) =~= vue_tags(r@) + paires_json(v@.skip(d5 as int)));
        pos = d5;
    }
    assert(v@.skip(v.len() as int) =~= Seq::<char>::empty());
    assert(paires_json(Seq::<char>::empty()) =~= Seq::<(Seq<char>, Seq<char>)>::empty());
    assert(vue_tags(r@) + Seq::<(Seq<char>, Seq<char>)>::empty() =~= vue_tags(r@));
    r
}

/// The format tags of a MKV, read from ffprobe's JSON output
/// (`-show_entries format_tags`): names in capitals, a later value winning.
pub fn lire_tags_mkv(json: &str) -> (r: Vec<(String, String)>)
    ensures
        vue_tags(r@) == tags_de_json(json@),
{
    let j = caracteres(json);
    let marque = ['"', 't', 'a', 'g', 's', '"'];
    assert(marque@ =~= marque_tags());
    let mut tags: Vec<(String, String)> = Vec::new();
    let p = match chercher(&j, &marque) { Some(p) => p, None => return tags };
    proof { lemma_premier(j@.skip(p as int), '{'); }
    let b = match trouver(&j, p, '{') { Some(b) => b, None => return tags };
    let d = p + b + 1;
    assert(j@.skip(p as int).skip(b + 1) =~= j@.skip(d as int));
    proof { lemma_premier(j@.skip(d as int), '}'); }
    let e = match trouver(&j, d, '}') { Some(e) => e, None => return tags };
    let contenu = crate::texte::extrait(&j, d, d + e);
    assert(contenu@ =~= j@.skip(d as int).take(e as int));
    let paires = lire_paires(&contenu);
    let ghost ps = vue_tags(paires@);
    let mut i: usize = 0;
    assert(ps.take(0) =~= Seq::<(Seq<char>, Seq<char>)>::empty());
    while i < paires.len()
        invariant
            i <= paires.len(),
            ps == vue_tags(paires@),
            vue_tags(tags@) == avec_toutes(Seq::empty(), ps.take(i as int)),
        decreases paires.len() - i,
    {
        assert(ps.take(i + 1).drop_last() =~= ps.take(i as int));
        assert(ps.take(i + 1).last() == ps[i as int]);
        let k = chaine(&vers_majuscules(&caracteres(paires[i].0.as_str())));
        mettre(&mut tags, k, paires[i].1.clone());
        i += 1;
    }
    assert(ps.take(paires.len() as int) =~= ps);
    tags
}

} // verus!

verus! {

// ───────────────────────── marking as watched ─────────────────────────

/// The play count that the tags hold (0 when absent or unreadable).
pub open spec fn compte_lectures(l: Paires) -> u32 {
    match valeur(l, "PLAYCOUNT"@) {
        Some(v) => match lecture_u32(v) { Some(n) => n, None => 0 },
        None => 0,
    }
}

/// The tags of a video marked as watched: the play count raised by one,
/// `WATCHED` set to `true`, `KEYWORDS` to `VU` (French) or `WATCHED`.
pub open spec fn tags_vus(l: Paires, lang_id: Seq<char>) -> Paires {
    let l1 = avec(l, "PLAYCOUNT"@, crate::texte::decimal((compte_lectures(l) + 1) as nat));
    let l2 = avec(l1, "WATCHED"@, "true"@);
    avec(l2, "KEYWORDS"@, if lang_id == "fr"@ { "VU"@ } else { "WATCHED"@ })
}

fn chercher_valeur(v: &Vec<(String, String)>, k: &str) -> (r: Option<String>)
    ensures
        match r {
            Some(x) => valeur(vue_tags(v@), k@) == Some(x@),
            None => valeur(vue_tags(v@), k@) is None,
        },
{
    let kc = caracteres(k);
    match position(v, &kc) {
        Some(i) => Some(v[i].1.clone()),
        None => None,
    }
}

/// The tags to write back into a MKV that is marked as watched (the
/// existing tags kept, the watched status added on top).
pub fn marquer_vu(tags: &Vec<(String, String)>, lang_id: &str) -> (r: Vec<(String, String)>)
    requires
        compte_lectures(vue_tags(tags@)) < u32::MAX,
    ensures
        vue_tags(r@) == tags_vus(vue_tags(tags@), lang_id@),
{
    let pc: u32 = match chercher_valeur(tags, "PLAYCOUNT") {
        Some(v) => match lire_u32(&caracteres(v.as_str())) { Some(n) => n, None => 0 },
        None => 0,
    };
    let mut r: Vec<(String, String)> = Vec::new();
    let mut i: usize = 0;
    while i < tags.len()
        invariant
            i <= tags.len(),
            vue_tags(r@) == vue_tags(tags@).take(i as int),
        decreases tags.len() - i,
    {
        let ghost avant = vue_tags(r@);
        let a = tags[i].0.clone();
        let b = tags[i].1.clone();
        assert(vue_tags(tags@)[i as int] == (a@, b@));
        r.push((a, b));
        assert(vue_tags(r@) =~= avant.push((a@, b@)));
        assert(vue_tags(tags@).take(i + 1) =~= vue_tags(tags@).take(i as int).push((a@, b@)));
        i += 1;
    }
    assert(vue_tags(tags@).take(tags.len() as int) =~= vue_tags(tags@));
    let n = chaine(&crate::texte::ecrire_decimal((pc + 1) as u128));
    mettre(&mut r, String::from_str("PLAYCOUNT"), n);
    mettre(&mut r, String::from_str("WATCHED"), String::from_str("true"));
    let etiquette = if crate::texte::est_mot(lang_id, "fr") { "VU" } else { "WATCHED" };
    mettre(&mut r, String::from_str("KEYWORDS"), String::from_str(etiquette));
    r
}

proof fn lemma_index_proprietes(l: Paires, k: Seq<char>)
    ensures
        -1 <= index_cle(l, k) < l.len(),
        index_cle(l, k) >= 0 ==> l[index_cle(l, k)].0 == k,
        forall|j: int| 0 <= j < (if index_cle(l, k) >= 0 { index_cle(l, k) } else { l.len() as int })
            ==> #[trigger] l[j].0 != k,
    decreases l.len(),
{
    if l.len() > 0 && l[0].0 != k {
        lemma_index_proprietes(l.drop_first(), k);
        assert forall|j: int| 0 <= j < (if index_cle(l, k) >= 0 { index_cle(l, k) } else { l.len() as int })
            implies #[trigger] l[j].0 != k by {
            if j > 0 {
                assert(l[j] == l.drop_first()[j - 1]);
            }
        }
    }
}

/// Setting a tag gives it the value set and leaves the others as they were.
pub proof fn lemma_valeur_avec(l: Paires, k: Seq<char>, v: Seq<char>, k2: Seq<char>)
    ensures
        valeur(avec(l, k, v), k2) == if k2 == k { Some(v) } else { valeur(l, k2) },
{
    lemma_index_proprietes(l, k);
    lemma_index_proprietes(l, k2);
    let i = index_cle(l, k);
    let p = index_cle(l, k2);
    let m = avec(l, k, v);
    if i >= 0 {
        if k2 == k {
            assert forall|j: int| 0 <= j < i implies m[j].0 != k by { assert(l[j].0 != k); }
            lemma_index_cle(m, k, i);
        } else {
            let q = if p >= 0 { p } else { l.len() as int };
            assert forall|j: int| 0 <= j < q implies m[j].0 != k2 by { assert(l[j].0 != k2); }
            if p >= 0 {
                assert(p != i);
            }
            lemma_index_cle(m, k2, q);
        }
    } else {
        if k2 == k {
            assert forall|j: int| 0 <= j < l.len() implies m[j].0 != k by { assert(m[j] == l[j]); }
            lemma_index_cle(m, k, l.len() as int);
        } else {
            if p >= 0 {
                assert forall|j: int| 0 <= j < p implies m[j].0 != k2 by { assert(m[j] == l[j]); }
                assert(m[p] == l[p]);
                lemma_index_cle(m, k2, p);
            } else {
                assert forall|j: int| 0 <= j < m.len() implies m[j].0 != k2 by {
                    if j < l.len() { assert(m[j] == l[j]); }
                }
                lemma_index_cle(m, k2, m.len() as int);
            }
        }
    }
}

/// Marking a video as watched is cumulative: each marking raises its play
/// count by one, whatever the language.
pub proof fn loi_vu_cumulatif(l: Paires, lang_id: Seq<char>)
    requires
        compte_lectures(l) < u32::MAX,
    ensures
        compte_lectures(tags_vus(l, lang_id)) == compte_lectures(l) + 1,
        valeur(tags_vus(l, lang_id), "WATCHED"@) == Some("true"@),
{
    let n = (compte_lectures(l) + 1) as nat;
    let d = crate::texte::decimal(n);
    let l1 = avec(l, "PLAYCOUNT"@, d);
    let l2 = avec(l1, "WATCHED"@, "true"@);
    let lang = if lang_id == "fr"@ { "VU"@ } else { "WATCHED"@ };
    reveal_strlit("PLAYCOUNT");
    reveal_strlit("WATCHED");
    reveal_strlit("KEYWORDS");
    assert("PLAYCOUNT"@ != "WATCHED"@) by { assert("PLAYCOUNT"@[0] != "WATCHED"@[0]); }
    assert("PLAYCOUNT"@ != "KEYWORDS"@) by { assert("PLAYCOUNT"@[0] != "KEYWORDS"@[0]); }
    assert("WATCHED"@ != "KEYWORDS"@) by { assert("WATCHED"@[0] != "KEYWORDS"@[0]); }
    lemma_valeur_avec(l, "PLAYCOUNT"@, d, "PLAYCOUNT"@);
    lemma_valeur_avec(l1, "WATCHED"@, "true"@, "PLAYCOUNT"@);
    lemma_valeur_avec(l2, "KEYWORDS"@, lang, "PLAYCOUNT"@);
    lemma_valeur_avec(l1, "WATCHED"@, "true"@, "WATCHED"@);
    lemma_valeur_avec(l2, "KEYWORDS"@, lang, "WATCHED"@);
    crate::texte::lemma_lecture_decimal(n);
}

// ───────────────────────── mkvpropedit commands ─────────────────────────

/// The mkvpropedit arguments that set one property of the segment info:
/// `<mkv> --edit info --set <tag>=<value>`.
pub fn modifier_tag(mkv_path: &str, tag: &str, valeur: &str) -> (r: Vec<String>)
    ensures
        crate::texte::vues_chaines(r@) == seq![mkv_path@, "--edit"@, "info"@, "--set"@, tag@ + "="@ + valeur@],
{
    let mut set = String::from_str(tag);
    set.append("=");
    set.append(valeur);
    let r = vec![String::from_str(mkv_path), String::from_str("--edit"), String::from_str("info"),
        String::from_str("--set"), set];
    assert(crate::texte::vues_chaines(r@) =~= seq![mkv_path@, "--edit"@, "info"@, "--set"@, tag@ + "="@ + valeur@]);
    r
}

/// The mkvpropedit arguments that replace the global tags with those of an
/// XML file: `<mkv> --tags global:<xml>`.
pub fn arguments_tags(mkv_path: &str, xml: &str) -> (r: Vec<String>)
    ensures
        crate::texte::vues_chaines(r@) == seq![mkv_path@, "--tags"@, "global:"@ + xml@],
{
    let mut g = String::from_str("global:");
    g.append(xml);
    let r = vec![String::from_str(mkv_path), String::from_str("--tags"), g];
    assert(crate::texte::vues_chaines(r@) =~= seq![mkv_path@, "--tags"@, "global:"@ + xml@]);
    r
}

/// The MIME type of a poster: PNG for a `png` extension, JPEG otherwise.
pub open spec fn mime_poster(poster: Seq<char>) -> Seq<char> {
    if crate::chemin::extension_chemin(poster) == Some("png"@) { "image/png"@ } else { "image/jpeg"@ }
}

/// The mkvpropedit arguments that attach the poster as the cover, or `None`
/// when there is no poster (then nothing is to be done).
pub fn ajouter_images_mkv(mkv_path: &str, poster: Option<&str>) -> (r: Option<Vec<String>>)
    ensures
        match poster {
            None => r is None,
            Some(p) => r is Some && crate::texte::vues_chaines(r->0@) == seq![mkv_path@, "--attachment-name"@,
                "cover"@, "--attachment-mime-type"@, mime_poster(p@), "--add-attachment"@, p@],
        },
{
    let p = match poster { Some(p) => p, None => return None };
    let est_png = match crate::chemin::extension_de(p) {
        Some(e) => {
            let png = caracteres("png");
            egal(&e, &png)
        },
        None => false,
    };
    let mime = if est_png { "image/png" } else { "image/jpeg" };
    let r = vec![String::from_str(mkv_path), String::from_str("--attachment-name"), String::from_str("cover"),
        String::from_str("--attachment-mime-type"), String::from_str(mime), String::from_str("--add-attachment"),
        String::from_str(p)];
    assert(crate::texte::vues_chaines(r@) =~= seq![mkv_path@, "--attachment-name"@, "cover"@,
        "--attachment-mime-type"@, mime_poster(p@), "--add-attachment"@, p@]);
    Some(r)
}

/// The mkvpropedit arguments that remove every tag, the title and the image
/// attachments, the tags being replaced by those of an empty XML file.
pub fn supprimer_tous_tags(mkv_path: &str, xml_vide: &str) -> (r: Vec<String>)
    ensures
        crate::texte::vues_chaines(r@) == seq![mkv_path@, "--tags"@, "global:"@ + xml_vide@, "--edit"@, "info"@,
            "--set"@, "title="@, "--delete-attachment"@, "mime-type:image/jpeg"@, "--delete-attachment"@,
            "mime-type:image/png"@],
{
    let mut g = String::from_str("global:");
    g.append(xml_vide);
    let r = vec![String::from_str(mkv_path), String::from_str("--tags"), g, String::from_str("--edit"),
        String::from_str("info"), String::from_str("--set"), String::from_str("title="),
        String::from_str("--delete-attachment"), String::from_str("mime-type:image/jpeg"),
        String::from_str("--delete-attachment"), String::from_str("mime-type:image/png")];
    assert(crate::texte::vues_chaines(r@) =~= seq![mkv_path@, "--tags"@, "global:"@ + xml_vide@, "--edit"@,
        "info"@, "--set"@, "title="@, "--delete-attachment"@, "mime-type:image/jpeg"@, "--delete-attachment"@,
        "mime-type:image/png"@]);
    r
}

} // verus!

verus! {

// ───────────────────────── NFO tags ─────────────────────────

/// The text before the first `-` (all of it when there is none).
pub open spec fn avant_tiret(s: Seq<char>) -> Seq<char> {
    if premier(s, '-') < 0 { s } else { s.take(premier(s, '-')) }
}

/// The tags to write from those of a NFO: the play status left out,
/// the rating comment (`"x / 10"`, computed by the caller from `value`) as
/// `COMMENT`, the year as `RELEASETIME`, and the year of `premiered` as
/// `DATE_RELEASED`.
pub open spec fn tags_nfo(l: Paires, commentaire: Option<Seq<char>>) -> Paires {
    let l1 = sans(sans(sans(sans(l, "playcount"@), "watched"@), "watchedstatus"@), "KEYWORDS"@);
    let l2 = match commentaire { Some(c) => avec(l1, "COMMENT"@, c), None => l1 };
    let l3 = match valeur(l2, "year"@) {
        Some(y) => if y.len() > 0 { avec(l2, "RELEASETIME"@, y) } else { l2 },
        None => l2,
    };
    let l4 = sans(l3, "premiered"@);
    match valeur(l3, "premiered"@) {
        Some(p) => if p.len() > 0 { avec(l4, "DATE_RELEASED"@, avant_tiret(p)) } else { l4 },
        None => l4,
    }
}

/// The tags to inject into a MKV from its NFO.
pub fn appliquer_tags(tags: &Vec<(String, String)>, commentaire: Option<String>) -> (r: Vec<(String, String)>)
    ensures
        vue_tags(r@) == tags_nfo(vue_tags(tags@), match commentaire { Some(c) => Some(c@), None => None }),
{
    let l1 = enlever(tags, &caracteres("playcount"));
    let l1 = enlever(&l1, &caracteres("watched"));
    let l1 = enlever(&l1, &caracteres("watchedstatus"));
    let mut l = enlever(&l1, &caracteres("KEYWORDS"));
    match commentaire {
        Some(c) => mettre(&mut l, String::from_str("COMMENT"), c),
        None => {},
    }
    match chercher_valeur(&l, "year") {
        Some(y) => if !y.as_str().is_empty() { mettre(&mut l, String::from_str("RELEASETIME"), y) },
        None => {},
    }
    let premiered = chercher_valeur(&l, "premiered");
    let mut l4 = enlever(&l, &caracteres("premiered"));
    match premiered {
        Some(p) => if !p.as_str().is_empty() {
            let v = caracteres(p.as_str());
            proof { lemma_premier(v@, '-'); }
            let a = match trouver(&v, 0, '-') {
                Some(k) => crate::texte::extrait(&v, 0, k),
                None => crate::texte::extrait(&v, 0, v.len()),
            };
            assert(v@.skip(0) =~= v@);
            assert(v@.subrange(0, v.len() as int) =~= v@);
            mettre(&mut l4, String::from_str("DATE_RELEASED"), chaine(&a));
        },
        None => {},
    }
    l4
}

// ───────────────────────── NFO and poster files ─────────────────────────

pub open spec fn deux_chiffres(n: u32) -> Seq<char> {
    crate::texte::avec_zeros(crate::texte::decimal(n as nat), 2)
}

/// The NFO file names to look for, in order, for a video (its file name
/// without extension): for an episode `<title>_seasonNN.nfo` then
/// `seasonNN.nfo`; for any video `<stem>.nfo`.
pub open spec fn noms_nfo(stem: Seq<char>) -> Seq<Seq<char>> {
    let film = seq![stem + ".nfo"@];
    match crate::scrap::info_serie(stem) {
        Some((t, n)) => seq![t + "_season"@ + deux_chiffres(n) + ".nfo"@, "season"@ + deux_chiffres(n) + ".nfo"@]
            + film,
        None => film,
    }
}

/// The poster file names to look for, in order: for an episode
/// `<title>_seasonNN_poster.jpg`, `seasonNN_poster.jpg`, `seasonNN-poster.jpg`;
/// for a film `<stem>_poster.jpg`, `<stem>-poster.jpg`, `poster.jpg`.
pub open spec fn noms_poster(stem: Seq<char>) -> Seq<Seq<char>> {
    match crate::scrap::info_serie(stem) {
        Some((t, n)) => seq![t + "_season"@ + deux_chiffres(n) + "_poster.jpg"@,
            "season"@ + deux_chiffres(n) + "_poster.jpg"@, "season"@ + deux_chiffres(n) + "-poster.jpg"@],
        None => seq![stem + "_poster.jpg"@, stem + "-poster.jpg"@, "poster.jpg"@],
    }
}

fn deux_chiffres_de(n: u32) -> (r: String)
    ensures
        r@ == deux_chiffres(n),
{
    chaine(&crate::texte::ecrire_decimal_zeros(n as u128, 2))
}

fn colle(a: &str, b: &str) -> (r: String)
    ensures
        r@ == a@ + b@,
{
    let mut r = String::from_str(a);
    r.append(b);
    r
}

fn colle3(a: &str, b: &str, c: &str) -> (r: String)
    ensures
        r@ == a@ + b@ + c@,
{
    let mut r = String::from_str(a);
    r.append(b);
    r.append(c);
    r
}

/// The NFO file names to look for next to a video (then in its `Extras`
/// folder), in order of preference.
pub fn candidats_nfo(mkv_path: &str) -> (r: Vec<String>)
    ensures
        crate::texte::vues_chaines(r@) == noms_nfo(crate::chemin::radical(crate::chemin::nom_fichier(mkv_path@))),
{
    let stem = chaine(&crate::chemin::radical_de(mkv_path));
    let film = colle(stem.as_str(), ".nfo");
    match crate::scrap::extract_series_info(stem.as_str()) {
        Some((t, n)) => {
            let d = deux_chiffres_de(n);
            let a = colle3(t.as_str(), "_season", d.as_str());
            let a = colle(a.as_str(), ".nfo");
            let b = colle3("season", d.as_str(), ".nfo");
            let r = vec![a, b, film];
            assert(crate::texte::vues_chaines(r@) =~= noms_nfo(stem@));
            r
        },
        None => {
            let r = vec![film];
            assert(crate::texte::vues_chaines(r@) =~= noms_nfo(stem@));
            r
        },
    }
}

/// The poster file names to look for next to a video (then in its `Extras`
/// folder), in order of preference.
pub fn candidats_poster(mkv_path: &str) -> (r: Vec<String>)
    ensures
        crate::texte::vues_chaines(r@) == noms_poster(crate::chemin::radical(crate::chemin::nom_fichier(mkv_path@))),
{
    let stem = chaine(&crate::chemin::radical_de(mkv_path));
    match crate::scrap::extract_series_info(stem.as_str()) {
        Some((t, n)) => {
            let d = deux_chiffres_de(n);
            let a = colle3(t.as_str(), "_season", d.as_str());
            let a = colle(a.as_str(), "_poster.jpg");
            let b = colle3("season", d.as_str(), "_poster.jpg");
            let c = colle3("season", d.as_str(), "-poster.jpg");
            let r = vec![a, b, c];
            assert(crate::texte::vues_chaines(r@) =~= noms_poster(stem@));
            r
        },
        None => {
            let a = colle(stem.as_str(), "_poster.jpg");
            let b = colle(stem.as_str(), "-poster.jpg");
            let r = vec![a, b, String::from_str("poster.jpg")];
            assert(crate::texte::vues_chaines(r@) =~= noms_poster(stem@));
            r
        },
    }
}

/// Argument lists, each seen as its strings.
pub open spec fn vues_appels(r: Seq<Vec<String>>) -> Seq<Seq<Seq<char>>> {
    r.map_values(|v: Vec<String>| crate::texte::vues_chaines(v@))
}

/// NFO and poster injection: the mkvpropedit runs to make, in order. First
/// the tags of the NFO, when one was found (their XML being in the file
/// `xml_tags`), then the poster, when one was found. The runs stop at the
/// first that fails.
pub fn injecter_nfo_et_poster(mkv_path: &str, xml_tags: Option<&str>, poster: Option<&str>) -> (r: Vec<Vec<String>>)
    ensures
        vues_appels(r@) == (match xml_tags {
            Some(x) => seq![seq![mkv_path@, "--tags"@, "global:"@ + x@]],
            None => Seq::empty(),
        }) + (match poster {
            Some(p) => seq![seq![mkv_path@, "--attachment-name"@, "cover"@, "--attachment-mime-type"@,
                mime_poster(p@), "--add-attachment"@, p@]],
            None => Seq::empty(),
        }),
{
    let mut r: Vec<Vec<String>> = Vec::new();
    let ghost a = match xml_tags {
        Some(x) => seq![seq![mkv_path@, "--tags"@, "global:"@ + x@]],
        None => Seq::<Seq<Seq<char>>>::empty(),
    };
    if let Some(x) = xml_tags {
        r.push(arguments_tags(mkv_path, x));
    }
    assert(vues_appels(r@) =~= a);
    if let Some(args) = ajouter_images_mkv(mkv_path, poster) {
        r.push(args);
    }
    assert(vues_appels(r@) =~= a + (match poster {
        Some(p) => seq![seq![mkv_path@, "--attachment-name"@, "cover"@, "--attachment-mime-type"@,
            mime_poster(p@), "--add-attachment"@, p@]],
        None => Seq::empty(),
    }));
    r
}


// ───────────────────────── mkvpropedit runs ─────────────────────────

/// What a run of mkvpropedit is for; each has its failure message.
#[derive(Debug, Clone, Copy, PartialEq, Eq, Structural)]
pub enum CommandeMkv {
    MarquerVu,
    Modifier,
    Metadonnees,
    Poster,
    Reset,
}

/// The error when mkvpropedit ends in failure.
pub open spec fn message_echec(c: CommandeMkv) -> Seq<char> {
    match c {
        CommandeMkv::MarquerVu => "Erreur marquage VU complet"@,
        CommandeMkv::Modifier => "Erreur modification tag"@,
        CommandeMkv::Metadonnees => "Erreur injection métadonnées"@,
        CommandeMkv::Poster => "Erreur injection poster"@,
        CommandeMkv::Reset => "Erreur reset"@,
    }
}

/// How one run of mkvpropedit went: it could not be started (the system's
/// message), or it ended, in success or not.
pub enum Lancement {
    Impossible(String),
    Fin(bool),
}

/// The result of a tag command from its single run of mkvpropedit: `Ok`
/// on success, the command's failure message on a failing exit, the
/// system's message when mkvpropedit could not be started.
pub fn issue_mkvpropedit(c: CommandeMkv, l: Lancement) -> (r: Result<(), String>)
    ensures
        match l {
            Lancement::Impossible(e) => r matches Err(m) && m@ == e@,
            Lancement::Fin(ok) => if ok { r is Ok } else { r matches Err(m) && m@ == message_echec(c) },
        },
{
    match l {
        Lancement::Impossible(e) => Err(e),
        Lancement::Fin(true) => Ok(()),
        Lancement::Fin(false) => Err(String::from_str(match c {
            CommandeMkv::MarquerVu => "Erreur marquage VU complet",
            CommandeMkv::Modifier => "Erreur modification tag",
            CommandeMkv::Metadonnees => "Erreur injection métadonnées",
            CommandeMkv::Poster => "Erreur injection poster",
            CommandeMkv::Reset => "Erreur reset",
        })),
    }
}

/// What the `j`-th run of `injecter_nfo_et_poster` is for: the tags of the
/// NFO first when there are some, then the poster.
pub fn commande_injection(avec_tags: bool, j: usize) -> (r: CommandeMkv)
    ensures
        r == if avec_tags && j == 0 { CommandeMkv::Metadonnees } else { CommandeMkv::Poster },
{
    if avec_tags && j == 0 { CommandeMkv::Metadonnees } else { CommandeMkv::Poster }
}

/// What follows a run among several: the next run, or the result.
#[derive(Debug, PartialEq, Eq)]
pub enum SuiteAppels {
    Lancer(usize),
    Fin(Result<(), String>),
}

/// The runs of `injecter_nfo_et_poster` go in order and stop at the first
/// failure: from `n` runs, the first to make (none: `Ok`).
pub fn debut_appels(n: usize) -> (r: SuiteAppels)
    ensures
        r == if n == 0 { SuiteAppels::Fin(Ok(())) } else { SuiteAppels::Lancer(0) },
{
    if n == 0 { SuiteAppels::Fin(Ok(())) } else { SuiteAppels::Lancer(0) }
}

/// After run `i` of `n` gave `issue`: its error is the result; else the next
/// run, or `Ok` after the last.
pub fn suite_appels(n: usize, i: usize, issue: Result<(), String>) -> (r: SuiteAppels)
    requires
        i < n,
    ensures
        match issue {
            Err(e) => r == SuiteAppels::Fin(Err(e)),
            Ok(()) => r == if i + 1 < n { SuiteAppels::Lancer((i + 1) as usize) } else { SuiteAppels::Fin(Ok(())) },
        },
{
    match issue {
        Err(e) => SuiteAppels::Fin(Err(e)),
        Ok(()) => if i + 1 < n { SuiteAppels::Lancer(i + 1) } else { SuiteAppels::Fin(Ok(())) },
    }
}

} // verus!

verus! {

/// Whether no tag is named `k`.
pub open spec fn sans_cle(l: Paires, k: Seq<char>) -> bool {
    forall|i: int| 0 <= i < l.len() ==> (#[trigger] l[i]).0 != k
}

proof fn lemma_sans_retire(l: Paires, k: Seq<char>, k2: Seq<char>)
    ensures
        sans_cle(sans(l, k), k),
        sans_cle(l, k2) ==> sans_cle(sans(l, k), k2),
    decreases l.len(),
{
    if l.len() > 0 {
        let u = l.drop_last();
        lemma_sans_retire(u, k, k2);
        if sans_cle(l, k2) {
            assert forall|i: int| 0 <= i < u.len() implies (#[trigger] u[i]).0 != k2 by {
                assert(u[i] == l[i]);
            }
            assert(l[l.len() - 1].0 != k2);
        }
        let r = sans(u, k);
        if l.last().0 != k {
            assert(sans(l, k) == r.push(l.last()));
            assert forall|i: int| 0 <= i < r.push(l.last()).len() implies (#[trigger] r.push(l.last())[i]).0 != k by {
                if i < r.len() {
                    assert(r.push(l.last())[i] == r[i]);
                }
            }
            if sans_cle(l, k2) {
                assert(l[l.len() - 1].0 != k2);
                assert forall|i: int| 0 <= i < r.push(l.last()).len() implies (#[trigger] r.push(l.last())[i]).0 != k2 by {
                    if i < r.len() {
                        assert(r.push(l.last())[i] == r[i]);
                    }
                }
            }
        }
    }
}

proof fn lemma_avec_garde(l: Paires, k: Seq<char>, v: Seq<char>, k2: Seq<char>)
    requires
        sans_cle(l, k2),
        k != k2,
    ensures
        sans_cle(avec(l, k, v), k2),
{
    let m = avec(l, k, v);
    assert forall|i: int| 0 <= i < m.len() implies (#[trigger] m[i]).0 != k2 by {
        if index_cle(l, k) >= 0 {
            lemma_index_proprietes(l, k);
            if i != index_cle(l, k) {
                assert(m[i] == l[i]);
            }
        } else if i < l.len() {
            assert(m[i] == l[i]);
        }
    }
}

proof fn lemma_sans_cle_valeur(l: Paires, k: Seq<char>)
    requires
        sans_cle(l, k),
    ensures
        valeur(l, k) is None,
{
    lemma_index_cle(l, k, l.len() as int);
}

proof fn lemma_cles_distinctes(k: Seq<char>)
    requires
        k == "playcount"@ || k == "watched"@ || k == "watchedstatus"@ || k == "KEYWORDS"@,
    ensures
        k != "COMMENT"@,
        k != "RELEASETIME"@,
        k != "DATE_RELEASED"@,
        k != "premiered"@,
{
    reveal_strlit("playcount");
    reveal_strlit("watched");
    reveal_strlit("watchedstatus");
    reveal_strlit("KEYWORDS");
    reveal_strlit("COMMENT");
    reveal_strlit("RELEASETIME");
    reveal_strlit("DATE_RELEASED");
    reveal_strlit("premiered");
    assert(k[0] != "COMMENT"@[0]);
    assert(k[0] != "RELEASETIME"@[0]);
    assert(k[0] != "DATE_RELEASED"@[0]);
    assert(k.len() != "premiered"@.len() || k[0] != "premiered"@[0] || k[1] != "premiered"@[1]);
}

/// The tags injected into a MKV from its NFO never carry the play status:
/// none is named `playcount`, `watched`, `watchedstatus` or `KEYWORDS`,
/// whatever the NFO holds, so the MKV's own play status is not overwritten.
pub proof fn loi_statut_de_lecture_garde(l: Paires, commentaire: Option<Seq<char>>, k: Seq<char>)
    requires
        k == "playcount"@ || k == "watched"@ || k == "watchedstatus"@ || k == "KEYWORDS"@,
    ensures
        valeur(tags_nfo(l, commentaire), k) is None,
{
    lemma_cles_distinctes(k);
    let a = sans(l, "playcount"@);
    let b = sans(a, "watched"@);
    let c = sans(b, "watchedstatus"@);
    let l1 = sans(c, "KEYWORDS"@);
    lemma_sans_retire(l, "playcount"@, k);
    lemma_sans_retire(a, "watched"@, k);
    lemma_sans_retire(b, "watchedstatus"@, k);
    lemma_sans_retire(c, "KEYWORDS"@, k);
    assert(sans_cle(l1, k));
    let l2 = match commentaire { Some(x) => avec(l1, "COMMENT"@, x), None => l1 };
    if let Some(x) = commentaire {
        lemma_avec_garde(l1, "COMMENT"@, x, k);
    }
    let l3 = match valeur(l2, "year"@) {
        Some(y) => if y.len() > 0 { avec(l2, "RELEASETIME"@, y) } else { l2 },
        None => l2,
    };
    if let Some(y) = valeur(l2, "year"@) {
        if y.len() > 0 {
            lemma_avec_garde(l2, "RELEASETIME"@, y, k);
        }
    }
    assert(sans_cle(l3, k));
    let l4 = sans(l3, "premiered"@);
    lemma_sans_retire(l3, "premiered"@, k);
    if let Some(p) = valeur(l3, "premiered"@) {
        if p.len() > 0 {
            lemma_avec_garde(l4, "DATE_RELEASED"@, avant_tiret(p), k);
        }
    }
    lemma_sans_cle_valeur(tags_nfo(l, commentaire), k);
}

proof fn lemma_valeur_push(l: Paires, x: (Seq<char>, Seq<char>), k: Seq<char>)
    ensures
        valeur(l.push(x), k) == match valeur(l, k) {
            Some(v) => Some(v),
            None => if x.0 == k { Some(x.1) } else { None },
        },
{
    lemma_index_proprietes(l, k);
    let m = l.push(x);
    let i = index_cle(l, k);
    if i >= 0 {
        assert forall|j: int| 0 <= j < i implies m[j].0 != k by { assert(m[j] == l[j]); }
        assert(m[i] == l[i]);
        lemma_index_cle(m, k, i);
    } else {
        assert forall|j: int| 0 <= j < l.len() implies m[j].0 != k by { assert(m[j] == l[j]); }
        if x.0 == k {
            lemma_index_cle(m, k, l.len() as int);
        } else {
            assert forall|j: int| 0 <= j < m.len() implies m[j].0 != k by {
                if j < l.len() { assert(m[j] == l[j]); }
            }
            lemma_index_cle(m, k, m.len() as int);
        }
    }
}

proof fn lemma_valeur_sans(l: Paires, k2: Seq<char>, k: Seq<char>)
    requires
        k != k2,
    ensures
        valeur(sans(l, k2), k) == valeur(l, k),
    decreases l.len(),
{
    if l.len() > 0 {
        let u = l.drop_last();
        lemma_valeur_sans(u, k2, k);
        assert(u.push(l.last()) =~= l);
        lemma_valeur_push(u, l.last(), k);
        if l.last().0 != k2 {
            lemma_valeur_push(sans(u, k2), l.last(), k);
        }
    }
}

/// The tags injected from a NFO keep every other tag of the NFO as it is
/// (all but the play status, `premiered`, and the `COMMENT`, `RELEASETIME`
/// and `DATE_RELEASED` that they set), and the comment given becomes the
/// `COMMENT`.
pub proof fn loi_autres_tags_gardes(l: Paires, commentaire: Option<Seq<char>>, k: Seq<char>)
    requires
        k != "playcount"@ && k != "watched"@ && k != "watchedstatus"@ && k != "KEYWORDS"@,
        k != "COMMENT"@ && k != "RELEASETIME"@ && k != "premiered"@ && k != "DATE_RELEASED"@,
    ensures
        valeur(tags_nfo(l, commentaire), k) == valeur(l, k),
        commentaire matches Some(c) ==> valeur(tags_nfo(l, commentaire), "COMMENT"@) == Some(c),
{
    let a = sans(l, "playcount"@);
    let b = sans(a, "watched"@);
    let c = sans(b, "watchedstatus"@);
    let l1 = sans(c, "KEYWORDS"@);
    lemma_valeur_sans(l, "playcount"@, k);
    lemma_valeur_sans(a, "watched"@, k);
    lemma_valeur_sans(b, "watchedstatus"@, k);
    lemma_valeur_sans(c, "KEYWORDS"@, k);
    let l2 = match commentaire { Some(x) => avec(l1, "COMMENT"@, x), None => l1 };
    if let Some(x) = commentaire {
        lemma_valeur_avec(l1, "COMMENT"@, x, k);
    }
    let l3 = match valeur(l2, "year"@) {
        Some(y) => if y.len() > 0 { avec(l2, "RELEASETIME"@, y) } else { l2 },
        None => l2,
    };
    if let Some(y) = valeur(l2, "year"@) {
        if y.len() > 0 {
            lemma_valeur_avec(l2, "RELEASETIME"@, y, k);
        }
    }
    let l4 = sans(l3, "premiered"@);
    lemma_valeur_sans(l3, "premiered"@, k);
    if let Some(p) = valeur(l3, "premiered"@) {
        if p.len() > 0 {
            lemma_valeur_avec(l4, "DATE_RELEASED"@, avant_tiret(p), k);
        }
    }
    if let Some(x) = commentaire {
        reveal_strlit("COMMENT");
        reveal_strlit("RELEASETIME");
        reveal_strlit("premiered");
        reveal_strlit("DATE_RELEASED");
        let cm = "COMMENT"@;
        assert(cm[0] != "RELEASETIME"@[0] && cm[0] != "premiered"@[0] && cm[0] != "DATE_RELEASED"@[0]);
        lemma_valeur_avec(l1, "COMMENT"@, x, cm);
        if let Some(y) = valeur(l2, "year"@) {
            if y.len() > 0 {
                lemma_valeur_avec(l2, "RELEASETIME"@, y, cm);
            }
        }
        lemma_valeur_sans(l3, "premiered"@, cm);
        if let Some(p) = valeur(l3, "premiered"@) {
            if p.len() > 0 {
                lemma_valeur_avec(l4, "DATE_RELEASED"@, avant_tiret(p), cm);
            }
        }
    }
}

} // verus!
