use vstd::prelude::*;
use vstd::string::StringExecFns;
use crate::chemin::{extension_chemin, extension_de};
use crate::mise_en_page::lemma_morceaux_non_vides;
use crate::texte::{
    caracteres, chaine, chercher, decouper, extrait, mots, mots_de, morceaux, premiere_occurrence, rogne,
    rogner, vues, vues_chaines,
};

verus! {

broadcast use vstd::string::group_string_axioms;

// ───────────────────────── Matroska files ─────────────────────────

/// Whether a path names a Matroska file (extension `mkv` in any ASCII case).
pub open spec fn est_mkv_spec(p: Seq<char>) -> bool {
    match extension_chemin(p) {
        Some(e) => e.len() == 3 && (e[0] == 'm' || e[0] == 'M') && (e[1] == 'k' || e[1] == 'K')
            && (e[2] == 'v' || e[2] == 'V'),
        None => false,
    }
}

/// Whether a file is kept when dropped paths are expanded to videos
/// (`expand_to_mkv`).
pub fn est_mkv(chemin: &str) -> (r: bool)
    ensures
        r == est_mkv_spec(chemin@),
{
    match extension_de(chemin) {
        Some(e) => e.len() == 3 && (e[0] == 'm' || e[0] == 'M') && (e[1] == 'k' || e[1] == 'K')
            && (e[2] == 'v' || e[2] == 'V'),
        None => false,
    }
}

// ───────────────────────── duration of a media file ─────────────────────────

/// `"duration":`
pub open spec fn cle_duree() -> Seq<char> {
    seq!['"', 'd', 'u', 'r', 'a', 't', 'i', 'o', 'n', '"', ':']
}

/// The characters trimmed around the duration's value.
pub open spec fn bord(c: char) -> bool {
    c == '"' || c == ' ' || c == '\n'
}

pub open spec fn sans_bords_debut(s: Seq<char>) -> Seq<char>
    decreases s.len(),
{
    if s.len() > 0 && bord(s[0]) { sans_bords_debut(s.drop_first()) } else { s }
}

pub open spec fn sans_bords_fin(s: Seq<char>) -> Seq<char>
    decreases s.len(),
{
    if s.len() > 0 && bord(s.last()) { sans_bords_fin(s.drop_last()) } else { s }
}

/// `str::trim_matches` with `bord`.
pub open spec fn sans_bords(s: Seq<char>) -> Seq<char> {
    sans_bords_fin(sans_bords_debut(s))
}

/// The text of the duration in ffprobe's JSON output
/// (`-show_entries format=duration`): after `"duration":`, trimmed, quotes,
/// spaces and line breaks taken off its ends, up to the next quote,
/// trimmed again. `None` when the key is missing.
pub open spec fn duree_json(j: Seq<char>) -> Option<Seq<char>> {
    let p = premiere_occurrence(j, cle_duree());
    if p < 0 {
        None
    } else {
        Some(rogne(morceaux(sans_bords(rogne(j.skip(p + cle_duree().len()))), '"')[0]))
    }
}

proof fn lemma_bords_debut(s: Seq<char>, i: int)
    requires
        0 <= i <= s.len(),
        forall|j: int| 0 <= j < i ==> bord(#[trigger] s[j]),
    ensures
        sans_bords_debut(s) == sans_bords_debut(s.skip(i)),
    decreases i,
{
    if i == 0 {
        assert(s.skip(0) =~= s);
    } else {
        assert(s.drop_first().skip(i - 1) =~= s.skip(i));
        assert forall|j: int| 0 <= j < i - 1 implies bord(#[trigger] s.drop_first()[j]) by {
            assert(s.drop_first()[j] == s[j + 1]);
        }
        lemma_bords_debut(s.drop_first(), i - 1);
    }
}

proof fn lemma_bords_fin(s: Seq<char>, j: int)
    requires
        0 <= j <= s.len(),
        forall|k: int| j <= k < s.len() ==> bord(#[trigger] s[k]),
    ensures
        sans_bords_fin(s) == sans_bords_fin(s.take(j)),
    decreases s.len() - j,
{
    if j == s.len() {
        assert(s.take(j) =~= s);
    } else {
        assert(s.drop_last().take(j) =~= s.take(j));
        lemma_bords_fin(s.drop_last(), j);
    }
}

fn est_bord(c: char) -> (r: bool)
    ensures
        r == bord(c),
{
    c == '"' || c == ' ' || c == '\n'
}

fn retirer_bords(v: &[char]) -> (r: Vec<char>)
    ensures
        r@ == sans_bords(v@),
{
    let n = v.len();
    let mut i: usize = 0;
    while i < n && est_bord(v[i])
        invariant
            i <= n,
            n == v.len(),
            forall|j: int| 0 <= j < i ==> bord(#[trigger] v@[j]),
        decreases n - i,
    {
        i += 1;
    }
    proof {
        lemma_bords_debut(v@, i as int);
    }
    let ghost t = v@.skip(i as int);
    assert(sans_bords_debut(t) == t);
    let mut j: usize = n;
    while j > i && est_bord(v[j - 1])
        invariant
            i <= j <= n,
            n == v.len(),
            t == v@.skip(i as int),
            forall|k: int| (j - i) <= k < t.len() ==> bord(#[trigger] t[k]),
        decreases j,
    {
        assert(t[j - 1 - i] == v@[j - 1]);
        j -= 1;
    }
    proof {
        lemma_bords_fin(t, (j - i) as int);
        assert(t.take((j - i) as int) =~= v@.subrange(i as int, j as int));
        if j > i {
            assert(t.take((j - i) as int).last() == v@[j - 1]);
        }
        assert(sans_bords_fin(t.take((j - i) as int)) == t.take((j - i) as int));
    }
    extrait(v, i, j)
}

/// The duration's text in ffprobe's JSON output (the text part of
/// `get_duration_secs`; the caller reads it as a number of seconds).
pub fn texte_duree(json: &str) -> (r: Option<String>)
    ensures
        match r {
            Some(t) => duree_json(json@) == Some(t@),
            None => duree_json(json@) is None,
        },
{
    let j = caracteres(json);
    let cle = ['"', 'd', 'u', 'r', 'a', 't', 'i', 'o', 'n', '"', ':'];
    assert(cle@ =~= cle_duree());
    let p = match chercher(&j, &cle) {
        Some(p) => p,
        None => return None,
    };
    proof { lemma_occurrence_tient(j@, cle_duree()); }
    let reste = extrait(&j, p + 11, j.len());
    assert(reste@ =~= j@.skip(p + cle_duree().len()));
    let val = retirer_bords(&rogner(&reste));
    let morceaux_val = decouper(&val, '"');
    proof { lemma_morceaux_non_vides(val@, '"'); }
    assert(vues(morceaux_val@)[0] == morceaux_val@[0]@);
    Some(chaine(&rogner(&morceaux_val[0])))
}

proof fn lemma_occurrence_tient(s: Seq<char>, motif: Seq<char>)
    ensures
        premiere_occurrence(s, motif) >= 0 ==> premiere_occurrence(s, motif) + motif.len() <= s.len(),
    decreases s.len(),
{
    if motif.len() <= s.len() && s.take(motif.len() as int) != motif && s.len() > 0 {
        lemma_occurrence_tient(s.drop_first(), motif);
    }
}

/// The ffprobe arguments that print the duration of a media file.
pub fn arguments_duree(chemin: &str) -> (r: Vec<String>)
    ensures
        vues_chaines(r@) == seq!["-v"@, "quiet"@, "-print_format"@, "json"@, "-show_entries"@,
            "format=duration"@, chemin@],
{
    let r = vec![String::from_str("-v"), String::from_str("quiet"), String::from_str("-print_format"),
        String::from_str("json"), String::from_str("-show_entries"), String::from_str("format=duration"),
        String::from_str(chemin)];
    assert(vues_chaines(r@) =~= seq!["-v"@, "quiet"@, "-print_format"@, "json"@, "-show_entries"@,
        "format=duration"@, chemin@]);
    r
}

// ───────────────────────── ffmpeg's progress ─────────────────────────

/// The progress lines in what ffmpeg wrote so far: each ends with `\r`;
/// the text after the last `\r` waits for the next read.
pub fn lignes_de_progression(accum: &str) -> (r: (Vec<String>, String))
    ensures
        vues_chaines(r.0@) == morceaux(accum@, '\r').drop_last(),
        r.1@ == morceaux(accum@, '\r').last(),
{
    let m = decouper(&caracteres(accum), '\r');
    proof { lemma_morceaux_non_vides(accum@, '\r'); }
    let ghost mv = vues(m@);
    let mut lignes: Vec<String> = Vec::new();
    let mut i: usize = 0;
    while i + 1 < m.len()
        invariant
            i + 1 <= m.len(),
            mv == vues(m@),
            mv == morceaux(accum@, '\r'),
            vues_chaines(lignes@) == mv.take(i as int),
        decreases m.len() - i,
    {
        let ghost avant = vues_chaines(lignes@);
        lignes.push(chaine(&m[i]));
        assert(vues_chaines(lignes@) =~= avant.push(mv[i as int]));
        assert(mv.take(i + 1) =~= mv.take(i as int).push(mv[i as int]));
        i += 1;
    }
    assert(mv.take(i as int) =~= mv.drop_last());
    assert(mv.last() == m@[m.len() - 1]@);
    (lignes, chaine(&m[m.len() - 1]))
}

/// `time=`
pub open spec fn marque_temps() -> Seq<char> {
    seq!['t', 'i', 'm', 'e', '=']
}

/// The elapsed time in a progress line: the first word after `time=`
/// (empty when nothing follows), or `None` when the line has no `time=`.
pub open spec fn temps_progression(l: Seq<char>) -> Option<Seq<char>> {
    let p = premiere_occurrence(l, marque_temps());
    if p < 0 {
        None
    } else {
        let m = mots(l.skip(p + 5));
        Some(if m.len() > 0 { m[0] } else { Seq::empty() })
    }
}

/// The elapsed time that a progress line of ffmpeg gives, as text (the
/// caller reads it as `HH:MM:SS.ss`).
pub fn temps_de_progression(ligne: &str) -> (r: Option<String>)
    ensures
        match r {
            Some(t) => temps_progression(ligne@) == Some(t@),
            None => temps_progression(ligne@) is None,
        },
{
    let l = caracteres(ligne);
    let marque = ['t', 'i', 'm', 'e', '='];
    assert(marque@ =~= marque_temps());
    let p = match chercher(&l, &marque) {
        Some(p) => p,
        None => return None,
    };
    proof { lemma_occurrence_tient(l@, marque_temps()); }
    let reste = extrait(&l, p + 5, l.len());
    assert(reste@ =~= l@.skip(p + 5));
    let m = mots_de(&reste);
    if m.len() > 0 {
        assert(vues(m@)[0] == m@[0]@);
        Some(chaine(&m[0]))
    } else {
        Some(String::new())
    }
}

} // verus!
