use vstd::prelude::*;
use vstd::string::StringExecFns;
use std::collections::BTreeSet;
use crate::chemin::{nom_fichier, radical};
use crate::texte::{caracteres, chaine, espaces_normalises, joindre, lecture_u32, lire_u32, mots};

verus! {

broadcast use vstd::string::group_string_axioms;

// ───────────────────────── XML escaping ─────────────────────────

/// One character escaped for an XML attribute or text: the five predefined
/// entities.
pub open spec fn echappe_car(c: char) -> Seq<char> {
    if c == '&' { "&amp;"@ }
    else if c == '<' { "&lt;"@ }
    else if c == '>' { "&gt;"@ }
    else if c == '"' { "&quot;"@ }
    else if c == '\'' { "&apos;"@ }
    else { seq![c] }
}

pub open spec fn echappe(s: Seq<char>) -> Seq<char>
    decreases s.len(),
{
    if s.len() == 0 { s } else { echappe(s.drop_last()) + echappe_car(s.last()) }
}

/// Text escaped for XML with the five predefined entities.
pub fn escape_xml(text: &str) -> (r: String)
    ensures
        r@ == echappe(text@),
{
    let v = caracteres(text);
    let mut r = String::new();
    let mut i: usize = 0;
    assert(v@.take(0) =~= Seq::<char>::empty());
    while i < v.len()
        invariant
            i <= v.len(),
            r@ == echappe(v@.take(i as int)),
        decreases v.len() - i,
    {
        let c = v[i];
        assert(v@.take(i + 1).drop_last() =~= v@.take(i as int));
        assert(v@.take(i + 1).last() == c);
        if c == '&' { r.append("&amp;"); }
        else if c == '<' { r.append("&lt;"); }
        else if c == '>' { r.append("&gt;"); }
        else if c == '"' { r.append("&quot;"); }
        else if c == '\'' { r.append("&apos;"); }
        else { crate::texte::pousser(&mut r, c); }
        i += 1;
    }
    assert(v@.take(v.len() as int) =~= v@);
    r
}

// ───────────────────────── scraped data ─────────────────────────

/// A season of a series.
pub struct Season {
    pub number: u32,
    pub name: String,
    pub overview: String,
    pub poster_path: Option<String>,
    pub air_date: String,
    pub episode_count: u32,
}

/// A cast member.
pub struct Actor {
    pub name: String,
    pub role: String,
    pub thumb: Option<String>,
    pub profile: String,
    pub id: i64,
}

/// A writer.
pub struct Writer {
    pub name: String,
    pub tmdbid: i64,
}

/// A producer.
pub struct Producer {
    pub name: String,
    pub role: String,
    pub thumb: Option<String>,
    pub profile: String,
    pub tmdbid: i64,
}

// ───────────────────────── series file names ─────────────────────────

/// The series pattern of file names: a title, separators, then `SxxEyy`
/// or `xxXyy`, in any letter case.
pub open spec fn motif_serie_texte() -> Seq<char> {
    "(?i)^(.+?)[\\s.\\-_]+(?:S(\\d{1,2})E\\d{1,2}|(\\d{1,2})x\\d{1,2})"@
}

/// What a regular expression captures in a text: `None` when the pattern
/// does not compile, else its groups 1 to 3 when it matches (the first as
/// an empty text if it took no part).
pub uninterp spec fn motif_serie(motif: Seq<char>, nom: Seq<char>)
    -> Option<Option<(Seq<char>, Option<Seq<char>>, Option<Seq<char>>)>>;

pub open spec fn vue_option(o: Option<String>) -> Option<Seq<char>> {
    match o { Some(s) => Some(s@), None => None }
}

pub open spec fn vue_captures(r: Option<Option<(String, Option<String>, Option<String>)>>)
    -> Option<Option<(Seq<char>, Option<Seq<char>>, Option<Seq<char>>)>>
{
    match r {
        None => None,
        Some(None) => Some(None),
        Some(Some(c)) => Some(Some((c.0@, vue_option(c.1), vue_option(c.2)))),
    }
}

/// Compiles a pattern (`regex::Regex::new`) and matches it against a text
/// (`Regex::captures`), giving groups 1 to 3; what a pattern matches is the
/// regex crate's.
#[verifier::external_body]
fn captures_serie(motif: &str, nom: &str) -> (r: Option<Option<(String, Option<String>, Option<String>)>>)
    ensures
        vue_captures(r) == motif_serie(motif@, nom@),
{
    let re = regex::Regex::new(motif).ok()?;
    let texte = |m: Option<regex::Match>| m.map(|m| m.as_str().to_string());
    Some(re.captures(nom).map(|c| (texte(c.get(1)).unwrap_or_default(), texte(c.get(2)), texte(c.get(3)))))
}

/// `.`, `_` and `-` read as spaces.
pub open spec fn separateurs_en_espaces(s: Seq<char>) -> Seq<char> {
    s.map_values(|c: char| if c == '.' || c == '_' || c == '-' { ' ' } else { c })
}

/// A raw title cleaned: separators read as spaces, words joined by one space.
pub open spec fn titre_nettoye(brut: Seq<char>) -> Seq<char> {
    joindre(mots(separateurs_en_espaces(brut)), seq![' '])
}

/// The season number that the captured digits give (1 when unreadable).
pub open spec fn numero_saison(g2: Option<Seq<char>>, g3: Option<Seq<char>>) -> u32 {
    match g2 {
        Some(s) => match lecture_u32(s) { Some(n) => n, None => 1 },
        None => match g3 {
            Some(s) => match lecture_u32(s) { Some(n) => n, None => 1 },
            None => 1,
        },
    }
}

/// The series title and season number that a file name shows, if any.
pub open spec fn info_serie(nom: Seq<char>) -> Option<(Seq<char>, u32)> {
    match motif_serie(motif_serie_texte(), nom) {
        Some(Some((brut, g2, g3))) => Some((titre_nettoye(brut), numero_saison(g2, g3))),
        _ => None,
    }
}

fn lire_saison(s: &String) -> (r: u32)
    ensures
        r == match lecture_u32(s@) { Some(n) => n, None => 1 },
{
    let v = caracteres(s.as_str());
    match lire_u32(&v) { Some(n) => n, None => 1 }
}

/// The series title and season number from what the series pattern
/// captured: the raw title cleaned (`titre_nettoye`), the season read from
/// the `SxxEyy` digits, else from the `xxXyy` digits, else 1.
pub fn info_des_captures(brut: &String, g2: &Option<String>, g3: &Option<String>) -> (r: (String, u32))
    ensures
        r.0@ == titre_nettoye(brut@),
        r.1 == numero_saison(vue_option(*g2), vue_option(*g3)),
{
    let saison = match g2 {
        Some(s) => lire_saison(s),
        None => match g3 {
            Some(s) => lire_saison(s),
            None => 1,
        },
    };
    let v = caracteres(brut.as_str());
    let mut w: Vec<char> = Vec::new();
    let mut i: usize = 0;
    while i < v.len()
        invariant
            i <= v.len(),
            w@ == separateurs_en_espaces(v@).take(i as int),
        decreases v.len() - i,
    {
        let c = v[i];
        w.push(if c == '.' || c == '_' || c == '-' { ' ' } else { c });
        assert(w@ =~= separateurs_en_espaces(v@).take(i + 1));
        i += 1;
    }
    assert(w@ =~= separateurs_en_espaces(v@));
    (chaine(&espaces_normalises(&w)), saison)
}

/// Reads a file name (without extension) as a series episode: the cleaned
/// title and the season number, from `S01E01`, `s01e01`, `01x01` or `1x01`.
pub fn extract_series_info(filename: &str) -> (r: Option<(String, u32)>)
    ensures
        match r {
            Some((t, n)) => info_serie(filename@) == Some((t@, n)),
            None => info_serie(filename@) is None,
        },
{
    let motif = "(?i)^(.+?)[\\s.\\-_]+(?:S(\\d{1,2})E\\d{1,2}|(\\d{1,2})x\\d{1,2})";
    assert(motif@ == motif_serie_texte());
    match captures_serie(motif, filename) {
        None | Some(None) => None,
        Some(Some((brut, g2, g3))) => Some(info_des_captures(&brut, &g2, &g3)),
    }
}

/// The series of a list of files: the title of the first file that reads as
/// an episode, with the seasons of all such files.
pub open spec fn serie_des(stems: Seq<Seq<char>>) -> (Option<Seq<char>>, Set<u32>)
    decreases stems.len(),
{
    if stems.len() == 0 {
        (None, Set::empty())
    } else {
        let (titre, saisons) = serie_des(stems.drop_last());
        match info_serie(stems.last()) {
            Some((t, n)) => (if titre is Some { titre } else { Some(t) }, saisons.insert(n)),
            None => (titre, saisons),
        }
    }
}

/// The file names, without extension, of a list of paths.
pub open spec fn radicaux(fichiers: Seq<String>) -> Seq<Seq<char>> {
    fichiers.map_values(|f: String| radical(nom_fichier(f@)))
}

/// Whether a list of files is a series: the title and the seasons present,
/// or `None` when no file name reads as an episode.
pub open spec fn serie_detectee(fichiers: Seq<String>) -> Option<(Seq<char>, Set<u32>)> {
    let (titre, saisons) = serie_des(radicaux(fichiers));
    match titre {
        Some(t) => if saisons.is_empty() { None } else { Some((t, saisons)) },
        None => None,
    }
}

proof fn lemma_titre_saisons(stems: Seq<Seq<char>>)
    ensures
        serie_des(stems).0 is Some ==> !serie_des(stems).1.is_empty(),
        serie_des(stems).1.finite(),
    decreases stems.len(),
{
    if stems.len() > 0 {
        lemma_titre_saisons(stems.drop_last());
        let (titre, saisons) = serie_des(stems.drop_last());
        match info_serie(stems.last()) {
            Some((t, n)) => {
                assert(saisons.insert(n).contains(n));
            },
            None => {},
        }
    }
}

/// Finds the series that a list of files (the folders already walked into
/// their files) belongs to: the cleaned title of the first episode file and
/// every season seen.
pub fn detect_series(fichiers: &[String]) -> (r: Option<(String, BTreeSet<u32>)>)
    ensures
        match r {
            Some((t, s)) => serie_detectee(fichiers@) == Some((t@, s@)),
            None => serie_detectee(fichiers@) is None,
        },
{
    let mut titre: Option<String> = None;
    let mut saisons: BTreeSet<u32> = BTreeSet::new();
    let mut i: usize = 0;
    let ghost st = radicaux(fichiers@);
    assert(st.take(0) =~= Seq::<Seq<char>>::empty());
    while i < fichiers.len()
        invariant
            i <= fichiers.len(),
            st == radicaux(fichiers@),
            serie_des(st.take(i as int)) == (vue_option(titre), saisons@),
        decreases fichiers.len() - i,
    {
        let stem = crate::chemin::radical_de(fichiers[i].as_str());
        let s = chaine(&stem);
        assert(st[i as int] == stem@);
        assert(st.take(i + 1).drop_last() =~= st.take(i as int));
        assert(st.take(i + 1).last() == st[i as int]);
        match extract_series_info(s.as_str()) {
            Some((t, n)) => {
                if titre.is_none() {
                    titre = Some(t);
                }
                saisons.insert(n);
            },
            None => {},
        }
        i += 1;
    }
    assert(st.take(fichiers.len() as int) =~= st);
    proof {
        lemma_titre_saisons(st);
    }
    match titre {
        Some(t) => {
            if saisons.is_empty() { None } else { Some((t, saisons)) }
        },
        None => None,
    }
}

/// The seasons that the episode files of a list show
/// (`collect_season_numbers`, once the folders are walked into their files).
pub fn collect_season_numbers(fichiers: &[String]) -> (r: BTreeSet<u32>)
    ensures
        r@ == serie_des(radicaux(fichiers@)).1,
{
    let mut saisons: BTreeSet<u32> = BTreeSet::new();
    let mut i: usize = 0;
    let ghost st = radicaux(fichiers@);
    assert(st.take(0) =~= Seq::<Seq<char>>::empty());
    while i < fichiers.len()
        invariant
            i <= fichiers.len(),
            st == radicaux(fichiers@),
            serie_des(st.take(i as int)).1 == saisons@,
        decreases fichiers.len() - i,
    {
        let stem = crate::chemin::radical_de(fichiers[i].as_str());
        let s = chaine(&stem);
        assert(st[i as int] == stem@);
        assert(st.take(i + 1).drop_last() =~= st.take(i as int));
        assert(st.take(i + 1).last() == st[i as int]);
        match extract_series_info(s.as_str()) {
            Some((_, n)) => {
                saisons.insert(n);
            },
            None => {},
        }
        i += 1;
    }
    assert(st.take(fichiers.len() as int) =~= st);
    saisons
}

/// The address of a poster's thumbnail on TMDB (`download_image_bytes`).
pub fn url_vignette(poster_path: &str) -> (r: String)
    ensures
        r@ == "https://image.tmdb.org/t/p/w92"@ + poster_path@,
{
    let mut u = String::from_str("https://image.tmdb.org/t/p/w92");
    u.append(poster_path);
    u
}

} // verus!
