use vstd::prelude::*;
use vstd::string::StringExecFns;
use crate::doc_texte::decimal_signe;
use crate::nfo::{Fiche, joindre_textes, texte_entier};
use crate::scrap::{Actor, Producer, Season, Writer};
use crate::texte::{joindre, vues_chaines, rogne, caracteres, chaine, rogner};
use crate::scrap::separateurs_en_espaces;

verus! {

broadcast use vstd::string::group_string_axioms;

// ───────────────────────── what a TMDB detail holds ─────────────────────────
// Each field is what the JSON holds at that place, `None` where it is missing
// or not of the expected type; a missing array is an empty list.

/// A person of the cast, the crew or the creators.
pub struct PersonneTmdb {
    pub name: Option<String>,
    pub character: Option<String>,
    pub job: Option<String>,
    pub profile_path: Option<String>,
    pub id: Option<i64>,
}

/// An age rating of a series (`content_ratings.results`).
pub struct ClassementTmdb {
    pub iso_3166_1: Option<String>,
    pub rating: Option<String>,
}

/// The releases of a film in one country (`release_dates.results`): the
/// `certification` of each of its `release_dates`, or `None` when that list
/// is missing.
pub struct SortiesTmdb {
    pub iso_3166_1: Option<String>,
    pub certifications: Option<Vec<Option<String>>>,
}

/// A video (`videos.results`).
pub struct VideoTmdb {
    pub site: Option<String>,
    pub type_video: Option<String>,
    pub key: Option<String>,
}

/// A season (`seasons`).
pub struct SaisonTmdb {
    pub season_number: Option<u64>,
    pub name: Option<String>,
    pub overview: Option<String>,
    pub poster_path: Option<String>,
    pub air_date: Option<String>,
    pub episode_count: Option<u64>,
}

/// The detail of a film or a series, as far as the NFO files use it.
pub struct DetailTmdb {
    pub title: Option<String>,
    pub name: Option<String>,
    pub original_title: Option<String>,
    pub original_name: Option<String>,
    pub overview: Option<String>,
    pub poster_path: Option<String>,
    pub backdrop_path: Option<String>,
    pub release_date: Option<String>,
    pub first_air_date: Option<String>,
    pub vote_count: Option<u64>,
    pub runtime: Option<u64>,
    /// The first of `episode_run_time`, if it is a number.
    pub premier_episode_run_time: Option<u64>,
    pub tagline: Option<String>,
    /// The `name` of each genre.
    pub genres: Vec<Option<String>>,
    pub imdb_id: Option<String>,
    pub wikidata_id: Option<String>,
    pub tvdb_id: Option<i64>,
    pub cast: Vec<PersonneTmdb>,
    pub crew: Vec<PersonneTmdb>,
    pub created_by: Vec<PersonneTmdb>,
    /// The `iso_3166_1` of each production country.
    pub production_countries: Vec<Option<String>>,
    pub content_ratings: Vec<ClassementTmdb>,
    pub release_dates: Vec<SortiesTmdb>,
    /// The `name` of each keyword of `keywords.results` (series).
    pub keywords_results: Vec<Option<String>>,
    /// The `name` of each keyword of `keywords.keywords` (films).
    pub keywords_keywords: Vec<Option<String>>,
    pub videos: Vec<VideoTmdb>,
    /// The `english_name` of each spoken language.
    pub spoken_languages: Vec<Option<String>>,
    /// The `name` of each network (series).
    pub networks: Vec<Option<String>>,
    /// The `name` of each production company (films).
    pub production_companies: Vec<Option<String>>,
    pub seasons: Vec<SaisonTmdb>,
}

// ───────────────────────── what is read from it ─────────────────────────

pub open spec fn vue(o: Option<String>) -> Option<Seq<char>> {
    match o { Some(s) => Some(s@), None => None }
}

pub open spec fn ou(o: Option<String>, d: Seq<char>) -> Seq<char> {
    match o { Some(s) => s@, None => d }
}

/// The texts that are there, in order.
pub open spec fn presentes(xs: Seq<Option<String>>) -> Seq<Seq<char>>
    decreases xs.len(),
{
    if xs.len() == 0 {
        Seq::empty()
    } else {
        presentes(xs.drop_last()) + match xs.last() { Some(s) => seq![s@], None => Seq::empty() }
    }
}

pub open spec fn vignette_personne(p: Option<String>) -> Option<Seq<char>> {
    match p { Some(s) => Some("https://image.tmdb.org/t/p/h632"@ + s@), None => None }
}

pub open spec fn page_personne(id: Option<i64>) -> Seq<char> {
    "https://www.themoviedb.org/person/"@ + decimal_signe(match id { Some(i) => i as int, None => 0 })
}

pub open spec fn id_ou_zero(id: Option<i64>) -> i64 {
    match id { Some(i) => i, None => 0 }
}

/// The actor that a cast member gives.
pub open spec fn acteur_de(a: Actor, p: PersonneTmdb) -> bool {
    &&& a.name@ == ou(p.name, Seq::empty())
    &&& a.role@ == ou(p.character, Seq::empty())
    &&& vue(a.thumb) == vignette_personne(p.profile_path)
    &&& a.profile@ == page_personne(p.id)
    &&& a.id == id_ou_zero(p.id)
}

pub open spec fn est_scenariste(p: PersonneTmdb) -> bool {
    let j = ou(p.job, Seq::empty());
    j == "Screenplay"@ || j == "Writer"@ || j == "Story"@
}

pub open spec fn est_producteur(p: PersonneTmdb) -> bool {
    let j = ou(p.job, Seq::empty());
    j == "Producer"@ || j == "Executive Producer"@ || j == "Co-Producer"@ || j == "Associate Producer"@
}

/// The writers of the crew, in order, each TMDB id once (its first
/// appearance): name and id.
pub open spec fn scenaristes(crew: Seq<PersonneTmdb>) -> Seq<(Seq<char>, i64)>
    decreases crew.len(),
{
    if crew.len() == 0 {
        Seq::empty()
    } else {
        let avant = scenaristes(crew.drop_last());
        let p = crew.last();
        if est_scenariste(p) && !avant.map_values(|w: (Seq<char>, i64)| w.1).contains(id_ou_zero(p.id)) {
            avant.push((ou(p.name, Seq::empty()), id_ou_zero(p.id)))
        } else {
            avant
        }
    }
}

/// The producers of the crew, in order.
pub open spec fn producteurs_de(crew: Seq<PersonneTmdb>) -> Seq<PersonneTmdb>
    decreases crew.len(),
{
    if crew.len() == 0 {
        Seq::empty()
    } else {
        producteurs_de(crew.drop_last()) + if est_producteur(crew.last()) { seq![crew.last()] } else { Seq::empty() }
    }
}

pub open spec fn producteur_de(a: Producer, p: PersonneTmdb) -> bool {
    &&& a.name@ == ou(p.name, Seq::empty())
    &&& a.role@ == ou(p.job, Seq::empty())
    &&& vue(a.thumb) == vignette_personne(p.profile_path)
    &&& a.profile@ == page_personne(p.id)
    &&& a.tmdbid == id_ou_zero(p.id)
}

/// The position of the first crew member whose job is `Director`, or -1.
pub open spec fn premier_realisateur(crew: Seq<PersonneTmdb>) -> int
    decreases crew.len(),
{
    if crew.len() == 0 {
        -1
    } else if premier_realisateur(crew.drop_last()) >= 0 {
        premier_realisateur(crew.drop_last())
    } else if vue(crew.last().job) == Some("Director"@) {
        crew.len() - 1
    } else {
        -1
    }
}

/// The director (or, for a series, the first creator): name and id.
pub open spec fn realisateur(d: DetailTmdb, serie: bool) -> (Option<Seq<char>>, Option<i64>) {
    if serie {
        if d.created_by@.len() > 0 {
            (vue(d.created_by@[0].name), d.created_by@[0].id)
        } else {
            (None, None)
        }
    } else {
        let k = premier_realisateur(d.crew@);
        if k >= 0 { (vue(d.crew@[k].name), d.crew@[k].id) } else { (None, None) }
    }
}

/// The position of the first entry for France, or -1.
pub open spec fn premier_fr_classement(l: Seq<ClassementTmdb>) -> int
    decreases l.len(),
{
    if l.len() == 0 {
        -1
    } else if premier_fr_classement(l.drop_last()) >= 0 {
        premier_fr_classement(l.drop_last())
    } else if vue(l.last().iso_3166_1) == Some("FR"@) {
        l.len() - 1
    } else {
        -1
    }
}

pub open spec fn premier_fr_sorties(l: Seq<SortiesTmdb>) -> int
    decreases l.len(),
{
    if l.len() == 0 {
        -1
    } else if premier_fr_sorties(l.drop_last()) >= 0 {
        premier_fr_sorties(l.drop_last())
    } else if vue(l.last().iso_3166_1) == Some("FR"@) {
        l.len() - 1
    } else {
        -1
    }
}

/// The first certification that is there and not empty.
pub open spec fn premiere_certification(l: Seq<Option<String>>) -> Option<Seq<char>>
    decreases l.len(),
{
    if l.len() == 0 {
        None
    } else {
        match premiere_certification(l.drop_last()) {
            Some(c) => Some(c),
            None => match l.last() {
                Some(c) => if c@.len() > 0 { Some(c@) } else { None },
                None => None,
            },
        }
    }
}

/// The French age rating, as `FR:<rating>`: for a series the rating of the
/// first French entry; for a film the first non-empty certification of the
/// first French entry.
pub open spec fn certification(d: DetailTmdb, serie: bool) -> Option<Seq<char>> {
    if serie {
        let k = premier_fr_classement(d.content_ratings@);
        if k >= 0 {
            match d.content_ratings@[k].rating { Some(r) => Some("FR:"@ + r@), None => None }
        } else {
            None
        }
    } else {
        let k = premier_fr_sorties(d.release_dates@);
        if k >= 0 {
            match d.release_dates@[k].certifications {
                Some(cs) => match premiere_certification(cs@) { Some(c) => Some("FR:"@ + c), None => None },
                None => None,
            }
        } else {
            None
        }
    }
}

pub open spec fn est_bande_annonce(v: VideoTmdb) -> bool {
    vue(v.site) == Some("YouTube"@) && vue(v.type_video) == Some("Trailer"@)
}

pub open spec fn premiere_bande_annonce(l: Seq<VideoTmdb>) -> int
    decreases l.len(),
{
    if l.len() == 0 {
        -1
    } else if premiere_bande_annonce(l.drop_last()) >= 0 {
        premiere_bande_annonce(l.drop_last())
    } else if est_bande_annonce(l.last()) {
        l.len() - 1
    } else {
        -1
    }
}

/// The YouTube key of the first trailer.
pub open spec fn bande_annonce(d: DetailTmdb) -> Option<Seq<char>> {
    let k = premiere_bande_annonce(d.videos@);
    if k >= 0 { vue(d.videos@[k].key) } else { None }
}

/// The seasons that have a number, in order.
pub open spec fn saisons_numerotees(l: Seq<SaisonTmdb>) -> Seq<SaisonTmdb>
    decreases l.len(),
{
    if l.len() == 0 {
        Seq::empty()
    } else {
        saisons_numerotees(l.drop_last()) + if l.last().season_number is Some { seq![l.last()] } else { Seq::empty() }
    }
}

pub open spec fn saison_de(s: Season, t: SaisonTmdb) -> bool {
    &&& s.number == (t.season_number->0 as u32)
    &&& s.name@ == ou(t.name, Seq::empty())
    &&& s.overview@ == ou(t.overview, Seq::empty())
    &&& vue(s.poster_path) == vue(t.poster_path)
    &&& s.air_date@ == ou(t.air_date, Seq::empty())
    &&& s.episode_count == (match t.episode_count { Some(n) => n as u32, None => 0u32 })
}

/// The running time: for a series the first episode run time (45 when
/// missing), for a film its runtime (0 when missing).
pub open spec fn duree(d: DetailTmdb, serie: bool) -> u32 {
    if serie {
        match d.premier_episode_run_time { Some(n) => n as u32, None => 45 }
    } else {
        match d.runtime { Some(n) => n as u32, None => 0 }
    }
}

/// What the NFO files say of a film or a series, read from its TMDB detail.
pub open spec fn fiche_de(f: Fiche, d: DetailTmdb, id: i64, serie: bool, note: u64) -> bool {
    &&& f.id == id
    &&& f.title@ == (if serie { ou(d.name, "Inconnu"@) } else { ou(d.title, "Inconnu"@) })
    &&& f.original_title@ == (if serie { ou(d.original_name, Seq::empty()) } else { ou(d.original_title, Seq::empty()) })
    &&& f.overview@ == ou(d.overview, Seq::empty())
    &&& vue(f.poster_path) == vue(d.poster_path)
    &&& vue(f.backdrop_path) == vue(d.backdrop_path)
    &&& f.release_date@ == (if serie { ou(d.first_air_date, Seq::empty()) } else { ou(d.release_date, Seq::empty()) })
    &&& f.note_dixiemes == note
    &&& f.vote_count == (match d.vote_count { Some(n) => n, None => 0 })
    &&& vues_chaines(f.genres@) == d.genres@.map_values(|g: Option<String>| ou(g, Seq::empty()))
    &&& vues_chaines(f.studios@) == presentes(if serie { d.networks@ } else { d.production_companies@ })
    &&& f.actors@.len() == d.cast@.len()
    &&& (forall|i: int| 0 <= i < f.actors@.len() ==> acteur_de(#[trigger] f.actors@[i], d.cast@[i]))
    &&& (vue(f.director), f.director_tmdbid) == realisateur(d, serie)
    &&& f.writers@.map_values(|w: Writer| (w.name@, w.tmdbid)) == scenaristes(d.crew@)
    &&& f.producers@.len() == producteurs_de(d.crew@).len()
    &&& (forall|i: int| 0 <= i < f.producers@.len() ==> producteur_de(#[trigger] f.producers@[i], producteurs_de(d.crew@)[i]))
    &&& f.runtime == duree(d, serie)
    &&& f.tagline@ == ou(d.tagline, Seq::empty())
    &&& vue(f.imdb_id) == vue(d.imdb_id)
    &&& vue(f.wikidata_id) == vue(d.wikidata_id)
    &&& f.tvdb_id == d.tvdb_id
    &&& f.country@ == joindre(presentes(d.production_countries@), ", "@)
    &&& vue(f.certification) == certification(d, serie)
    &&& vues_chaines(f.tags@) == presentes(if serie { d.keywords_results@ } else { d.keywords_keywords@ })
    &&& vue(f.trailer_key) == bande_annonce(d)
    &&& vues_chaines(f.languages@) == presentes(d.spoken_languages@)
    &&& f.is_series == serie
    &&& (if serie {
        &&& f.seasons@.len() == saisons_numerotees(d.seasons@).len()
        &&& forall|i: int| 0 <= i < f.seasons@.len() ==> saison_de(#[trigger] f.seasons@[i], saisons_numerotees(d.seasons@)[i])
    } else {
        f.seasons@.len() == 0
    })
}

// ───────────────────────── reading it ─────────────────────────

fn egal_texte(a: &String, b: &str) -> (r: bool)
    ensures
        r == (a@ == b@),
{
    let bb = String::from_str(b);
    *a == bb
}

fn est(o: &Option<String>, b: &str) -> (r: bool)
    ensures
        r == (vue(*o) == Some(b@)),
{
    match o {
        Some(a) => egal_texte(a, b),
        None => false,
    }
}

fn ou_de(o: &Option<String>, d: &str) -> (r: String)
    ensures
        r@ == ou(*o, d@),
{
    match o {
        Some(s) => s.clone(),
        None => String::from_str(d),
    }
}

fn ou_vide(o: &Option<String>) -> (r: String)
    ensures
        r@ == ou(*o, Seq::empty()),
{
    match o {
        Some(s) => s.clone(),
        None => String::new(),
    }
}

fn copie(o: &Option<String>) -> (r: Option<String>)
    ensures
        vue(r) == vue(*o),
{
    match o {
        Some(s) => Some(s.clone()),
        None => None,
    }
}

fn presentes_de(xs: &Vec<Option<String>>) -> (r: Vec<String>)
    ensures
        vues_chaines(r@) == presentes(xs@),
{
    let mut r: Vec<String> = Vec::new();
    let mut i: usize = 0;
    assert(xs@.take(0) =~= Seq::<Option<String>>::empty());
    while i < xs.len()
        invariant
            i <= xs.len(),
            vues_chaines(r@) == presentes(xs@.take(i as int)),
        decreases xs.len() - i,
    {
        let ghost avant = vues_chaines(r@);
        assert(xs@.take(i + 1).drop_last() =~= xs@.take(i as int));
        assert(xs@.take(i + 1).last() == xs@[i as int]);
        match &xs[i] {
            Some(s) => {
                r.push(s.clone());
                assert(vues_chaines(r@) =~= avant + seq![s@]);
            },
            None => {
                assert(avant + Seq::<Seq<char>>::empty() =~= avant);
            },
        }
        i += 1;
    }
    assert(xs@.take(xs.len() as int) =~= xs@);
    r
}

fn vignette_de(p: &Option<String>) -> (r: Option<String>)
    ensures
        vue(r) == vignette_personne(*p),
{
    match p {
        Some(s) => {
            let mut t = String::from_str("https://image.tmdb.org/t/p/h632");
            t.append(s.as_str());
            Some(t)
        },
        None => None,
    }
}

fn page_de(id: Option<i64>) -> (r: String)
    ensures
        r@ == page_personne(id),
{
    let mut t = String::from_str("https://www.themoviedb.org/person/");
    let n = texte_entier(match id { Some(i) => i, None => 0 });
    t.append(n.as_str());
    t
}

fn acteurs_de(cast: &Vec<PersonneTmdb>) -> (r: Vec<Actor>)
    ensures
        r@.len() == cast@.len(),
        forall|i: int| 0 <= i < r@.len() ==> acteur_de(#[trigger] r@[i], cast@[i]),
{
    let mut r: Vec<Actor> = Vec::new();
    let mut i: usize = 0;
    while i < cast.len()
        invariant
            i <= cast.len(),
            r@.len() == i,
            forall|j: int| 0 <= j < i ==> acteur_de(#[trigger] r@[j], cast@[j]),
        decreases cast.len() - i,
    {
        let p = &cast[i];
        let a = Actor {
            name: ou_vide(&p.name),
            role: ou_vide(&p.character),
            thumb: vignette_de(&p.profile_path),
            profile: page_de(p.id),
            id: match p.id { Some(x) => x, None => 0 },
        };
        r.push(a);
        i += 1;
    }
    r
}

fn job_parmi(p: &PersonneTmdb, producteur: bool) -> (r: bool)
    ensures
        r == if producteur { est_producteur(*p) } else { est_scenariste(*p) },
{
    let j = ou_vide(&p.job);
    if producteur {
        egal_texte(&j, "Producer") || egal_texte(&j, "Executive Producer") || egal_texte(&j, "Co-Producer")
            || egal_texte(&j, "Associate Producer")
    } else {
        egal_texte(&j, "Screenplay") || egal_texte(&j, "Writer") || egal_texte(&j, "Story")
    }
}

pub open spec fn vue_scenaristes(ws: Seq<Writer>) -> Seq<(Seq<char>, i64)> {
    ws.map_values(|w: Writer| (w.name@, w.tmdbid))
}

fn deja_vu(ws: &Vec<Writer>, id: i64) -> (r: bool)
    ensures
        r == vue_scenaristes(ws@).map_values(|w: (Seq<char>, i64)| w.1).contains(id),
{
    let ghost ids = vue_scenaristes(ws@).map_values(|w: (Seq<char>, i64)| w.1);
    let mut i: usize = 0;
    while i < ws.len()
        invariant
            i <= ws.len(),
            ids == vue_scenaristes(ws@).map_values(|w: (Seq<char>, i64)| w.1),
            forall|j: int| 0 <= j < i ==> ids[j] != id,
        decreases ws.len() - i,
    {
        assert(ids[i as int] == ws@[i as int].tmdbid);
        if ws[i].tmdbid == id {
            assert(ids.contains(id));
            return true;
        }
        i += 1;
    }
    false
}

fn scenaristes_de(crew: &Vec<PersonneTmdb>) -> (r: Vec<Writer>)
    ensures
        vue_scenaristes(r@) == scenaristes(crew@),
{
    let mut r: Vec<Writer> = Vec::new();
    let mut i: usize = 0;
    assert(crew@.take(0) =~= Seq::<PersonneTmdb>::empty());
    while i < crew.len()
        invariant
            i <= crew.len(),
            vue_scenaristes(r@) == scenaristes(crew@.take(i as int)),
        decreases crew.len() - i,
    {
        let p = &crew[i];
        assert(crew@.take(i + 1).drop_last() =~= crew@.take(i as int));
        assert(crew@.take(i + 1).last() == *p);
        let ghost avant = vue_scenaristes(r@);
        if job_parmi(p, false) {
            let id = match p.id { Some(x) => x, None => 0 };
            if !deja_vu(&r, id) {
                let w = Writer { name: ou_vide(&p.name), tmdbid: id };
                        r.push(w);
                assert(vue_scenaristes(r@) =~= avant.push((ou(p.name, Seq::empty()), id)));
            }
        }
        i += 1;
    }
    assert(crew@.take(crew.len() as int) =~= crew@);
    r
}

fn producteurs_de_exec(crew: &Vec<PersonneTmdb>) -> (r: Vec<Producer>)
    ensures
        r@.len() == producteurs_de(crew@).len(),
        forall|i: int| 0 <= i < r@.len() ==> producteur_de(#[trigger] r@[i], producteurs_de(crew@)[i]),
{
    let mut r: Vec<Producer> = Vec::new();
    let mut i: usize = 0;
    assert(crew@.take(0) =~= Seq::<PersonneTmdb>::empty());
    while i < crew.len()
        invariant
            i <= crew.len(),
            r@.len() == producteurs_de(crew@.take(i as int)).len(),
            forall|j: int| 0 <= j < r@.len() ==> producteur_de(#[trigger] r@[j], producteurs_de(crew@.take(i as int))[j]),
        decreases crew.len() - i,
    {
        let p = &crew[i];
        let ghost avant = producteurs_de(crew@.take(i as int));
        assert(crew@.take(i + 1).drop_last() =~= crew@.take(i as int));
        assert(crew@.take(i + 1).last() == *p);
        if job_parmi(p, true) {
            let a = Producer {
                name: ou_vide(&p.name),
                role: ou_vide(&p.job),
                thumb: vignette_de(&p.profile_path),
                profile: page_de(p.id),
                tmdbid: match p.id { Some(x) => x, None => 0 },
            };
                r.push(a);
            assert(producteurs_de(crew@.take(i + 1)) =~= avant.push(*p));
        } else {
            assert(producteurs_de(crew@.take(i + 1)) =~= avant);
        }
        i += 1;
    }
    assert(crew@.take(crew.len() as int) =~= crew@);
    r
}

fn realisateur_de(d: &DetailTmdb, serie: bool) -> (r: (Option<String>, Option<i64>))
    ensures
        (vue(r.0), r.1) == realisateur(*d, serie),
{
    if serie {
        if d.created_by.len() > 0 {
            (copie(&d.created_by[0].name), d.created_by[0].id)
        } else {
            (None, None)
        }
    } else {
        let mut k: usize = 0;
        while k < d.crew.len() && !est(&d.crew[k].job, "Director")
            invariant
                k <= d.crew.len(),
                forall|j: int| 0 <= j < k ==> vue(#[trigger] d.crew@[j].job) != Some("Director"@),
            decreases d.crew.len() - k,
        {
            k += 1;
        }
        proof { lemma_premier_realisateur(d.crew@, k as int); }
        if k < d.crew.len() {
            (copie(&d.crew[k].name), d.crew[k].id)
        } else {
            (None, None)
        }
    }
}

proof fn lemma_premier_realisateur(crew: Seq<PersonneTmdb>, k: int)
    requires
        0 <= k <= crew.len(),
        forall|j: int| 0 <= j < k ==> vue(#[trigger] crew[j].job) != Some("Director"@),
        k < crew.len() ==> vue(crew[k].job) == Some("Director"@),
    ensures
        premier_realisateur(crew) == if k < crew.len() { k } else { -1 },
    decreases crew.len(),
{
    if crew.len() > 0 {
        let t = crew.drop_last();
        let m = if k == crew.len() { t.len() as int } else if k < t.len() { k } else { t.len() as int };
        assert forall|j: int| 0 <= j < m implies vue(#[trigger] t[j].job) != Some("Director"@) by {
            assert(t[j] == crew[j]);
        }
        if m < t.len() {
            assert(t[m] == crew[m]);
        }
        lemma_premier_realisateur(t, m);
    }
}

fn certification_de(d: &DetailTmdb, serie: bool) -> (r: Option<String>)
    ensures
        vue(r) == certification(*d, serie),
{
    if serie {
        let l = &d.content_ratings;
        let mut k: usize = 0;
        while k < l.len() && !est(&l[k].iso_3166_1, "FR")
            invariant
                k <= l.len(),
                forall|j: int| 0 <= j < k ==> vue(#[trigger] l@[j].iso_3166_1) != Some("FR"@),
            decreases l.len() - k,
        {
            k += 1;
        }
        proof { lemma_premier_fr_classement(l@, k as int); }
        if k < l.len() {
            match &l[k].rating {
                Some(r) => {
                    let mut t = String::from_str("FR:");
                    t.append(r.as_str());
                    Some(t)
                },
                None => None,
            }
        } else {
            None
        }
    } else {
        let l = &d.release_dates;
        let mut k: usize = 0;
        while k < l.len() && !est(&l[k].iso_3166_1, "FR")
            invariant
                k <= l.len(),
                forall|j: int| 0 <= j < k ==> vue(#[trigger] l@[j].iso_3166_1) != Some("FR"@),
            decreases l.len() - k,
        {
            k += 1;
        }
        proof { lemma_premier_fr_sorties(l@, k as int); }
        if k < l.len() {
            match &l[k].certifications {
                Some(cs) => match premiere_certification_de(cs) {
                    Some(c) => {
                        let mut t = String::from_str("FR:");
                        t.append(c.as_str());
                        Some(t)
                    },
                    None => None,
                },
                None => None,
            }
        } else {
            None
        }
    }
}

proof fn lemma_premier_fr_classement(l: Seq<ClassementTmdb>, k: int)
    requires
        0 <= k <= l.len(),
        forall|j: int| 0 <= j < k ==> vue(#[trigger] l[j].iso_3166_1) != Some("FR"@),
        k < l.len() ==> vue(l[k].iso_3166_1) == Some("FR"@),
    ensures
        premier_fr_classement(l) == if k < l.len() { k } else { -1 },
    decreases l.len(),
{
    if l.len() > 0 {
        let t = l.drop_last();
        let m = if k < t.len() { k } else { t.len() as int };
        assert forall|j: int| 0 <= j < m implies vue(#[trigger] t[j].iso_3166_1) != Some("FR"@) by {
            assert(t[j] == l[j]);
        }
        if m < t.len() {
            assert(t[m] == l[m]);
        }
        lemma_premier_fr_classement(t, m);
    }
}

proof fn lemma_premier_fr_sorties(l: Seq<SortiesTmdb>, k: int)
    requires
        0 <= k <= l.len(),
        forall|j: int| 0 <= j < k ==> vue(#[trigger] l[j].iso_3166_1) != Some("FR"@),
        k < l.len() ==> vue(l[k].iso_3166_1) == Some("FR"@),
    ensures
        premier_fr_sorties(l) == if k < l.len() { k } else { -1 },
    decreases l.len(),
{
    if l.len() > 0 {
        let t = l.drop_last();
        let m = if k < t.len() { k } else { t.len() as int };
        assert forall|j: int| 0 <= j < m implies vue(#[trigger] t[j].iso_3166_1) != Some("FR"@) by {
            assert(t[j] == l[j]);
        }
        if m < t.len() {
            assert(t[m] == l[m]);
        }
        lemma_premier_fr_sorties(t, m);
    }
}

fn premiere_certification_de(cs: &Vec<Option<String>>) -> (r: Option<String>)
    ensures
        vue(r) == premiere_certification(cs@),
{
    let mut i: usize = 0;
    assert(cs@.take(0) =~= Seq::<Option<String>>::empty());
    while i < cs.len()
        invariant
            i <= cs.len(),
            premiere_certification(cs@.take(i as int)) is None,
        decreases cs.len() - i,
    {
        assert(cs@.take(i + 1).drop_last() =~= cs@.take(i as int));
        assert(cs@.take(i + 1).last() == cs@[i as int]);
        if let Some(c) = &cs[i] {
            if c.as_str().unicode_len() > 0 {
                proof { lemma_premiere_certification_suite(cs@, i + 1); }
                return Some(c.clone());
            }
        }
        i += 1;
    }
    assert(cs@.take(cs.len() as int) =~= cs@);
    None
}

proof fn lemma_premiere_certification_suite(cs: Seq<Option<String>>, k: int)
    requires
        0 < k <= cs.len(),
        premiere_certification(cs.take(k)) is Some,
    ensures
        premiere_certification(cs) == premiere_certification(cs.take(k)),
    decreases cs.len() - k,
{
    if k < cs.len() {
        assert(cs.take(k + 1).drop_last() =~= cs.take(k));
        assert(premiere_certification(cs.take(k + 1)) == premiere_certification(cs.take(k)));
        lemma_premiere_certification_suite(cs, k + 1);
    } else {
        assert(cs.take(k) =~= cs);
    }
}

fn bande_annonce_de(d: &DetailTmdb) -> (r: Option<String>)
    ensures
        vue(r) == bande_annonce(*d),
{
    let l = &d.videos;
    let mut k: usize = 0;
    while k < l.len() && !(est(&l[k].site, "YouTube") && est(&l[k].type_video, "Trailer"))
        invariant
            k <= l.len(),
            forall|j: int| 0 <= j < k ==> !est_bande_annonce(#[trigger] l@[j]),
        decreases l.len() - k,
    {
        k += 1;
    }
    proof { lemma_premiere_bande_annonce(l@, k as int); }
    if k < l.len() { copie(&l[k].key) } else { None }
}

proof fn lemma_premiere_bande_annonce(l: Seq<VideoTmdb>, k: int)
    requires
        0 <= k <= l.len(),
        forall|j: int| 0 <= j < k ==> !est_bande_annonce(#[trigger] l[j]),
        k < l.len() ==> est_bande_annonce(l[k]),
    ensures
        premiere_bande_annonce(l) == if k < l.len() { k } else { -1 },
    decreases l.len(),
{
    if l.len() > 0 {
        let t = l.drop_last();
        let m = if k < t.len() { k } else { t.len() as int };
        assert forall|j: int| 0 <= j < m implies !est_bande_annonce(#[trigger] t[j]) by {
            assert(t[j] == l[j]);
        }
        if m < t.len() {
            assert(t[m] == l[m]);
        }
        lemma_premiere_bande_annonce(t, m);
    }
}

fn saisons_de(l: &Vec<SaisonTmdb>) -> (r: Vec<Season>)
    ensures
        r@.len() == saisons_numerotees(l@).len(),
        forall|i: int| 0 <= i < r@.len() ==> saison_de(#[trigger] r@[i], saisons_numerotees(l@)[i]),
{
    let mut r: Vec<Season> = Vec::new();
    let mut i: usize = 0;
    assert(l@.take(0) =~= Seq::<SaisonTmdb>::empty());
    while i < l.len()
        invariant
            i <= l.len(),
            r@.len() == saisons_numerotees(l@.take(i as int)).len(),
            forall|j: int| 0 <= j < r@.len() ==> saison_de(#[trigger] r@[j], saisons_numerotees(l@.take(i as int))[j]),
        decreases l.len() - i,
    {
        let t = &l[i];
        let ghost avant = saisons_numerotees(l@.take(i as int));
        assert(l@.take(i + 1).drop_last() =~= l@.take(i as int));
        assert(l@.take(i + 1).last() == *t);
        match t.season_number {
            Some(n) => {
                let s = Season {
                    number: n as u32,
                    name: ou_vide(&t.name),
                    overview: ou_vide(&t.overview),
                    poster_path: copie(&t.poster_path),
                    air_date: ou_vide(&t.air_date),
                    episode_count: match t.episode_count { Some(e) => e as u32, None => 0 },
                };
                r.push(s);
                assert(saisons_numerotees(l@.take(i + 1)) =~= avant.push(*t));
            },
            None => {
                assert(saisons_numerotees(l@.take(i + 1)) =~= avant);
            },
        }
        i += 1;
    }
    assert(l@.take(l.len() as int) =~= l@);
    r
}

fn genres_de(l: &Vec<Option<String>>) -> (r: Vec<String>)
    ensures
        vues_chaines(r@) == l@.map_values(|g: Option<String>| ou(g, Seq::empty())),
{
    let mut r: Vec<String> = Vec::new();
    let mut i: usize = 0;
    while i < l.len()
        invariant
            i <= l.len(),
            vues_chaines(r@) == l@.take(i as int).map_values(|g: Option<String>| ou(g, Seq::empty())),
        decreases l.len() - i,
    {
        let ghost avant = vues_chaines(r@);
        let g = ou_vide(&l[i]);
        let ghost gv = g@;
        r.push(g);
        assert(vues_chaines(r@) =~= avant.push(gv));
        assert(l@.take(i + 1).map_values(|g: Option<String>| ou(g, Seq::empty()))
            =~= l@.take(i as int).map_values(|g: Option<String>| ou(g, Seq::empty())).push(ou(l@[i as int], Seq::empty())));
        i += 1;
    }
    assert(l@.take(l.len() as int) =~= l@);
    r
}

/// Reads the TMDB detail of a film or a series (`parse_detail`): see
/// `fiche_de`. `note_dixiemes` is its rating, rounded to tenths.
pub fn parse_detail(d: &DetailTmdb, id: i64, is_series: bool, note_dixiemes: u64) -> (r: Fiche)
    ensures
        fiche_de(r, *d, id, is_series, note_dixiemes),
{
    let (director, director_tmdbid) = realisateur_de(d, is_series);
    let pays = presentes_de(&d.production_countries);
    let country = joindre_textes(&pays, ", ");
    let f = Fiche {
        id,
        title: if is_series { ou_de(&d.name, "Inconnu") } else { ou_de(&d.title, "Inconnu") },
        original_title: if is_series { ou_vide(&d.original_name) } else { ou_vide(&d.original_title) },
        overview: ou_vide(&d.overview),
        poster_path: copie(&d.poster_path),
        backdrop_path: copie(&d.backdrop_path),
        release_date: if is_series { ou_vide(&d.first_air_date) } else { ou_vide(&d.release_date) },
        note_dixiemes,
        vote_count: match d.vote_count { Some(n) => n, None => 0 },
        genres: genres_de(&d.genres),
        studios: if is_series { presentes_de(&d.networks) } else { presentes_de(&d.production_companies) },
        actors: acteurs_de(&d.cast),
        director,
        director_tmdbid,
        writers: scenaristes_de(&d.crew),
        producers: producteurs_de_exec(&d.crew),
        runtime: if is_series {
            match d.premier_episode_run_time { Some(n) => n as u32, None => 45 }
        } else {
            match d.runtime { Some(n) => n as u32, None => 0 }
        },
        tagline: ou_vide(&d.tagline),
        imdb_id: copie(&d.imdb_id),
        wikidata_id: copie(&d.wikidata_id),
        tvdb_id: d.tvdb_id,
        country,
        certification: certification_de(d, is_series),
        tags: if is_series { presentes_de(&d.keywords_results) } else { presentes_de(&d.keywords_keywords) },
        trailer_key: bande_annonce_de(d),
        languages: presentes_de(&d.spoken_languages),
        is_series,
        seasons: if is_series { saisons_de(&d.seasons) } else { Vec::new() },
    };
    f
}

// ───────────────────────── searching ─────────────────────────

/// The trailing-year pattern of search texts: a year of 19xx or 20xx after
/// a separator, with what separates it from the end.
pub open spec fn motif_annee_texte() -> Seq<char> {
    "[\\s.\\-_\\(](19|20)\\d{2}[\\s.\\-_\\)]*$"@
}

/// A text with the first match of a regular expression replaced by nothing:
/// `None` when the pattern does not compile.
pub uninterp spec fn sans_annee_finale(motif: Seq<char>, q: Seq<char>) -> Option<Seq<char>>;

/// Compiles a pattern (`regex::Regex::new`) and removes its first match from
/// a text (`Regex::replace` by nothing); what a pattern matches is the
/// regex crate's.
#[verifier::external_body]
fn retirer_annee(motif: &str, q: &str) -> (r: Option<String>)
    ensures
        match r {
            Some(t) => sans_annee_finale(motif@, q@) == Some(t@),
            None => sans_annee_finale(motif@, q@) is None,
        },
{
    let re = regex::Regex::new(motif).ok()?;
    Some(re.replace(q, "").to_string())
}

/// The query without its trailing year (the query itself if the pattern
/// were refused).
pub open spec fn sans_annee(q: Seq<char>) -> Seq<char> {
    match sans_annee_finale(motif_annee_texte(), q) {
        Some(t) => t,
        None => q,
    }
}

/// The text sent to the TMDB search: the query without its trailing year,
/// `.`, `_` and `-` read as spaces, trimmed.
pub open spec fn requete(q: Seq<char>) -> Seq<char> {
    rogne(separateurs_en_espaces(sans_annee(q)))
}

/// The text sent to the TMDB search for a query: see `requete`.
pub fn requete_recherche(query: &str) -> (r: String)
    ensures
        r@ == requete(query@),
{
    let motif = "[\\s.\\-_\\(](19|20)\\d{2}[\\s.\\-_\\)]*$";
    assert(motif@ == motif_annee_texte());
    let sans = match retirer_annee(motif, query) {
        Some(t) => t,
        None => String::from_str(query),
    };
    let v = caracteres(sans.as_str());
    let mut w: Vec<char> = Vec::new();
    let mut i: usize = 0;
    while i < v.len()
        invariant
            i <= v.len(),
            w@ == separateurs_en_espaces(v@).take(i as int),
        decreases v.len() - i,
    {
        let c = v[i];
        w.push(if c == '.' || c == '_' || c == '-' { ' ' } else { c });
        assert(w@ =~= separateurs_en_espaces(v@).take(i + 1));
        i += 1;
    }
    assert(w@ =~= separateurs_en_espaces(v@));
    chaine(&rogner(&w))
}

/// The address of the TMDB search of films or series.
pub fn url_recherche(is_series: bool) -> (r: &'static str)
    ensures
        r@ == if is_series { "https://api.themoviedb.org/3/search/tv"@ } else { "https://api.themoviedb.org/3/search/movie"@ },
{
    if is_series { "https://api.themoviedb.org/3/search/tv" } else { "https://api.themoviedb.org/3/search/movie" }
}

/// The address of the French TMDB detail of a film or a series, with the
/// credits, ids, keywords, videos and ratings appended.
pub open spec fn url_detail_spec(id: i64, is_series: bool, cle: Seq<char>) -> Seq<char> {
    "https://api.themoviedb.org/3/"@ + (if is_series { "tv/"@ } else { "movie/"@ }) + decimal_signe(id as int)
        + "?api_key="@ + cle + "&language=fr-FR&append_to_response="@
        + "credits,external_ids,keywords,videos,release_dates,content_ratings"@
}

pub fn url_detail(id: i64, is_series: bool, api_key: &str) -> (r: String)
    ensures
        r@ == url_detail_spec(id, is_series, api_key@),
{
    let mut u = String::from_str("https://api.themoviedb.org/3/");
    u.append(if is_series { "tv/" } else { "movie/" });
    u.append(texte_entier(id).as_str());
    u.append("?api_key=");
    u.append(api_key);
    u.append("&language=fr-FR&append_to_response=");
    u.append("credits,external_ids,keywords,videos,release_dates,content_ratings");
    u
}

/// The fanart.tv address of the logos of a film, or of a series (by its
/// TVDB id when it has one, else its TMDB id).
pub open spec fn url_logos_spec(tmdb_id: i64, tvdb_id: Option<i64>, is_series: bool, cle: Seq<char>) -> Seq<char> {
    if is_series {
        "https://webservice.fanart.tv/v3/tv/"@ + decimal_signe(match tvdb_id { Some(t) => t as int, None => tmdb_id as int })
            + "?api_key="@ + cle
    } else {
        "https://webservice.fanart.tv/v3/movies/"@ + decimal_signe(tmdb_id as int) + "?api_key="@ + cle
    }
}

pub fn url_logos(tmdb_id: i64, tvdb_id: Option<i64>, is_series: bool, api_key: &str) -> (r: String)
    ensures
        r@ == url_logos_spec(tmdb_id, tvdb_id, is_series, api_key@),
{
    let mut u = if is_series {
        String::from_str("https://webservice.fanart.tv/v3/tv/")
    } else {
        String::from_str("https://webservice.fanart.tv/v3/movies/")
    };
    let id = if is_series { match tvdb_id { Some(t) => t, None => tmdb_id } } else { tmdb_id };
    u.append(texte_entier(id).as_str());
    u.append("?api_key=");
    u.append(api_key);
    u
}

// ───────────────────────── asking TMDB ─────────────────────────

/// The TMDB key: the one in the settings, else `TMDB_API_KEY` from the
/// environment (read by the caller); without either, an error.
pub fn cle_tmdb(reglee: &str, environnement: Option<String>) -> (r: Result<String, String>)
    ensures
        reglee@.len() > 0 ==> (r matches Ok(k) && k@ == reglee@),
        reglee@.len() == 0 ==> match environnement {
            Some(e) => (r matches Ok(k) && k@ == e@),
            None => (r matches Err(m) && m@ == "TMDB_API_KEY manquante"@),
        },
{
    if reglee.unicode_len() > 0 {
        Ok(String::from_str(reglee))
    } else {
        match environnement {
            Some(e) => Ok(e),
            None => Err(String::from_str("TMDB_API_KEY manquante")),
        }
    }
}

/// The query of a TMDB search: the key, French, and the cleaned query (see
/// `requete`).
pub fn parametres_recherche(api_key: &str, query: &str) -> (r: Vec<(String, String)>)
    ensures
        crate::tag::vue_tags(r@) == seq![("api_key"@, api_key@), ("language"@, "fr-FR"@), ("query"@, requete(query@))],
{
    let r = vec![
        (String::from_str("api_key"), String::from_str(api_key)),
        (String::from_str("language"), String::from_str("fr-FR")),
        (String::from_str("query"), requete_recherche(query)),
    ];
    assert(crate::tag::vue_tags(r@) =~= seq![("api_key"@, api_key@), ("language"@, "fr-FR"@), ("query"@, requete(query@))]);
    r
}

/// A film or series fetched by its TMDB id (`fetch_by_tmdb_id`), once its
/// detail is read: an error when TMDB answers that the id is unknown (its
/// `success` is `false`), else the one result.
pub fn fetch_by_tmdb_id(id: i64, introuvable: bool, detail: Fiche) -> (r: Result<Vec<Fiche>, String>)
    ensures
        introuvable ==> (r matches Err(m) && m@ == "ID "@ + decimal_signe(id as int) + " introuvable"@),
        !introuvable ==> (r matches Ok(v) && v@ == seq![detail]),
{
    if introuvable {
        let mut m = String::from_str("ID ");
        m.append(texte_entier(id).as_str());
        m.append(" introuvable");
        Err(m)
    } else {
        let v = vec![detail];
        assert(v@ =~= seq![detail]);
        Ok(v)
    }
}

/// The results of a search (`search_tmdb`): the detail of each result found
/// by the search, in order, those that could not be fetched left out.
pub fn search_tmdb(details: Vec<Option<Fiche>>) -> (r: Vec<Fiche>)
    ensures
        r@ == details@.filter(|d: Option<Fiche>| d is Some).map_values(|d: Option<Fiche>| d->0),
{
    let ghost tous = details@;
    let mut r: Vec<Fiche> = Vec::new();
    let mut restants = details;
    let mut i: usize = 0;
    let n = restants.len();
    assert(tous.take(0).filter(|d: Option<Fiche>| d is Some) =~= Seq::<Option<Fiche>>::empty());
    while restants.len() > 0
        invariant
            i + restants.len() == n,
            n == tous.len(),
            restants@ == tous.skip(i as int),
            r@ == tous.take(i as int).filter(|d: Option<Fiche>| d is Some).map_values(|d: Option<Fiche>| d->0),
        decreases restants.len(),
    {
        let d = restants.remove(0);
        assert(d == tous[i as int]);
        assert(tous.take(i + 1).drop_last() =~= tous.take(i as int));
        assert(tous.take(i + 1).last() == d);
        proof {
            tous.take(i as int).lemma_filter_push(d, |d: Option<Fiche>| d is Some);
        }
        assert(tous.take(i as int).push(d) =~= tous.take(i + 1));
        let ghost avant = r@;
        match d {
            Some(f) => {
                r.push(f);
            },
            None => {},
        }
        assert(r@ =~= tous.take(i + 1).filter(|d: Option<Fiche>| d is Some).map_values(|d: Option<Fiche>| d->0));
        assert(restants@ =~= tous.skip(i + 1));
        i += 1;
    }
    assert(tous.take(n as int) =~= tous);
    r
}

} // verus!
