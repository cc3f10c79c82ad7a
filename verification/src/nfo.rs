use vstd::prelude::*;
use vstd::string::StringExecFns;
use std::collections::BTreeSet;
use crate::doc_texte::decimal_signe;
use crate::scrap::{echappe, escape_xml, Actor, Producer, Season, Writer};
use crate::tag::avant_tiret;
use crate::texte::{chiffre, decimal, joindre, lemma_premier, trouver};

verus! {

broadcast use vstd::string::group_string_axioms;

/// What the NFO files of a film or a series say, as fetched from TMDB.
pub struct Fiche {
    pub id: i64,
    pub title: String,
    pub original_title: String,
    pub overview: String,
    pub poster_path: Option<String>,
    pub backdrop_path: Option<String>,
    pub release_date: String,
    /// The TMDB rating rounded to tenths, counted in tenths.
    pub note_dixiemes: u64,
    pub vote_count: u64,
    pub genres: Vec<String>,
    pub studios: Vec<String>,
    pub actors: Vec<Actor>,
    pub director: Option<String>,
    pub director_tmdbid: Option<i64>,
    pub writers: Vec<Writer>,
    pub producers: Vec<Producer>,
    pub runtime: u32,
    pub tagline: String,
    pub imdb_id: Option<String>,
    pub wikidata_id: Option<String>,
    pub tvdb_id: Option<i64>,
    pub country: String,
    pub certification: Option<String>,
    pub tags: Vec<String>,
    pub trailer_key: Option<String>,
    pub languages: Vec<String>,
    pub is_series: bool,
    pub seasons: Vec<Season>,
}

// ───────────────────────── what the files hold ─────────────────────────

/// `  <nom>contenu</nom>` and a line break.
pub open spec fn ligne(nom: Seq<char>, contenu: Seq<char>) -> Seq<char> {
    "  <"@ + nom + ">"@ + contenu + "</"@ + nom + ">\n"@
}

pub open spec fn si(c: bool, s: Seq<char>) -> Seq<char> {
    if c { s } else { Seq::empty() }
}

/// The rating with one decimal.
pub open spec fn note(n: u64) -> Seq<char> {
    decimal((n / 10) as nat) + seq!['.', chiffre((n % 10) as nat)]
}

pub open spec fn entier(i: i64) -> Seq<char> {
    decimal_signe(i as int)
}

/// `d` followed by the opening of every NFO: declaration, comment, root
/// element, titles, year, rating, plot, tagline and runtime.
pub open spec fn entete(d: Seq<char>, f: Fiche, racine: Seq<char>, maintenant: Seq<char>, marque_page: bool) -> Seq<char> {
    d + "<?xml version=\"1.0\" encoding=\"UTF-8\" standalone=\"yes\"?>\n"@
        + "<!--created on "@ + maintenant + " by oxytools for KODI-->\n"@
        + "<"@ + racine + ">\n"@
        + ligne("title"@, echappe(f.title@))
        + ligne("originaltitle"@, echappe(f.original_title@))
        + "  <sorttitle/>\n"@
        + si(marque_page, "  <epbookmark/>\n"@)
        + ligne("year"@, avant_tiret(f.release_date@))
        + "  <ratings>\n    <rating default=\"false\" max=\"10\" name=\"themoviedb\">\n"@
        + "      <value>"@ + note(f.note_dixiemes) + "</value>\n"@
        + "      <votes>"@ + decimal(f.vote_count as nat) + "</votes>\n"@
        + "    </rating>\n  </ratings>\n"@
        + "  <userrating>0</userrating>\n  <top250>0</top250>\n  <set/>\n"@
        + ligne("plot"@, echappe(f.overview@))
        + ligne("outline"@, echappe(f.overview@))
        + ligne("tagline"@, echappe(f.tagline@))
        + ligne("runtime"@, decimal(f.runtime as nat))
}

pub open spec fn image_tmdb(p: Seq<char>) -> Seq<char> {
    "https://image.tmdb.org/t/p/original"@ + p
}

pub open spec fn vignette_affiche(f: Fiche) -> Seq<char> {
    match f.poster_path {
        Some(p) => "  <thumb aspect=\"poster\">"@ + image_tmdb(p@) + "</thumb>\n"@,
        None => Seq::empty(),
    }
}

pub open spec fn vignette_logo(base: Seq<char>) -> Seq<char> {
    "  <thumb aspect=\"clearlogo\">"@ + base + "_clearlogo.png</thumb>\n"@
}

pub open spec fn bloc_fanart(f: Fiche) -> Seq<char> {
    match f.backdrop_path {
        Some(b) => "  <fanart>\n"@ + "    <thumb>"@ + image_tmdb(b@) + "</thumb>\n"@ + "  </fanart>\n"@,
        None => Seq::empty(),
    }
}

/// The age rating, twice, unless it is `N/A`.
pub open spec fn bloc_certification(f: Fiche) -> Seq<char> {
    match f.certification {
        Some(c) => si(c@ != "N/A"@, ligne("mpaa"@, echappe(c@)) + ligne("certification"@, echappe(c@))),
        None => Seq::empty(),
    }
}

pub open spec fn ligne_imdb(f: Fiche) -> Seq<char> {
    match f.imdb_id { Some(i) => ligne("id"@, echappe(i@)), None => Seq::empty() }
}

pub open spec fn ids_tmdb(f: Fiche) -> Seq<char> {
    ligne("tmdbid"@, entier(f.id)) + ("  <uniqueid default=\"false\" type=\"tmdb\">"@ + entier(f.id) + "</uniqueid>\n"@)
}

pub open spec fn uid_imdb(f: Fiche) -> Seq<char> {
    match f.imdb_id {
        Some(i) => "  <uniqueid default=\"true\" type=\"imdb\">"@ + echappe(i@) + "</uniqueid>\n"@,
        None => Seq::empty(),
    }
}

pub open spec fn uid_tvdb(f: Fiche) -> Seq<char> {
    match f.tvdb_id {
        Some(t) => "  <uniqueid default=\"false\" type=\"tvdb\">"@ + entier(t) + "</uniqueid>\n"@,
        None => Seq::empty(),
    }
}

pub open spec fn uid_wikidata(f: Fiche) -> Seq<char> {
    match f.wikidata_id {
        Some(w) => "  <uniqueid default=\"false\" type=\"wikidata\">"@ + echappe(w@) + "</uniqueid>\n"@,
        None => Seq::empty(),
    }
}

/// The identifiers: IMDb, TMDB, and the unique ids of each base.
pub open spec fn bloc_ids(f: Fiche) -> Seq<char> {
    ligne_imdb(f) + ids_tmdb(f) + uid_imdb(f) + uid_tvdb(f) + uid_wikidata(f)
}

/// One element per text, escaped.
pub open spec fn lignes(nom: Seq<char>, xs: Seq<String>) -> Seq<char>
    decreases xs.len(),
{
    if xs.len() == 0 { Seq::empty() } else { lignes(nom, xs.drop_last()) + ligne(nom, echappe(xs.last()@)) }
}

pub open spec fn credit(w: Writer) -> Seq<char> {
    "  <credits tmdbid=\""@ + entier(w.tmdbid) + "\">"@ + echappe(w.name@) + "</credits>\n"@
}

pub open spec fn credits(ws: Seq<Writer>) -> Seq<char>
    decreases ws.len(),
{
    if ws.len() == 0 { Seq::empty() } else { credits(ws.drop_last()) + credit(ws.last()) }
}

pub open spec fn bloc_realisateur(f: Fiche) -> Seq<char> {
    match f.director {
        Some(d) => match f.director_tmdbid {
            Some(i) => "  <director tmdbid=\""@ + entier(i) + "\">"@ + echappe(d@) + "</director>\n"@,
            None => ligne("director"@, echappe(d@)),
        },
        None => Seq::empty(),
    }
}

pub open spec fn vignette(t: Option<String>) -> Seq<char> {
    match t {
        Some(t) => "    <thumb>"@ + t@ + "</thumb>\n"@,
        None => Seq::empty(),
    }
}

pub open spec fn acteur(a: Actor) -> Seq<char> {
    "  <actor>\n"@
        + "    <name>"@ + echappe(a.name@) + "</name>\n"@
        + "    <role>"@ + echappe(a.role@) + "</role>\n"@
        + vignette(a.thumb)
        + "    <profile>"@ + echappe(a.profile@) + "</profile>\n"@
        + "    <tmdbid>"@ + entier(a.id) + "</tmdbid>\n"@
        + "  </actor>\n"@
}

pub open spec fn acteurs(xs: Seq<Actor>) -> Seq<char>
    decreases xs.len(),
{
    if xs.len() == 0 { Seq::empty() } else { acteurs(xs.drop_last()) + acteur(xs.last()) }
}

pub open spec fn producteur(p: Producer) -> Seq<char> {
    "  <producer tmdbid=\""@ + entier(p.tmdbid) + "\">\n"@
        + "    <name>"@ + echappe(p.name@) + "</name>\n"@
        + "    <role>"@ + echappe(p.role@) + "</role>\n"@
        + vignette(p.thumb)
        + "    <profile>"@ + echappe(p.profile@) + "</profile>\n"@
        + "  </producer>\n"@
}

pub open spec fn producteurs(xs: Seq<Producer>) -> Seq<char>
    decreases xs.len(),
{
    if xs.len() == 0 { Seq::empty() } else { producteurs(xs.drop_last()) + producteur(xs.last()) }
}

pub open spec fn vues(xs: Seq<String>) -> Seq<Seq<char>> {
    crate::texte::vues_chaines(xs)
}

/// `d` followed by the country, dates, play status, genres, studios, credits,
/// director, tags, cast, producers, trailer, languages, date added and the
/// empty file info.
pub open spec fn corps(d: Seq<char>, f: Fiche, maintenant: Seq<char>) -> Seq<char> {
    d + si(f.country@.len() > 0, ligne("country"@, echappe(f.country@)))
        + "  <status/>\n  <code/>\n"@
        + ligne("premiered"@, f.release_date@)
        + "  <watched>false</watched>\n  <playcount>0</playcount>\n"@
        + lignes("genre"@, f.genres@)
        + lignes("studio"@, f.studios@)
        + credits(f.writers@)
        + bloc_realisateur(f)
        + lignes("tag"@, f.tags@)
        + acteurs(f.actors@)
        + producteurs(f.producers@)
        + (match f.trailer_key {
            Some(k) => "  <trailer>plugin://plugin.video.youtube/play/?video_id="@ + k@ + "</trailer>\n"@,
            None => Seq::empty(),
        })
        + si(f.languages@.len() > 0, ligne("languages"@, echappe(joindre(vues(f.languages@), ", "@))))
        + ligne("dateadded"@, maintenant)
        + "  <fileinfo>\n    <streamdetails>\n    </streamdetails>\n  </fileinfo>\n"@
}

/// The NFO of a film (or of a series saved as one file), named after the
/// video: `tvshow` or `movie` root, then poster, clear logo, fanart,
/// certification, ids, the body and the original file name.
pub open spec fn nfo_video(f: Fiche, maintenant: Seq<char>, nom_fichier: Seq<char>, base: Seq<char>) -> Seq<char> {
    let racine = if f.is_series { "tvshow"@ } else { "movie"@ };
    corps(entete(Seq::empty(), f, racine, maintenant, true)
        + vignette_affiche(f)
        + vignette_logo(base)
        + bloc_fanart(f)
        + bloc_certification(f)
        + bloc_ids(f), f, maintenant)
        + ligne("original_filename"@, echappe(nom_fichier))
        + "</"@ + racine + ">\n"@
}

pub open spec fn vignette_saison(num: u32, p: Seq<char>) -> Seq<char> {
    "  <thumb aspect=\"poster\" type=\"season\" season=\""@ + decimal(num as nat) + "\">"@ + image_tmdb(p)
        + "</thumb>\n"@
}

/// The season posters of the seasons that were detected (season 0 aside).
pub open spec fn vignettes_saisons(ss: Seq<Season>, detectees: Set<u32>) -> Seq<char>
    decreases ss.len(),
{
    if ss.len() == 0 {
        Seq::empty()
    } else {
        let s = ss.last();
        vignettes_saisons(ss.drop_last(), detectees) + match s.poster_path {
            Some(p) => si(s.number > 0 && detectees.contains(s.number), vignette_saison(s.number, p@)),
            None => Seq::empty(),
        }
    }
}

/// The `tvshow` NFO of a series folder.
pub open spec fn nfo_serie(f: Fiche, detectees: Set<u32>, maintenant: Seq<char>, base: Seq<char>) -> Seq<char> {
    corps(entete(Seq::empty(), f, "tvshow"@, maintenant, false)
        + vignette_affiche(f)
        + vignettes_saisons(f.seasons@, detectees)
        + vignette_logo(base)
        + bloc_fanart(f)
        + bloc_ids(f)
        + bloc_certification(f), f, maintenant)
        + "</tvshow>\n"@
}

/// The position of the first season with the number `num`, or -1.
pub open spec fn premiere_saison(ss: Seq<Season>, num: u32) -> int
    decreases ss.len(),
{
    if ss.len() == 0 {
        -1
    } else if premiere_saison(ss.drop_last(), num) >= 0 {
        premiere_saison(ss.drop_last(), num)
    } else if ss.last().number == num {
        ss.len() - 1
    } else {
        -1
    }
}

pub open spec fn affiche_saison(s: Season, num: u32) -> Seq<char> {
    match s.poster_path { Some(p) => vignette_saison(num, p@), None => Seq::empty() }
}

/// What a season NFO says of its season.
pub open spec fn bloc_saison(f: Fiche, num: u32) -> Seq<char> {
    let k = premiere_saison(f.seasons@, num);
    if k < 0 {
        ligne("season"@, decimal(num as nat))
    } else {
        let s = f.seasons@[k];
        affiche_saison(s, num)
            + si(s.overview@.len() > 0, ligne("seasondesc"@, echappe(s.overview@)))
            + ligne("season"@, decimal(num as nat))
            + si(s.air_date@.len() > 0, ligne("premiered"@, s.air_date@))
            + ligne("episodecount"@, decimal(s.episode_count as nat))
    }
}

/// The NFO of one season of a series.
pub open spec fn nfo_saison(f: Fiche, num: u32, maintenant: Seq<char>) -> Seq<char> {
    corps(entete(Seq::empty(), f, "tvshow"@, maintenant, false)
        + bloc_saison(f, num)
        + bloc_ids(f)
        + bloc_certification(f), f, maintenant)
        + "</tvshow>\n"@
}

// ───────────────────────── writing them ─────────────────────────

fn pousse(x: &mut String, s: &str)
    ensures
        final(x)@ == old(x)@ + s@,
{
    x.append(s);
}

fn ajout_ligne(x: &mut String, nom: &str, contenu: &str)
    ensures
        final(x)@ == old(x)@ + ligne(nom@, contenu@),
{
    let ghost d = x@;
    x.append("  <");
    x.append(nom);
    x.append(">");
    x.append(contenu);
    x.append("</");
    x.append(nom);
    x.append(">\n");
    assert(x@ =~= d + ligne(nom@, contenu@));
}

fn ajout_ligne_echappee(x: &mut String, nom: &str, contenu: &str)
    ensures
        final(x)@ == old(x)@ + ligne(nom@, echappe(contenu@)),
{
    let e = escape_xml(contenu);
    ajout_ligne(x, nom, e.as_str());
}

fn texte_nat(n: u64) -> (r: String)
    ensures
        r@ == decimal(n as nat),
{
    crate::texte::chaine(&crate::texte::ecrire_decimal(n as u128))
}

pub(crate) fn texte_entier(i: i64) -> (r: String)
    ensures
        r@ == entier(i),
{
    if i < 0 {
        let n: u128 = (-(i as i128)) as u128;
        let mut r = String::new();
        crate::texte::pousser(&mut r, '-');
        let d = crate::texte::chaine(&crate::texte::ecrire_decimal(n));
        r.append(d.as_str());
        assert(r@ =~= seq!['-'] + decimal((-(i as int)) as nat));
        r
    } else {
        crate::texte::chaine(&crate::texte::ecrire_decimal(i as u128))
    }
}

fn texte_note(n: u64) -> (r: String)
    ensures
        r@ == note(n),
{
    let mut r = crate::texte::chaine(&crate::texte::ecrire_decimal((n / 10) as u128));
    crate::texte::pousser(&mut r, '.');
    let u = crate::texte::chaine(&crate::texte::ecrire_decimal((n % 10) as u128));
    assert(decimal((n % 10) as nat) == seq![chiffre((n % 10) as nat)]);
    r.append(u.as_str());
    assert(r@ =~= note(n));
    r
}

/// The text before the first `-` (the year of a date).
fn annee(s: &str) -> (r: String)
    ensures
        r@ == avant_tiret(s@),
{
    let v = crate::texte::caracteres(s);
    proof { lemma_premier(v@, '-'); }
    let a = match trouver(&v, 0, '-') {
        Some(k) => crate::texte::extrait(&v, 0, k),
        None => crate::texte::extrait(&v, 0, v.len()),
    };
    assert(v@.skip(0) =~= v@);
    assert(v@.subrange(0, v.len() as int) =~= v@);
    crate::texte::chaine(&a)
}

fn ecrire_entete(x: &mut String, f: &Fiche, racine: &str, maintenant: &str, marque_page: bool)
    ensures
        final(x)@ == entete(old(x)@, *f, racine@, maintenant@, marque_page),
{
    pousse(x, "<?xml version=\"1.0\" encoding=\"UTF-8\" standalone=\"yes\"?>\n");
    pousse(x, "<!--created on ");
    pousse(x, maintenant);
    pousse(x, " by oxytools for KODI-->\n");
    pousse(x, "<");
    pousse(x, racine);
    pousse(x, ">\n");
    ajout_ligne_echappee(x, "title", f.title.as_str());
    ajout_ligne_echappee(x, "originaltitle", f.original_title.as_str());
    pousse(x, "  <sorttitle/>\n");
    let ghost avant = x@;
    if marque_page {
        pousse(x, "  <epbookmark/>\n");
    }
    assert(x@ =~= avant + si(marque_page, "  <epbookmark/>\n"@));
    let a = annee(f.release_date.as_str());
    ajout_ligne(x, "year", a.as_str());
    pousse(x, "  <ratings>\n    <rating default=\"false\" max=\"10\" name=\"themoviedb\">\n");
    pousse(x, "      <value>");
    let n = texte_note(f.note_dixiemes);
    pousse(x, n.as_str());
    pousse(x, "</value>\n");
    pousse(x, "      <votes>");
    let v = texte_nat(f.vote_count);
    pousse(x, v.as_str());
    pousse(x, "</votes>\n");
    pousse(x, "    </rating>\n  </ratings>\n");
    pousse(x, "  <userrating>0</userrating>\n  <top250>0</top250>\n  <set/>\n");
    ajout_ligne_echappee(x, "plot", f.overview.as_str());
    ajout_ligne_echappee(x, "outline", f.overview.as_str());
    ajout_ligne_echappee(x, "tagline", f.tagline.as_str());
    let r = texte_nat(f.runtime as u64);
    ajout_ligne(x, "runtime", r.as_str());
}

fn ecrire_affiche(x: &mut String, f: &Fiche)
    ensures
        final(x)@ == old(x)@ + vignette_affiche(*f),
{
    let ghost d = x@;
    match &f.poster_path {
        Some(p) => {
            x.append("  <thumb aspect=\"poster\">");
            x.append("https://image.tmdb.org/t/p/original");
            x.append(p.as_str());
            x.append("</thumb>\n");
        },
        None => {},
    }
    assert(x@ =~= d + vignette_affiche(*f));
}

fn ecrire_logo(x: &mut String, base: &str)
    ensures
        final(x)@ == old(x)@ + vignette_logo(base@),
{
    let ghost d = x@;
    x.append("  <thumb aspect=\"clearlogo\">");
    x.append(base);
    x.append("_clearlogo.png</thumb>\n");
    assert(x@ =~= d + vignette_logo(base@));
}

fn ecrire_fanart(x: &mut String, f: &Fiche)
    ensures
        final(x)@ == old(x)@ + bloc_fanart(*f),
{
    let ghost d = x@;
    match &f.backdrop_path {
        Some(b) => {
            x.append("  <fanart>\n");
            x.append("    <thumb>");
            x.append("https://image.tmdb.org/t/p/original");
            x.append(b.as_str());
            x.append("</thumb>\n");
            x.append("  </fanart>\n");
        },
        None => {},
    }
    assert(x@ =~= d + bloc_fanart(*f));
}

fn ecrire_certification(x: &mut String, f: &Fiche)
    ensures
        final(x)@ == old(x)@ + bloc_certification(*f),
{
    let ghost d = x@;
    match &f.certification {
        Some(c) => {
            let na = String::from_str("N/A");
            if !(*c == na) {
                ajout_ligne_echappee(x, "mpaa", c.as_str());
                ajout_ligne_echappee(x, "certification", c.as_str());
            }
        },
        None => {},
    }
    assert(x@ =~= d + bloc_certification(*f));
}

fn ecrire_uid(x: &mut String, debut: &str, valeur: &str)
    ensures
        final(x)@ == old(x)@ + (debut@ + valeur@ + "</uniqueid>\n"@),
{
    let ghost d = x@;
    x.append(debut);
    x.append(valeur);
    x.append("</uniqueid>\n");
    assert(x@ =~= d + (debut@ + valeur@ + "</uniqueid>\n"@));
}

fn ecrire_ids(x: &mut String, f: &Fiche)
    ensures
        final(x)@ == old(x)@ + bloc_ids(*f),
{
    let ghost d = x@;
    if let Some(i) = &f.imdb_id {
        ajout_ligne_echappee(x, "id", i.as_str());
    }
    let ghost p1 = ligne_imdb(*f);
    assert(x@ =~= d + p1);
    let ghost d1 = x@;
    let id = texte_entier(f.id);
    ajout_ligne(x, "tmdbid", id.as_str());
    ecrire_uid(x, "  <uniqueid default=\"false\" type=\"tmdb\">", id.as_str());
    let ghost d2 = x@;
    if let Some(i) = &f.imdb_id {
        let e = escape_xml(i.as_str());
        ecrire_uid(x, "  <uniqueid default=\"true\" type=\"imdb\">", e.as_str());
    }
    let ghost p3 = uid_imdb(*f);
    assert(x@ =~= d2 + p3);
    let ghost d3 = x@;
    if let Some(t) = f.tvdb_id {
        let e = texte_entier(t);
        ecrire_uid(x, "  <uniqueid default=\"false\" type=\"tvdb\">", e.as_str());
    }
    let ghost p4 = uid_tvdb(*f);
    assert(x@ =~= d3 + p4);
    let ghost d4 = x@;
    if let Some(w) = &f.wikidata_id {
        let e = escape_xml(w.as_str());
        ecrire_uid(x, "  <uniqueid default=\"false\" type=\"wikidata\">", e.as_str());
    }
    let ghost p5 = uid_wikidata(*f);
    assert(x@ =~= d4 + p5);
    let ghost p2 = ids_tmdb(*f);
    assert(d2 =~= d1 + p2);
    assert(bloc_ids(*f) =~= p1 + p2 + p3 + p4 + p5);
    assert(x@ =~= d + (p1 + p2 + p3 + p4 + p5));
}

fn ecrire_lignes(x: &mut String, nom: &str, xs: &Vec<String>)
    ensures
        final(x)@ == old(x)@ + lignes(nom@, xs@),
{
    let ghost d = x@;
    let mut i: usize = 0;
    assert(xs@.take(0) =~= Seq::<String>::empty());
    assert(x@ =~= d + lignes(nom@, xs@.take(0)));
    while i < xs.len()
        invariant
            i <= xs.len(),
            x@ == d + lignes(nom@, xs@.take(i as int)),
        decreases xs.len() - i,
    {
        ajout_ligne_echappee(x, nom, xs[i].as_str());
        assert(xs@.take(i + 1).drop_last() =~= xs@.take(i as int));
        i += 1;
        assert(x@ =~= d + lignes(nom@, xs@.take(i as int)));
    }
    assert(xs@.take(xs.len() as int) =~= xs@);
}

fn ecrire_credits(x: &mut String, ws: &Vec<Writer>)
    ensures
        final(x)@ == old(x)@ + credits(ws@),
{
    let ghost d = x@;
    let mut i: usize = 0;
    assert(ws@.take(0) =~= Seq::<Writer>::empty());
    assert(x@ =~= d + credits(ws@.take(0)));
    while i < ws.len()
        invariant
            i <= ws.len(),
            x@ == d + credits(ws@.take(i as int)),
        decreases ws.len() - i,
    {
        let ghost avant = x@;
        let w = &ws[i];
        let id = texte_entier(w.tmdbid);
        let n = escape_xml(w.name.as_str());
        x.append("  <credits tmdbid=\"");
        x.append(id.as_str());
        x.append("\">");
        x.append(n.as_str());
        x.append("</credits>\n");
        assert(x@ =~= avant + credit(*w));
        assert(ws@.take(i + 1).drop_last() =~= ws@.take(i as int));
        i += 1;
        assert(x@ =~= d + credits(ws@.take(i as int)));
    }
    assert(ws@.take(ws.len() as int) =~= ws@);
}

fn ecrire_realisateur(x: &mut String, f: &Fiche)
    ensures
        final(x)@ == old(x)@ + bloc_realisateur(*f),
{
    let ghost d = x@;
    if let Some(dir) = &f.director {
        match f.director_tmdbid {
            Some(i) => {
                let id = texte_entier(i);
                let n = escape_xml(dir.as_str());
                x.append("  <director tmdbid=\"");
                x.append(id.as_str());
                x.append("\">");
                x.append(n.as_str());
                x.append("</director>\n");
            },
            None => ajout_ligne_echappee(x, "director", dir.as_str()),
        }
    }
    assert(x@ =~= d + bloc_realisateur(*f));
}

fn ecrire_vignette(x: &mut String, t: &Option<String>)
    ensures
        final(x)@ == old(x)@ + vignette(*t),
{
    let ghost d = x@;
    if let Some(t) = t {
        x.append("    <thumb>");
        x.append(t.as_str());
        x.append("</thumb>\n");
    }
    assert(x@ =~= d + vignette(*t));
}

fn ecrire_acteur(x: &mut String, a: &Actor)
    ensures
        final(x)@ == old(x)@ + acteur(*a),
{
    let ghost d = x@;
    let n = escape_xml(a.name.as_str());
    let r = escape_xml(a.role.as_str());
    let p = escape_xml(a.profile.as_str());
    let id = texte_entier(a.id);
    x.append("  <actor>\n");
    x.append("    <name>");
    x.append(n.as_str());
    x.append("</name>\n");
    x.append("    <role>");
    x.append(r.as_str());
    x.append("</role>\n");
    let ghost d1 = x@;
    ecrire_vignette(x, &a.thumb);
    let ghost d2 = x@;
    x.append("    <profile>");
    x.append(p.as_str());
    x.append("</profile>\n");
    x.append("    <tmdbid>");
    x.append(id.as_str());
    x.append("</tmdbid>\n");
    x.append("  </actor>\n");
    proof {
        assert(d1 =~= d + "  <actor>\n"@ + "    <name>"@ + echappe(a.name@) + "</name>\n"@
            + "    <role>"@ + echappe(a.role@) + "</role>\n"@);
        assert(x@ =~= d2 + "    <profile>"@ + echappe(a.profile@) + "</profile>\n"@
            + "    <tmdbid>"@ + entier(a.id) + "</tmdbid>\n"@ + "  </actor>\n"@);
        assert(x@ =~= d + acteur(*a));
    }
}

fn ecrire_acteurs(x: &mut String, xs: &Vec<Actor>)
    ensures
        final(x)@ == old(x)@ + acteurs(xs@),
{
    let ghost d = x@;
    let mut i: usize = 0;
    assert(xs@.take(0) =~= Seq::<Actor>::empty());
    assert(x@ =~= d + acteurs(xs@.take(0)));
    while i < xs.len()
        invariant
            i <= xs.len(),
            x@ == d + acteurs(xs@.take(i as int)),
        decreases xs.len() - i,
    {
        ecrire_acteur(x, &xs[i]);
        assert(xs@.take(i + 1).drop_last() =~= xs@.take(i as int));
        i += 1;
        assert(x@ =~= d + acteurs(xs@.take(i as int)));
    }
    assert(xs@.take(xs.len() as int) =~= xs@);
}

fn ecrire_producteur(x: &mut String, a: &Producer)
    ensures
        final(x)@ == old(x)@ + producteur(*a),
{
    let ghost d = x@;
    let n = escape_xml(a.name.as_str());
    let r = escape_xml(a.role.as_str());
    let p = escape_xml(a.profile.as_str());
    let id = texte_entier(a.tmdbid);
    x.append("  <producer tmdbid=\"");
    x.append(id.as_str());
    x.append("\">\n");
    x.append("    <name>");
    x.append(n.as_str());
    x.append("</name>\n");
    x.append("    <role>");
    x.append(r.as_str());
    x.append("</role>\n");
    let ghost d1 = x@;
    ecrire_vignette(x, &a.thumb);
    let ghost d2 = x@;
    x.append("    <profile>");
    x.append(p.as_str());
    x.append("</profile>\n");
    x.append("  </producer>\n");
    proof {
        assert(d1 =~= d + "  <producer tmdbid=\""@ + entier(a.tmdbid) + "\">\n"@
            + "    <name>"@ + echappe(a.name@) + "</name>\n"@
            + "    <role>"@ + echappe(a.role@) + "</role>\n"@);
        assert(x@ =~= d2 + "    <profile>"@ + echappe(a.profile@) + "</profile>\n"@ + "  </producer>\n"@);
        assert(x@ =~= d + producteur(*a));
    }
}

fn ecrire_producteurs(x: &mut String, xs: &Vec<Producer>)
    ensures
        final(x)@ == old(x)@ + producteurs(xs@),
{
    let ghost d = x@;
    let mut i: usize = 0;
    assert(xs@.take(0) =~= Seq::<Producer>::empty());
    assert(x@ =~= d + producteurs(xs@.take(0)));
    while i < xs.len()
        invariant
            i <= xs.len(),
            x@ == d + producteurs(xs@.take(i as int)),
        decreases xs.len() - i,
    {
        ecrire_producteur(x, &xs[i]);
        assert(xs@.take(i + 1).drop_last() =~= xs@.take(i as int));
        i += 1;
        assert(x@ =~= d + producteurs(xs@.take(i as int)));
    }
    assert(xs@.take(xs.len() as int) =~= xs@);
}

pub(crate) fn joindre_textes(xs: &Vec<String>, sep: &str) -> (r: String)
    ensures
        r@ == joindre(vues(xs@), sep@),
{
    let mut r = String::new();
    let mut i: usize = 0;
    let ghost v = vues(xs@);
    assert(v.take(0) =~= Seq::<Seq<char>>::empty());
    while i < xs.len()
        invariant
            i <= xs.len(),
            v == vues(xs@),
            r@ == joindre(v.take(i as int), sep@),
        decreases xs.len() - i,
    {
        assert(v.take(i + 1).drop_last() =~= v.take(i as int));
        assert(v.take(i + 1).last() == xs@[i as int]@);
        if i > 0 {
            r.append(sep);
        } else {
            assert(r@ =~= Seq::<char>::empty());
        }
        r.append(xs[i].as_str());
        i += 1;
        assert(v.take(i as int).len() == i);
        if i == 1 {
            assert(r@ =~= v.take(1)[0]);
        }
    }
    assert(v.take(xs.len() as int) =~= v);
    r
}

fn ecrire_corps(x: &mut String, f: &Fiche, maintenant: &str)
    ensures
        final(x)@ == corps(old(x)@, *f, maintenant@),
{
    let ghost d = x@;
    if f.country.as_str().unicode_len() > 0 {
        ajout_ligne_echappee(x, "country", f.country.as_str());
    }
    assert(x@ =~= d + si(f.country@.len() > 0, ligne("country"@, echappe(f.country@))));
    pousse(x, "  <status/>\n  <code/>\n");
    ajout_ligne(x, "premiered", f.release_date.as_str());
    pousse(x, "  <watched>false</watched>\n  <playcount>0</playcount>\n");
    ecrire_lignes(x, "genre", &f.genres);
    ecrire_lignes(x, "studio", &f.studios);
    ecrire_credits(x, &f.writers);
    ecrire_realisateur(x, f);
    ecrire_lignes(x, "tag", &f.tags);
    ecrire_acteurs(x, &f.actors);
    ecrire_producteurs(x, &f.producers);
    let ghost avant = x@;
    if let Some(k) = &f.trailer_key {
        x.append("  <trailer>plugin://plugin.video.youtube/play/?video_id=");
        x.append(k.as_str());
        x.append("</trailer>\n");
    }
    assert(x@ =~= avant + (match f.trailer_key {
        Some(k) => "  <trailer>plugin://plugin.video.youtube/play/?video_id="@ + k@ + "</trailer>\n"@,
        None => Seq::empty(),
    }));
    let ghost avant2 = x@;
    if f.languages.len() > 0 {
        let l = joindre_textes(&f.languages, ", ");
        ajout_ligne_echappee(x, "languages", l.as_str());
    }
    assert(x@ =~= avant2 + si(f.languages@.len() > 0, ligne("languages"@, echappe(joindre(vues(f.languages@), ", "@)))));
    ajout_ligne(x, "dateadded", maintenant);
    pousse(x, "  <fileinfo>\n    <streamdetails>\n    </streamdetails>\n  </fileinfo>\n");
}

/// The NFO of a film (or of a series saved as one file): see `nfo_video`.
/// `maintenant` is the date and time of writing, `nom_fichier` the video's
/// file name and `base` its name without extension.
pub fn xml_nfo_video(f: &Fiche, maintenant: &str, nom_fichier: &str, base: &str) -> (r: String)
    ensures
        r@ == nfo_video(*f, maintenant@, nom_fichier@, base@),
{
    let racine = if f.is_series { "tvshow" } else { "movie" };
    let mut x = String::new();
    ecrire_entete(&mut x, f, racine, maintenant, true);
    ecrire_affiche(&mut x, f);
    ecrire_logo(&mut x, base);
    ecrire_fanart(&mut x, f);
    ecrire_certification(&mut x, f);
    ecrire_ids(&mut x, f);
    ecrire_corps(&mut x, f, maintenant);
    ajout_ligne_echappee(&mut x, "original_filename", nom_fichier);
    pousse(&mut x, "</");
    pousse(&mut x, racine);
    pousse(&mut x, ">\n");
    x
}

fn ecrire_vignette_saison(x: &mut String, num: u32, p: &str)
    ensures
        final(x)@ == old(x)@ + vignette_saison(num, p@),
{
    let ghost d = x@;
    let n = texte_nat(num as u64);
    x.append("  <thumb aspect=\"poster\" type=\"season\" season=\"");
    x.append(n.as_str());
    x.append("\">");
    x.append("https://image.tmdb.org/t/p/original");
    x.append(p);
    x.append("</thumb>\n");
    assert(x@ =~= d + vignette_saison(num, p@));
}

fn ecrire_vignettes_saisons(x: &mut String, ss: &Vec<Season>, detectees: &BTreeSet<u32>)
    ensures
        final(x)@ == old(x)@ + vignettes_saisons(ss@, detectees@),
{
    let ghost d = x@;
    let mut i: usize = 0;
    assert(ss@.take(0) =~= Seq::<Season>::empty());
    assert(x@ =~= d + vignettes_saisons(ss@.take(0), detectees@));
    while i < ss.len()
        invariant
            i <= ss.len(),
            x@ == d + vignettes_saisons(ss@.take(i as int), detectees@),
        decreases ss.len() - i,
    {
        let ghost avant = x@;
        let s = &ss[i];
        if let Some(p) = &s.poster_path {
            if s.number > 0 && detectees.contains(&s.number) {
                ecrire_vignette_saison(x, s.number, p.as_str());
            }
        }
        assert(ss@.take(i + 1).drop_last() =~= ss@.take(i as int));
        assert(ss@.take(i + 1).last() == *s);
        assert(x@ =~= avant + match s.poster_path {
            Some(p) => si(s.number > 0 && detectees@.contains(s.number), vignette_saison(s.number, p@)),
            None => Seq::empty(),
        });
        i += 1;
        assert(x@ =~= d + vignettes_saisons(ss@.take(i as int), detectees@));
    }
    assert(ss@.take(ss.len() as int) =~= ss@);
}

/// The `tvshow` NFO of a series folder: see `nfo_serie`. `detectees` are
/// the seasons found among the files, `base` the series name.
pub fn xml_nfo_serie(f: &Fiche, detectees: &BTreeSet<u32>, maintenant: &str, base: &str) -> (r: String)
    ensures
        r@ == nfo_serie(*f, detectees@, maintenant@, base@),
{
    let mut x = String::new();
    ecrire_entete(&mut x, f, "tvshow", maintenant, false);
    ecrire_affiche(&mut x, f);
    ecrire_vignettes_saisons(&mut x, &f.seasons, detectees);
    ecrire_logo(&mut x, base);
    ecrire_fanart(&mut x, f);
    ecrire_ids(&mut x, f);
    ecrire_certification(&mut x, f);
    ecrire_corps(&mut x, f, maintenant);
    pousse(&mut x, "</tvshow>\n");
    x
}

proof fn lemma_premiere_saison(ss: Seq<Season>, num: u32, k: int)
    requires
        0 <= k <= ss.len(),
        forall|j: int| 0 <= j < k ==> #[trigger] ss[j].number != num,
        k < ss.len() ==> ss[k].number == num,
    ensures
        premiere_saison(ss, num) == if k < ss.len() { k } else { -1 },
    decreases ss.len(),
{
    if ss.len() > 0 {
        let t = ss.drop_last();
        if k < ss.len() - 1 {
            assert(t[k] == ss[k]);
            assert forall|j: int| 0 <= j < k implies #[trigger] t[j].number != num by {
                assert(t[j] == ss[j]);
            }
            lemma_premiere_saison(t, num, k);
        } else {
            let m = if k == ss.len() { t.len() as int } else { k };
            assert forall|j: int| 0 <= j < m implies #[trigger] t[j].number != num by {
                assert(t[j] == ss[j]);
            }
            lemma_premiere_saison(t, num, m);
        }
    }
}

fn ecrire_bloc_saison(x: &mut String, f: &Fiche, num: u32)
    ensures
        final(x)@ == old(x)@ + bloc_saison(*f, num),
{
    let ghost d = x@;
    let mut k: usize = 0;
    while k < f.seasons.len() && f.seasons[k].number != num
        invariant
            k <= f.seasons.len(),
            forall|j: int| 0 <= j < k ==> #[trigger] f.seasons@[j].number != num,
        decreases f.seasons.len() - k,
    {
        k += 1;
    }
    proof { lemma_premiere_saison(f.seasons@, num, k as int); }
    let n = texte_nat(num as u64);
    if k == f.seasons.len() {
        ajout_ligne(x, "season", n.as_str());
        return;
    }
    let s = &f.seasons[k];
    if let Some(p) = &s.poster_path {
        ecrire_vignette_saison(x, num, p.as_str());
    }
    let ghost d1 = x@;
    if s.overview.as_str().unicode_len() > 0 {
        ajout_ligne_echappee(x, "seasondesc", s.overview.as_str());
    }
    let ghost d2 = x@;
    ajout_ligne(x, "season", n.as_str());
    let ghost d3 = x@;
    if s.air_date.as_str().unicode_len() > 0 {
        ajout_ligne(x, "premiered", s.air_date.as_str());
    }
    let ghost d4 = x@;
    let e = texte_nat(s.episode_count as u64);
    ajout_ligne(x, "episodecount", e.as_str());
    proof {
        let p1 = affiche_saison(*s, num);
        let p2 = si(s.overview@.len() > 0, ligne("seasondesc"@, echappe(s.overview@)));
        let p4 = si(s.air_date@.len() > 0, ligne("premiered"@, s.air_date@));
        assert(d1 =~= d + p1);
        assert(d2 =~= d1 + p2);
        assert(d4 =~= d3 + p4);
        assert(x@ =~= d + bloc_saison(*f, num));
    }
}

/// The NFO of one season of a series: see `nfo_saison`.
pub fn xml_nfo_saison(f: &Fiche, num: u32, maintenant: &str) -> (r: String)
    ensures
        r@ == nfo_saison(*f, num, maintenant@),
{
    let mut x = String::new();
    ecrire_entete(&mut x, f, "tvshow", maintenant, false);
    ecrire_bloc_saison(&mut x, f, num);
    ecrire_ids(&mut x, f);
    ecrire_certification(&mut x, f);
    ecrire_corps(&mut x, f, maintenant);
    pousse(&mut x, "</tvshow>\n");
    x
}

} // verus!
