use vstd::prelude::*;
use vstd::string::StringExecFns;
use std::collections::BTreeSet;
use crate::nfo::{image_tmdb, nfo_saison, nfo_serie, nfo_video, xml_nfo_saison, xml_nfo_serie, xml_nfo_video, Fiche};
use crate::scrap::Season;
use crate::tag::deux_chiffres;
use crate::texte::chaine;

verus! {

broadcast use vstd::string::group_string_axioms;

/// An image to fetch: its address and the name of its file in `Extras`.
pub struct Telechargement {
    pub url: String,
    pub fichier: String,
}

pub open spec fn vue_tel(t: Telechargement) -> (Seq<char>, Seq<char>) {
    (t.url@, t.fichier@)
}

pub open spec fn vues_tel(v: Seq<Telechargement>) -> Seq<(Seq<char>, Seq<char>)> {
    v.map_values(|t: Telechargement| vue_tel(t))
}

/// The poster, then (when asked) the backdrop of a film or series, as
/// `<base>_poster.jpg` and `<base>_fanart.jpg`.
pub open spec fn images_fiche(f: Fiche, base: Seq<char>, fanart: bool) -> Seq<(Seq<char>, Seq<char>)> {
    (match f.poster_path {
        Some(p) => seq![(image_tmdb(p@), base + "_poster.jpg"@)],
        None => Seq::empty(),
    }) + (if fanart {
        match f.backdrop_path {
            Some(b) => seq![(image_tmdb(b@), base + "_fanart.jpg"@)],
            None => Seq::empty(),
        }
    } else {
        Seq::empty()
    })
}

/// The posters of the seasons found among the files (and not the specials,
/// season 0), as `<base>_seasonNN_poster.jpg`, in the order of the seasons.
pub open spec fn affiches_saisons(ss: Seq<Season>, detectees: Set<u32>, base: Seq<char>) -> Seq<(Seq<char>, Seq<char>)>
    decreases ss.len(),
{
    if ss.len() == 0 {
        Seq::empty()
    } else {
        let r = affiches_saisons(ss.drop_last(), detectees, base);
        let s = ss.last();
        match s.poster_path {
            Some(p) => if s.number > 0 && detectees.contains(s.number) {
                r.push((image_tmdb(p@), base + "_season"@ + deux_chiffres(s.number) + "_poster.jpg"@))
            } else {
                r
            },
            None => r,
        }
    }
}

fn image(chemin: &str) -> (r: String)
    ensures
        r@ == image_tmdb(chemin@),
{
    let mut u = String::from_str("https://image.tmdb.org/t/p/original");
    u.append(chemin);
    u
}

fn nom(base: &str, suite: &str) -> (r: String)
    ensures
        r@ == base@ + suite@,
{
    let mut n = String::from_str(base);
    n.append(suite);
    n
}

fn ajouter_tel(v: &mut Vec<Telechargement>, url: String, fichier: String)
    ensures
        vues_tel(final(v)@) == vues_tel(old(v)@).push((url@, fichier@)),
{
    let ghost a = vues_tel(v@);
    v.push(Telechargement { url, fichier });
    assert(vues_tel(v@) =~= a.push((url@, fichier@)));
}

fn images_de_fiche(f: &Fiche, base: &str, fetch_fanart: bool) -> (r: Vec<Telechargement>)
    ensures
        vues_tel(r@) == images_fiche(*f, base@, fetch_fanart),
{
    let mut r: Vec<Telechargement> = Vec::new();
    assert(vues_tel(r@) =~= Seq::<(Seq<char>, Seq<char>)>::empty());
    match &f.poster_path {
        Some(p) => ajouter_tel(&mut r, image(p.as_str()), nom(base, "_poster.jpg")),
        None => {},
    }
    let ghost apres_affiche = vues_tel(r@);
    if fetch_fanart {
        match &f.backdrop_path {
            Some(b) => ajouter_tel(&mut r, image(b.as_str()), nom(base, "_fanart.jpg")),
            None => {},
        }
    }
    assert(vues_tel(r@) =~= images_fiche(*f, base@, fetch_fanart));
    r
}

/// A text file to write in `Extras`: its name and its content.
pub struct FichierTexte {
    pub nom: String,
    pub contenu: String,
}

pub open spec fn vue_fichier(t: FichierTexte) -> (Seq<char>, Seq<char>) {
    (t.nom@, t.contenu@)
}

pub open spec fn vues_fichiers(v: Seq<FichierTexte>) -> Seq<(Seq<char>, Seq<char>)> {
    v.map_values(|t: FichierTexte| vue_fichier(t))
}

/// What saving the metadata of a film or a series writes in `Extras`: the
/// NFO files, and the images to fetch.
pub struct Metadonnees {
    pub nfo: Vec<FichierTexte>,
    pub images: Vec<Telechargement>,
}

fn fichier(nom: String, contenu: String) -> (r: FichierTexte)
    ensures
        vue_fichier(r) == (nom@, contenu@),
{
    FichierTexte { nom, contenu }
}

/// What `save_metadata` writes for a film or a series whose NFO goes next
/// to a video: `<base>.nfo` (see `nfo_video`), and its poster, and its
/// backdrop when asked. `nom_fichier` is the video's file name, `base` its
/// stem.
pub fn save_metadata(f: &Fiche, nom_fichier: &str, base: &str, maintenant: &str, fetch_fanart: bool)
    -> (r: Metadonnees)
    ensures
        vues_fichiers(r.nfo@) == seq![(base@ + ".nfo"@, nfo_video(*f, maintenant@, nom_fichier@, base@))],
        vues_tel(r.images@) == images_fiche(*f, base@, fetch_fanart),
{
    let nfo = fichier(nom(base, ".nfo"), xml_nfo_video(f, maintenant, nom_fichier, base));
    let ghost vn = vue_fichier(nfo);
    let v = vec![nfo];
    assert(vues_fichiers(v@) =~= seq![vn]);
    Metadonnees { nfo: v, images: images_de_fiche(f, base, fetch_fanart) }
}

/// The NFO file of a season: `<base>_seasonNN.nfo`.
pub open spec fn nom_nfo_saison(base: Seq<char>, n: u32) -> Seq<char> {
    base + "_season"@ + deux_chiffres(n) + ".nfo"@
}

/// The NFO files of the seasons, one per season of `ordre`, in that order.
pub open spec fn nfos_saisons(f: Fiche, ordre: Seq<u32>, base: Seq<char>, maintenant: Seq<char>)
    -> Seq<(Seq<char>, Seq<char>)>
{
    ordre.map_values(|n: u32| (nom_nfo_saison(base, n), nfo_saison(f, n, maintenant)))
}

fn nfo_de_saison(f: &Fiche, base: &str, n: u32, maintenant: &str) -> (r: FichierTexte)
    ensures
        vue_fichier(r) == (nom_nfo_saison(base@, n), nfo_saison(*f, n, maintenant@)),
{
    let n2 = chaine(&crate::texte::ecrire_decimal_zeros(n as u128, 2));
    let mut nomf = nom(base, "_season");
    nomf.append(n2.as_str());
    nomf.append(".nfo");
    fichier(nomf, xml_nfo_saison(f, n, maintenant))
}

/// The seasons of a set in increasing order.
pub open spec fn en_ordre(ordre: Seq<u32>, d: Set<u32>) -> bool {
    &&& ordre.to_set() == d
    &&& forall|i: int, j: int| 0 <= i < j < ordre.len() ==> ordre[i] < ordre[j]
}

/// What `save_series_metadata` writes for a series folder: `<base>.nfo`
/// (see `nfo_serie`), then one `<base>_seasonNN.nfo` per season found among
/// the files (`detectees`), in increasing order; and its poster, its
/// backdrop when asked, and the poster of each season found.
pub fn save_series_metadata(f: &Fiche, base: &str, maintenant: &str, fetch_fanart: bool, detectees: &BTreeSet<u32>)
    -> (r: Metadonnees)
    ensures
        exists|ordre: Seq<u32>| en_ordre(ordre, detectees@)
            && vues_fichiers(r.nfo@) == seq![(base@ + ".nfo"@, nfo_serie(*f, detectees@, maintenant@, base@))]
                + nfos_saisons(*f, ordre, base@, maintenant@),
        vues_tel(r.images@) == images_fiche(*f, base@, fetch_fanart) + affiches_saisons(f.seasons@, detectees@, base@),
{
    let mut nfo: Vec<FichierTexte> = Vec::new();
    nfo.push(fichier(nom(base, ".nfo"), xml_nfo_serie(f, detectees, maintenant, base)));
    let ghost tete = vues_fichiers(nfo@);
    let ordre = saisons_en_ordre(detectees);
    let ghost o = ordre@;
    let ghost liste = nfos_saisons(*f, o, base@, maintenant@);
    let mut k: usize = 0;
    assert(vues_fichiers(nfo@) =~= tete + liste.take(0));
    while k < ordre.len()
        invariant
            k <= ordre.len(),
            o == ordre@,
            liste == nfos_saisons(*f, o, base@, maintenant@),
            liste.len() == o.len(),
            vues_fichiers(nfo@) == tete + liste.take(k as int),
        decreases ordre.len() - k,
    {
        let x = nfo_de_saison(f, base, ordre[k], maintenant);
        let ghost avant = vues_fichiers(nfo@);
        nfo.push(x);
        assert(liste[k as int] == vue_fichier(x));
        assert(vues_fichiers(nfo@) =~= avant.push(vue_fichier(x)));
        assert(liste.take(k + 1) =~= liste.take(k as int).push(liste[k as int]));
        k += 1;
    }
    assert(liste.take(o.len() as int) =~= liste);
    assert(en_ordre(o, detectees@));
    Metadonnees { nfo, images: images_saisons(f, base, fetch_fanart, detectees) }
}

/// The seasons of a set, in increasing order.
fn saisons_en_ordre(d: &BTreeSet<u32>) -> (r: Vec<u32>)
    ensures
        r@.to_set() == d@,
        forall|i: int, j: int| 0 <= i < j < r.len() ==> r@[i] < r@[j],
{
    broadcast use vstd::std_specs::btree::group_btree_axioms, vstd::laws_cmp::group_laws_cmp;
    let mut r: Vec<u32> = Vec::new();
    for n in it: d.iter()
        invariant
            r@ == it.seq().take(it.index()).map_values(|x: &u32| *x),
    {
        r.push(*n);
        assert(r@ =~= it.seq().take(it.index() + 1).map_values(|x: &u32| *x));
    }
    proof {
        let rem = vstd::std_specs::iter::IteratorSpec::remaining(&vstd::std_specs::btree::spec_btree_keys_iter(d));
        assert(r@ =~= rem.map_values(|x: &u32| *x));
        assert(rem.unref() =~= rem.map_values(|x: &u32| *x));
        assert(vstd::std_specs::btree::increasing_seq(rem));
        assert forall|i: int, j: int| 0 <= i < j < r.len() implies r@[i] < r@[j] by {
            assert(vstd::std_specs::cmp::OrdSpec::cmp_spec(&rem[i], &rem[j]) is Less);
            assert(r@[i] == *rem[i] && r@[j] == *rem[j]);
        }
    }
    r
}


/// The images of a series folder: its poster, its backdrop when asked, and
/// the poster of each season found.
fn images_saisons(f: &Fiche, base: &str, fetch_fanart: bool, detectees: &BTreeSet<u32>)
    -> (r: Vec<Telechargement>)
    ensures
        vues_tel(r@) == images_fiche(*f, base@, fetch_fanart) + affiches_saisons(f.seasons@, detectees@, base@),
{
    let mut r = images_de_fiche(f, base, fetch_fanart);
    let ghost d = vues_tel(r@);
    let ss = &f.seasons;
    let mut i: usize = 0;
    assert(ss@.take(0) =~= Seq::<Season>::empty());
    assert(vues_tel(r@) =~= d + affiches_saisons(ss@.take(0), detectees@, base@));
    while i < ss.len()
        invariant
            i <= ss.len(),
            ss == &f.seasons,
            vues_tel(r@) == d + affiches_saisons(ss@.take(i as int), detectees@, base@),
        decreases ss.len() - i,
    {
        let s = &ss[i];
        assert(ss@.take(i + 1).drop_last() =~= ss@.take(i as int));
        assert(ss@.take(i + 1).last() == *s);
        if let Some(p) = &s.poster_path {
            if s.number > 0 && detectees.contains(&s.number) {
                let n2 = chaine(&crate::texte::ecrire_decimal_zeros(s.number as u128, 2));
                let mut fichier = nom(base, "_season");
                fichier.append(n2.as_str());
                fichier.append("_poster.jpg");
                ajouter_tel(&mut r, image(p.as_str()), fichier);
            }
        }
        i += 1;
        assert(vues_tel(r@) =~= d + affiches_saisons(ss@.take(i as int), detectees@, base@));
    }
    assert(ss@.take(ss.len() as int) =~= ss@);
    r
}

// ───────────────────────── the logo ─────────────────────────

/// The fanart.tv key to use: the one set in the settings, else the one in
/// the environment (`FANART_API_KEY`, read by the caller); without either,
/// no logo is fetched.
pub fn cle_fanart(reglee: &str, environnement: Option<String>) -> (r: Option<String>)
    ensures
        reglee@.len() > 0 ==> (r matches Some(k) && k@ == reglee@),
        reglee@.len() == 0 ==> match environnement {
            Some(e) => (r matches Some(k) && k@ == e@),
            None => r is None,
        },
{
    if reglee.unicode_len() > 0 { Some(String::from_str(reglee)) } else { environnement }
}

/// The fanart.tv answer's arrays of logos tried, in order: the HD then the
/// plain TV logos of a series; the HD movie logos, the HD clear logos, then
/// the movie logos of a film.
pub open spec fn cles_logos(is_series: bool) -> Seq<Seq<char>> {
    if is_series { seq!["hdtvlogo"@, "clearlogo"@] } else { seq!["hdmovielogo"@, "hdclearlogo"@, "movielogo"@] }
}

pub fn cles_logo(is_series: bool) -> (r: Vec<&'static str>)
    ensures
        r@.map_values(|s: &str| s@) == cles_logos(is_series),
{
    let r = if is_series { vec!["hdtvlogo", "clearlogo"] } else { vec!["hdmovielogo", "hdclearlogo", "movielogo"] };
    assert(r@.map_values(|s: &str| s@) =~= cles_logos(is_series));
    r
}

/// What the answer holds under one of those keys: `None` when it is not an
/// array, else the `url` of each logo (`None` for one without a textual
/// `url`).
pub open spec fn vue_tableau(t: Option<Vec<Option<String>>>) -> Option<Seq<Option<Seq<char>>>> {
    match t {
        Some(v) => Some(v@.map_values(|u: Option<String>| match u { Some(s) => Some(s@), None => None })),
        None => None,
    }
}

pub open spec fn vues_tableaux(l: Seq<Option<Vec<Option<String>>>>) -> Seq<Option<Seq<Option<Seq<char>>>>> {
    l.map_values(|t: Option<Vec<Option<String>>>| vue_tableau(t))
}

/// The first of the keys that holds an array.
pub open spec fn premier_tableau(l: Seq<Option<Seq<Option<Seq<char>>>>>) -> Option<Seq<Option<Seq<char>>>>
    decreases l.len(),
{
    if l.len() == 0 {
        None
    } else if l[0] is Some {
        l[0]
    } else {
        premier_tableau(l.drop_first())
    }
}

/// The logo chosen: the `url` of the first logo of the first array (none
/// when that array is empty, even if a later key holds logos).
pub open spec fn logo_choisi(l: Seq<Option<Seq<Option<Seq<char>>>>>) -> Option<Seq<char>> {
    match premier_tableau(l) {
        Some(a) => if a.len() > 0 { a[0] } else { None },
        None => None,
    }
}

/// The address of the logo to fetch from what fanart.tv answered, given
/// under each key of `cles_logo`, in that order.
pub fn choisir_logo(tableaux: &Vec<Option<Vec<Option<String>>>>) -> (r: Option<String>)
    ensures
        match r {
            Some(u) => logo_choisi(vues_tableaux(tableaux@)) == Some(u@),
            None => logo_choisi(vues_tableaux(tableaux@)) is None,
        },
{
    let ghost l = vues_tableaux(tableaux@);
    let mut i: usize = 0;
    assert(l.skip(0) =~= l);
    while i < tableaux.len()
        invariant
            i <= tableaux.len(),
            l == vues_tableaux(tableaux@),
            premier_tableau(l) == premier_tableau(l.skip(i as int)),
        decreases tableaux.len() - i,
    {
        assert(l.skip(i as int)[0] == vue_tableau(tableaux@[i as int]));
        match &tableaux[i] {
            Some(a) => {
                assert(premier_tableau(l.skip(i as int)) == vue_tableau(tableaux@[i as int]));
                if a.len() > 0 {
                    assert(vue_tableau(tableaux@[i as int])->0[0] == match a@[0] { Some(s) => Some(s@), None => None });
                    return match &a[0] {
                        Some(u) => Some(u.clone()),
                        None => None,
                    };
                }
                return None;
            },
            None => {
                assert(l.skip(i as int).drop_first() =~= l.skip(i + 1));
            },
        }
        i += 1;
    }
    None
}

} // verus!
