use oxytools::tmdb::{
    parse_detail, requete_recherche, url_detail, url_logos, url_recherche, ClassementTmdb, DetailTmdb,
    PersonneTmdb, SaisonTmdb, SortiesTmdb, VideoTmdb,
};

fn s(x: &str) -> Option<String> {
    Some(x.to_string())
}

fn personne(nom: &str, job: Option<&str>, id: Option<i64>) -> PersonneTmdb {
    PersonneTmdb { name: s(nom), character: None, job: job.map(|j| j.to_string()), profile_path: None, id }
}

fn detail() -> DetailTmdb {
    DetailTmdb {
        title: s("Le Film"),
        name: s("La Série"),
        original_title: s("The Film"),
        original_name: None,
        overview: None,
        poster_path: s("/a.jpg"),
        backdrop_path: None,
        release_date: s("2020-05-01"),
        first_air_date: None,
        vote_count: Some(12),
        runtime: Some(95),
        premier_episode_run_time: None,
        tagline: None,
        genres: vec![s("Drame"), None],
        imdb_id: s("tt1"),
        wikidata_id: None,
        tvdb_id: Some(77),
        cast: vec![PersonneTmdb { name: s("A"), character: s("Rôle"), job: None, profile_path: s("/x.jpg"), id: Some(5) }],
        crew: vec![
            personne("W1", Some("Writer"), Some(10)),
            personne("D", Some("Director"), Some(11)),
            personne("W1 bis", Some("Screenplay"), Some(10)),
            personne("P", Some("Co-Producer"), None),
            personne("D2", Some("Director"), Some(12)),
            personne("S", Some("Story"), Some(13)),
        ],
        created_by: vec![personne("Créatrice", None, Some(99))],
        production_countries: vec![s("FR"), None, s("BE")],
        content_ratings: vec![
            ClassementTmdb { iso_3166_1: s("US"), rating: s("TV-14") },
            ClassementTmdb { iso_3166_1: s("FR"), rating: s("12") },
        ],
        release_dates: vec![
            SortiesTmdb { iso_3166_1: s("DE"), certifications: Some(vec![s("16")]) },
            SortiesTmdb { iso_3166_1: s("FR"), certifications: Some(vec![s(""), None, s("U"), s("12")]) },
        ],
        keywords_results: vec![s("serie")],
        keywords_keywords: vec![s("film"), None],
        videos: vec![
            VideoTmdb { site: s("Vimeo"), type_video: s("Trailer"), key: s("v") },
            VideoTmdb { site: s("YouTube"), type_video: s("Teaser"), key: s("t") },
            VideoTmdb { site: s("YouTube"), type_video: s("Trailer"), key: s("yt") },
        ],
        spoken_languages: vec![s("French")],
        networks: vec![s("Canal+")],
        production_companies: vec![None, s("Gaumont")],
        seasons: vec![
            SaisonTmdb { season_number: Some(1), name: s("S1"), overview: None, poster_path: None, air_date: None, episode_count: Some(8) },
            SaisonTmdb { season_number: None, name: s("?"), overview: None, poster_path: None, air_date: None, episode_count: None },
        ],
    }
}

#[test]
fn detail_de_film() {
    let f = parse_detail(&detail(), 42, false, 75);
    assert_eq!(f.id, 42);
    assert_eq!(f.title, "Le Film");
    assert_eq!(f.original_title, "The Film");
    assert_eq!(f.overview, "");
    assert_eq!(f.release_date, "2020-05-01");
    assert_eq!(f.note_dixiemes, 75);
    assert_eq!(f.vote_count, 12);
    assert_eq!(f.runtime, 95);
    assert_eq!(f.genres, vec!["Drame".to_string(), "".to_string()]);
    assert_eq!(f.studios, vec!["Gaumont".to_string()]);
    assert_eq!(f.actors.len(), 1);
    assert_eq!(f.actors[0].role, "Rôle");
    assert_eq!(f.actors[0].thumb, s("https://image.tmdb.org/t/p/h632/x.jpg"));
    assert_eq!(f.actors[0].profile, "https://www.themoviedb.org/person/5");
    assert_eq!(f.director, s("D"));
    assert_eq!(f.director_tmdbid, Some(11));
    let ecrivains: Vec<(String, i64)> = f.writers.iter().map(|w| (w.name.clone(), w.tmdbid)).collect();
    assert_eq!(ecrivains, vec![("W1".to_string(), 10), ("S".to_string(), 13)]);
    assert_eq!(f.producers.len(), 1);
    assert_eq!(f.producers[0].role, "Co-Producer");
    assert_eq!(f.producers[0].profile, "https://www.themoviedb.org/person/0");
    assert_eq!(f.country, "FR, BE");
    assert_eq!(f.certification, s("FR:U"));
    assert_eq!(f.tags, vec!["film".to_string()]);
    assert_eq!(f.trailer_key, s("yt"));
    assert_eq!(f.languages, vec!["French".to_string()]);
    assert!(f.seasons.is_empty());
}

#[test]
fn detail_de_serie() {
    let f = parse_detail(&detail(), 7, true, 0);
    assert_eq!(f.title, "La Série");
    assert_eq!(f.original_title, "");
    assert_eq!(f.runtime, 45);
    assert_eq!(f.director, s("Créatrice"));
    assert_eq!(f.director_tmdbid, Some(99));
    assert_eq!(f.certification, s("FR:12"));
    assert_eq!(f.studios, vec!["Canal+".to_string()]);
    assert_eq!(f.tags, vec!["serie".to_string()]);
    assert_eq!(f.seasons.len(), 1);
    assert_eq!(f.seasons[0].number, 1);
    assert_eq!(f.seasons[0].episode_count, 8);
    assert_eq!(f.seasons[0].air_date, "");
}

#[test]
fn titre_inconnu() {
    let mut d = detail();
    d.title = None;
    assert_eq!(parse_detail(&d, 1, false, 0).title, "Inconnu");
}

#[test]
fn recherche_sans_annee() {
    assert_eq!(requete_recherche("The.Matrix.1999"), "The Matrix");
    assert_eq!(requete_recherche("Blade_Runner (1982)"), "Blade Runner");
    assert_eq!(requete_recherche("1917"), "1917");
    assert_eq!(requete_recherche(" spider-man "), "spider man");
}

#[test]
fn adresses_tmdb() {
    assert_eq!(url_recherche(true), "https://api.themoviedb.org/3/search/tv");
    assert_eq!(
        url_detail(603, false, "K"),
        "https://api.themoviedb.org/3/movie/603?api_key=K&language=fr-FR&append_to_response=credits,external_ids,keywords,videos,release_dates,content_ratings"
    );
    assert_eq!(url_logos(1, Some(2), true, "F"), "https://webservice.fanart.tv/v3/tv/2?api_key=F");
    assert_eq!(url_logos(1, None, true, "F"), "https://webservice.fanart.tv/v3/tv/1?api_key=F");
    assert_eq!(url_logos(1, Some(2), false, "F"), "https://webservice.fanart.tv/v3/movies/1?api_key=F");
}
