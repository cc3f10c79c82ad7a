use oxytools::nfo::{xml_nfo_saison, xml_nfo_serie, xml_nfo_video, Fiche};
use oxytools::scrap::{Actor, Producer, Season, Writer};
use std::collections::BTreeSet;

fn fiche(serie: bool) -> Fiche {
    Fiche {
        id: 603,
        title: "Matrix & Co".to_string(),
        original_title: "The Matrix".to_string(),
        overview: "Neo <elu>".to_string(),
        poster_path: Some("/p.jpg".to_string()),
        backdrop_path: None,
        release_date: "1999-03-31".to_string(),
        note_dixiemes: 82,
        vote_count: 25000,
        genres: vec!["Action".to_string(), "Science-Fiction".to_string()],
        studios: vec![],
        actors: vec![Actor {
            name: "Keanu Reeves".to_string(),
            role: "Neo".to_string(),
            thumb: None,
            profile: "https://www.themoviedb.org/person/6384".to_string(),
            id: 6384,
        }],
        director: Some("Lana Wachowski".to_string()),
        director_tmdbid: Some(9340),
        writers: vec![Writer { name: "Lilly".to_string(), tmdbid: -5 }],
        producers: vec![Producer {
            name: "Joel Silver".to_string(),
            role: "Producer".to_string(),
            thumb: Some("t.jpg".to_string()),
            profile: "p".to_string(),
            tmdbid: 1,
        }],
        runtime: 136,
        tagline: "".to_string(),
        imdb_id: Some("tt0133093".to_string()),
        wikidata_id: None,
        tvdb_id: None,
        country: "US".to_string(),
        certification: Some("N/A".to_string()),
        tags: vec![],
        trailer_key: Some("abc".to_string()),
        languages: vec!["English".to_string(), "French".to_string()],
        is_series: serie,
        seasons: vec![
            Season { number: 0, name: "Spéciaux".to_string(), overview: "".to_string(),
                poster_path: Some("/s0.jpg".to_string()), air_date: "".to_string(), episode_count: 2 },
            Season { number: 2, name: "Saison 2".to_string(), overview: "Suite".to_string(),
                poster_path: Some("/s2.jpg".to_string()), air_date: "2001-01-01".to_string(), episode_count: 10 },
        ],
    }
}

#[test]
fn nfo_de_film() {
    let x = xml_nfo_video(&fiche(false), "2024-01-02 03:04:05", "matrix.mkv", "matrix");
    assert!(x.starts_with("<?xml version=\"1.0\" encoding=\"UTF-8\" standalone=\"yes\"?>\n<!--created on 2024-01-02 03:04:05 by oxytools for KODI-->\n<movie>\n"));
    assert!(x.contains("  <title>Matrix &amp; Co</title>\n"));
    assert!(x.contains("  <sorttitle/>\n  <epbookmark/>\n  <year>1999</year>\n"));
    assert!(x.contains("      <value>8.2</value>\n      <votes>25000</votes>\n"));
    assert!(x.contains("  <plot>Neo &lt;elu&gt;</plot>\n"));
    assert!(x.contains("  <tagline></tagline>\n  <runtime>136</runtime>\n"));
    assert!(x.contains("  <thumb aspect=\"poster\">https://image.tmdb.org/t/p/original/p.jpg</thumb>\n  <thumb aspect=\"clearlogo\">matrix_clearlogo.png</thumb>\n"));
    assert!(!x.contains("<fanart>"));
    assert!(!x.contains("<mpaa>"));
    assert!(x.contains("  <id>tt0133093</id>\n  <tmdbid>603</tmdbid>\n  <uniqueid default=\"false\" type=\"tmdb\">603</uniqueid>\n  <uniqueid default=\"true\" type=\"imdb\">tt0133093</uniqueid>\n  <country>US</country>\n"));
    assert!(x.contains("  <genre>Action</genre>\n  <genre>Science-Fiction</genre>\n  <credits tmdbid=\"-5\">Lilly</credits>\n  <director tmdbid=\"9340\">Lana Wachowski</director>\n"));
    assert!(x.contains("  <actor>\n    <name>Keanu Reeves</name>\n    <role>Neo</role>\n    <profile>https://www.themoviedb.org/person/6384</profile>\n    <tmdbid>6384</tmdbid>\n  </actor>\n"));
    assert!(x.contains("  <producer tmdbid=\"1\">\n    <name>Joel Silver</name>\n    <role>Producer</role>\n    <thumb>t.jpg</thumb>\n    <profile>p</profile>\n  </producer>\n"));
    assert!(x.contains("  <trailer>plugin://plugin.video.youtube/play/?video_id=abc</trailer>\n  <languages>English, French</languages>\n  <dateadded>2024-01-02 03:04:05</dateadded>\n"));
    assert!(x.ends_with("  <original_filename>matrix.mkv</original_filename>\n</movie>\n"));
}

#[test]
fn nfo_de_serie() {
    let detectees: BTreeSet<u32> = [0u32, 2].into_iter().collect();
    let x = xml_nfo_serie(&fiche(true), &detectees, "now", "Matrix");
    assert!(x.contains("<tvshow>\n"));
    assert!(!x.contains("<epbookmark/>"));
    assert!(x.contains("  <thumb aspect=\"poster\" type=\"season\" season=\"2\">https://image.tmdb.org/t/p/original/s2.jpg</thumb>\n"));
    assert!(!x.contains("season=\"0\""));
    assert!(x.contains("  <uniqueid default=\"true\" type=\"imdb\">tt0133093</uniqueid>\n  <country>US</country>\n"));
    assert!(x.ends_with("  </fileinfo>\n</tvshow>\n"));
}

#[test]
fn nfo_de_saison() {
    let x = xml_nfo_saison(&fiche(true), 2, "now");
    assert!(x.contains("  <runtime>136</runtime>\n  <thumb aspect=\"poster\" type=\"season\" season=\"2\">https://image.tmdb.org/t/p/original/s2.jpg</thumb>\n  <seasondesc>Suite</seasondesc>\n  <season>2</season>\n  <premiered>2001-01-01</premiered>\n  <episodecount>10</episodecount>\n  <id>tt0133093</id>\n"));
    let y = xml_nfo_saison(&fiche(true), 7, "now");
    assert!(y.contains("  <runtime>136</runtime>\n  <season>7</season>\n  <id>"));
}
