use vstd::prelude::*;

pub mod texte;
pub mod chemin;
pub mod pages;
pub mod rename;
pub mod doc;
pub mod doc_texte;
pub mod blocs;
pub mod video;
pub mod binaries;
pub mod logging;
pub mod tools;
pub mod scrap;
pub mod tag;
pub mod conversion;
pub mod reglages;
pub mod nfo;
pub mod pdf;
pub mod mise_en_page;
pub mod tmdb;
pub mod taches;
pub mod audio;
pub mod xml;
pub mod markdown;
pub mod ecriture;
pub mod utils;
pub mod fusion;
pub mod images;
pub mod travail;
pub mod veille;
pub mod fichiers;
pub mod tri;

verus! {
} // verus!
