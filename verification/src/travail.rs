use vstd::prelude::*;
use vstd::string::StringExecFns;
use crate::chemin::{jointure, joindre_chemin, nom_de_chemin, nom_fichier, radical, radical_de};
use crate::doc::{detecter_format_entree, detecter_format_sortie, format_entree, format_sortie, FormatEntree, FormatSortie};
use crate::pages::{pages_de_spec, parse_pages_spec};
use crate::pdf::{position_depuis, position_nommee, PositionNumero};
use crate::reglages::ModuleType;
use crate::taches::{chemin_sortie, liste_pages, nombres_liste, sortie_tache};
use crate::texte::{caracteres, chaine, en_majuscules, lecture_u32, lire_u32, morceaux, vers_majuscules};

verus! {

broadcast use vstd::string::group_string_axioms;

/// The settings that decide what a job does with its file.
pub struct ReglagesTache {
    pub module: ModuleType,
    pub format: String,
    pub doc_action: String,
    pub image_action: String,
    pub archive_action: String,
    pub audio_action: String,
    pub jxl_mode: String,
    pub pdf_pages: String,
    pub pdf_nouvel_ordre: String,
    pub pdf_num_position: String,
    pub pdf_sign_position: String,
    pub resize_width: String,
    pub resize_height: String,
    pub resize_max_kb: String,
    pub tailles_ico: Vec<u32>,
}

/// An operation that only needs where to write.
#[derive(Debug, Clone, Copy, PartialEq, Eq, Structural)]
pub enum Operation {
    ArchiveCompresser,
    ArchiveExtraire,
    ArchiveMulti,
    AudioConvertir,
    Video,
    PdfSplit,
    PdfMerge,
    PdfCompresser,
    PdfProteger,
    PdfDeverrouiller,
    PdfReparer,
    DocDefaut,
    ImageCompresser,
    ImageCompresserDefaut,
    ImageRotation,
    ImageRecadrage,
    ImageFiligrane,
    ImageMeme,
    ImageAgrandissement,
    ImageHtml,
}

/// A PDF operation on some pages (all of them when none are given).
#[derive(Debug, Clone, Copy, PartialEq, Eq, Structural)]
pub enum OperationPages {
    Rotation,
    Recadrage,
    Filigrane,
    Annotation,
}

/// How a JPEG XL conversion goes.
#[derive(Debug, Clone, Copy, PartialEq, Eq, Structural)]
pub enum ModeJxl {
    Dossier,
    Pivot,
    SansPerte,
}

/// What a job does with its file.
pub enum Travail {
    /// The file has no folder: the job fails.
    SansDossier,
    /// The module has nothing to do for a file.
    Aucun,
    /// The job fails before anything is run.
    Echec(String),
    Sortie(Operation, String),
    Pages(OperationPages, String, Option<Vec<u32>>),
    PdfNumeroter(String, PositionNumero),
    PdfSigner(String, PositionNumero, Option<Vec<u32>>),
    PdfOrganiser(String, Vec<u32>),
    PdfSupprimer(String, Vec<u32>),
    DocConvertir(String, Option<FormatEntree>, Option<FormatSortie>),
    ArchiveConvertir,
    /// The audio track goes to `<stem>_oxytools.<its extension>` (see
    /// `sortie_extraction_audio`).
    AudioExtraire,
    ImageJxl(ModeJxl),
    /// One icon per size, each with its file.
    ImageIco(Vec<(u32, String)>),
    /// Resized to a temporary PNG, then converted.
    ImageConvertirRedim { temp: String, sortie: String, largeur: u32, hauteur: u32 },
    /// Resized to a temporary file, then brought under a weight.
    ImageRedimPoids { temp: String, sortie: String, largeur: u32, hauteur: u32, ko: u32 },
    ImageRedim { sortie: String, largeur: u32, hauteur: u32 },
    ImagePoids { sortie: String, ko: u32 },
}

pub enum VueTravail {
    SansDossier,
    Aucun,
    Echec(Seq<char>),
    Sortie(Operation, Seq<char>),
    Pages(OperationPages, Seq<char>, Option<Seq<u32>>),
    PdfNumeroter(Seq<char>, PositionNumero),
    PdfSigner(Seq<char>, PositionNumero, Option<Seq<u32>>),
    PdfOrganiser(Seq<char>, Seq<u32>),
    PdfSupprimer(Seq<char>, Seq<u32>),
    DocConvertir(Seq<char>, Option<FormatEntree>, Option<FormatSortie>),
    ArchiveConvertir,
    AudioExtraire,
    ImageJxl(ModeJxl),
    ImageIco(Seq<(u32, Seq<char>)>),
    ImageConvertirRedim(Seq<char>, Seq<char>, u32, u32),
    ImageRedimPoids(Seq<char>, Seq<char>, u32, u32, u32),
    ImageRedim(Seq<char>, u32, u32),
    ImagePoids(Seq<char>, u32),
}

pub open spec fn vue_pages(p: Option<Vec<u32>>) -> Option<Seq<u32>> {
    match p {
        Some(v) => Some(v@),
        None => None,
    }
}

pub open spec fn vue_travail(t: Travail) -> VueTravail {
    match t {
        Travail::SansDossier => VueTravail::SansDossier,
        Travail::Aucun => VueTravail::Aucun,
        Travail::Echec(m) => VueTravail::Echec(m@),
        Travail::Sortie(o, s) => VueTravail::Sortie(o, s@),
        Travail::Pages(o, s, p) => VueTravail::Pages(o, s@, vue_pages(p)),
        Travail::PdfNumeroter(s, p) => VueTravail::PdfNumeroter(s@, p),
        Travail::PdfSigner(s, p, c) => VueTravail::PdfSigner(s@, p, vue_pages(c)),
        Travail::PdfOrganiser(s, o) => VueTravail::PdfOrganiser(s@, o@),
        Travail::PdfSupprimer(s, o) => VueTravail::PdfSupprimer(s@, o@),
        Travail::DocConvertir(s, e, f) => VueTravail::DocConvertir(s@, e, f),
        Travail::ArchiveConvertir => VueTravail::ArchiveConvertir,
        Travail::AudioExtraire => VueTravail::AudioExtraire,
        Travail::ImageJxl(m) => VueTravail::ImageJxl(m),
        Travail::ImageIco(v) => VueTravail::ImageIco(v@.map_values(|p: (u32, String)| (p.0, p.1@))),
        Travail::ImageConvertirRedim { temp, sortie, largeur, hauteur } =>
            VueTravail::ImageConvertirRedim(temp@, sortie@, largeur, hauteur),
        Travail::ImageRedimPoids { temp, sortie, largeur, hauteur, ko } =>
            VueTravail::ImageRedimPoids(temp@, sortie@, largeur, hauteur, ko),
        Travail::ImageRedim { sortie, largeur, hauteur } => VueTravail::ImageRedim(sortie@, largeur, hauteur),
        Travail::ImagePoids { sortie, ko } => VueTravail::ImagePoids(sortie@, ko),
    }
}

/// A number typed in a setting (`parse::<u32>().unwrap_or(0)`).
pub open spec fn nombre_saisi(s: Seq<char>) -> u32 {
    match lecture_u32(s) {
        Some(n) => n,
        None => 0,
    }
}

/// The file of one icon size: `<stem>_<n>x<n>.ico` beside the input.
pub open spec fn fichier_ico(parent: Seq<char>, stem: Seq<char>, n: u32, sep: char) -> Seq<char> {
    jointure(parent, stem + "_"@ + crate::texte::decimal(n as nat) + "x"@ + crate::texte::decimal(n as nat) + ".ico"@, sep)
}

/// What a job of the document module does.
pub open spec fn travail_doc(action: Seq<char>, input: Seq<char>, sortie: Seq<char>, p: Seq<char>, stem: Seq<char>,
    pages: Seq<char>, ordre: Seq<char>, num_position: Seq<char>, sign_position: Seq<char>, sep: char) -> VueTravail
{
    if action == "Convert"@ {
        VueTravail::DocConvertir(sortie, format_entree(input), format_sortie(sortie))
    } else if action == "pdf_split"@ {
        VueTravail::Sortie(Operation::PdfSplit, jointure(p, stem + "_pages"@, sep))
    } else if action == "pdf_merge"@ {
        VueTravail::Sortie(Operation::PdfMerge, jointure(p, "merged_oxytools.pdf"@, sep))
    } else if action == "pdf_rotate"@ {
        VueTravail::Pages(OperationPages::Rotation, sortie, pages_de_spec(pages))
    } else if action == "pdf_compress"@ {
        VueTravail::Sortie(Operation::PdfCompresser, sortie)
    } else if action == "pdf_crop"@ {
        VueTravail::Pages(OperationPages::Recadrage, sortie, pages_de_spec(pages))
    } else if action == "pdf_organize"@ {
        let o = nombres_liste(morceaux(ordre, ','));
        if o.len() == 0 { VueTravail::Echec("pdf_organize: ordre vide ou invalide"@) } else { VueTravail::PdfOrganiser(sortie, o) }
    } else if action == "pdf_delete_pages"@ {
        let o = nombres_liste(morceaux(pages, ','));
        if o.len() == 0 {
            VueTravail::Echec("pdf_delete_pages: liste de pages vide ou invalide"@)
        } else {
            VueTravail::PdfSupprimer(sortie, o)
        }
    } else if action == "pdf_numbers"@ {
        VueTravail::PdfNumeroter(sortie, position_nommee(num_position, PositionNumero::BasCentre))
    } else if action == "pdf_protect"@ {
        VueTravail::Sortie(Operation::PdfProteger, sortie)
    } else if action == "pdf_unlock"@ {
        VueTravail::Sortie(Operation::PdfDeverrouiller, sortie)
    } else if action == "pdf_repair"@ {
        VueTravail::Sortie(Operation::PdfReparer, sortie)
    } else if action == "pdf_watermark"@ {
        VueTravail::Pages(OperationPages::Filigrane, sortie, pages_de_spec(pages))
    } else if action == "pdf_annotate"@ {
        VueTravail::Pages(OperationPages::Annotation, sortie, pages_de_spec(pages))
    } else if action == "pdf_sign"@ {
        VueTravail::PdfSigner(sortie, position_nommee(sign_position, PositionNumero::BasDroite), pages_de_spec(pages))
    } else {
        VueTravail::Sortie(Operation::DocDefaut, sortie)
    }
}

/// What a job of the image module does.
pub open spec fn travail_image(action: Seq<char>, fmt: Seq<char>, jxl: Seq<char>, sortie: Seq<char>, p: Seq<char>,
    stem: Seq<char>, l: u32, h: u32, ko: u32, tailles: Seq<u32>, sep: char) -> VueTravail
{
    if action == "Convert"@ {
        if en_majuscules(fmt) == "JXL"@ {
            VueTravail::ImageJxl(if jxl == "folder"@ { ModeJxl::Dossier } else if jxl == "pivot"@ { ModeJxl::Pivot } else { ModeJxl::SansPerte })
        } else if en_majuscules(fmt) == "ICO"@ {
            VueTravail::ImageIco(tailles.map_values(|n: u32| (n, fichier_ico(p, stem, n, sep))))
        } else if l > 0 && h > 0 {
            VueTravail::ImageConvertirRedim(sortie + "_temp_cvt.png"@, sortie, l, h)
        } else {
            VueTravail::Sortie(Operation::ImageCompresser, sortie)
        }
    } else if action == "resize"@ {
        if l > 0 && h > 0 {
            if ko > 0 {
                VueTravail::ImageRedimPoids(sortie + "_temp."@ + fmt, sortie, l, h, ko)
            } else {
                VueTravail::ImageRedim(sortie, l, h)
            }
        } else if ko > 0 {
            VueTravail::ImagePoids(sortie, ko)
        } else {
            VueTravail::Sortie(Operation::ImageCompresserDefaut, sortie)
        }
    } else if action == "rotate"@ {
        VueTravail::Sortie(Operation::ImageRotation, sortie)
    } else if action == "crop"@ {
        VueTravail::Sortie(Operation::ImageRecadrage, sortie)
    } else if action == "watermark"@ {
        VueTravail::Sortie(Operation::ImageFiligrane, sortie)
    } else if action == "meme"@ {
        VueTravail::Sortie(Operation::ImageMeme, sortie)
    } else if action == "upscale"@ {
        VueTravail::Sortie(Operation::ImageAgrandissement, sortie)
    } else if action == "html_to_image"@ {
        VueTravail::Sortie(Operation::ImageHtml, jointure(p, stem + "_oxytools.png"@, sep))
    } else {
        VueTravail::Sortie(Operation::ImageCompresser, sortie)
    }
}

/// What a job does with its file (the dispatch of `spawn_worker`): nothing
/// without a folder to write in; else, by module and action, the operation
/// and where it writes (beside the input, `<stem>_oxytools.<ext>` unless
/// the operation names another file).
pub open spec fn travail_spec(r: ReglagesTache, input: Seq<char>, parent: Option<Seq<char>>, sep: char) -> VueTravail {
    match sortie_tache(parent, input, r.module, r.doc_action@, r.format@, sep) {
        None => VueTravail::SansDossier,
        Some(sortie) => {
            let p = parent->0;
            let stem = radical(nom_fichier(input));
            match r.module {
                ModuleType::Archive =>
                    if r.archive_action@ == "extract"@ {
                        VueTravail::Sortie(Operation::ArchiveExtraire, jointure(p, stem, sep))
                    } else if r.archive_action@ == "convert"@ {
                        VueTravail::ArchiveConvertir
                    } else if r.archive_action@ == "multi"@ {
                        VueTravail::Sortie(Operation::ArchiveMulti, jointure(p, nom_fichier(input) + "."@ + r.format@, sep))
                    } else {
                        VueTravail::Sortie(Operation::ArchiveCompresser, sortie)
                    },
                ModuleType::Audio =>
                    if r.audio_action@ == "extract"@ { VueTravail::AudioExtraire } else { VueTravail::Sortie(Operation::AudioConvertir, sortie) },
                ModuleType::Video => VueTravail::Sortie(Operation::Video, sortie),
                ModuleType::Doc => travail_doc(r.doc_action@, input, sortie, p, stem, r.pdf_pages@, r.pdf_nouvel_ordre@,
                    r.pdf_num_position@, r.pdf_sign_position@, sep),
                ModuleType::Image => travail_image(r.image_action@, r.format@, r.jxl_mode@, sortie, p, stem,
                    nombre_saisi(r.resize_width@), nombre_saisi(r.resize_height@), nombre_saisi(r.resize_max_kb@),
                    r.tailles_ico@, sep),
                _ => VueTravail::Aucun,
            }
        },
    }
}

fn est(a: &String, b: &str) -> (r: bool)
    ensures
        r == (a@ == b@),
{
    let bb = String::from_str(b);
    *a == bb
}

fn nombre_de(s: &String) -> (r: u32)
    ensures
        r == nombre_saisi(s@),
{
    match lire_u32(&caracteres(s.as_str())) {
        Some(n) => n,
        None => 0,
    }
}

fn colle(a: &str, b: &str) -> (r: String)
    ensures
        r@ == a@ + b@,
{
    let mut r = String::from_str(a);
    r.append(b);
    r
}

fn pages_choisies(s: &String) -> (r: Option<Vec<u32>>)
    ensures
        vue_pages(r) == pages_de_spec(s@),
{
    parse_pages_spec(s.as_str())
}

fn travail_doc_de(r: &ReglagesTache, input: &str, sortie: String, p: &str, stem: &String, sep: char) -> (t: Travail)
    ensures
        vue_travail(t) == travail_doc(r.doc_action@, input@, sortie@, p@, stem@, r.pdf_pages@, r.pdf_nouvel_ordre@,
            r.pdf_num_position@, r.pdf_sign_position@, sep),
{
    let a = &r.doc_action;
    if est(a, "Convert") {
        let fe = detecter_format_entree(input);
        let fs = detecter_format_sortie(sortie.as_str());
        Travail::DocConvertir(sortie, fe, fs)
    } else if est(a, "pdf_split") {
        Travail::Sortie(Operation::PdfSplit, joindre_chemin(p, colle(stem.as_str(), "_pages").as_str(), sep))
    } else if est(a, "pdf_merge") {
        Travail::Sortie(Operation::PdfMerge, joindre_chemin(p, "merged_oxytools.pdf", sep))
    } else if est(a, "pdf_rotate") {
        Travail::Pages(OperationPages::Rotation, sortie, pages_choisies(&r.pdf_pages))
    } else if est(a, "pdf_compress") {
        Travail::Sortie(Operation::PdfCompresser, sortie)
    } else if est(a, "pdf_crop") {
        Travail::Pages(OperationPages::Recadrage, sortie, pages_choisies(&r.pdf_pages))
    } else if est(a, "pdf_organize") {
        let o = liste_pages(r.pdf_nouvel_ordre.as_str());
        if o.len() == 0 { Travail::Echec(String::from_str("pdf_organize: ordre vide ou invalide")) } else { Travail::PdfOrganiser(sortie, o) }
    } else if est(a, "pdf_delete_pages") {
        let o = liste_pages(r.pdf_pages.as_str());
        if o.len() == 0 {
            Travail::Echec(String::from_str("pdf_delete_pages: liste de pages vide ou invalide"))
        } else {
            Travail::PdfSupprimer(sortie, o)
        }
    } else if est(a, "pdf_numbers") {
        Travail::PdfNumeroter(sortie, position_depuis(r.pdf_num_position.as_str(), PositionNumero::BasCentre))
    } else if est(a, "pdf_protect") {
        Travail::Sortie(Operation::PdfProteger, sortie)
    } else if est(a, "pdf_unlock") {
        Travail::Sortie(Operation::PdfDeverrouiller, sortie)
    } else if est(a, "pdf_repair") {
        Travail::Sortie(Operation::PdfReparer, sortie)
    } else if est(a, "pdf_watermark") {
        Travail::Pages(OperationPages::Filigrane, sortie, pages_choisies(&r.pdf_pages))
    } else if est(a, "pdf_annotate") {
        Travail::Pages(OperationPages::Annotation, sortie, pages_choisies(&r.pdf_pages))
    } else if est(a, "pdf_sign") {
        Travail::PdfSigner(sortie, position_depuis(r.pdf_sign_position.as_str(), PositionNumero::BasDroite),
            pages_choisies(&r.pdf_pages))
    } else {
        Travail::Sortie(Operation::DocDefaut, sortie)
    }
}

fn fichiers_ico(p: &str, stem: &String, tailles: &Vec<u32>, sep: char) -> (r: Vec<(u32, String)>)
    ensures
        r@.map_values(|q: (u32, String)| (q.0, q.1@)) == tailles@.map_values(|n: u32| (n, fichier_ico(p@, stem@, n, sep))),
{
    let mut r: Vec<(u32, String)> = Vec::new();
    let mut i: usize = 0;
    while i < tailles.len()
        invariant
            i <= tailles.len(),
            r@.map_values(|q: (u32, String)| (q.0, q.1@))
                == tailles@.take(i as int).map_values(|n: u32| (n, fichier_ico(p@, stem@, n, sep))),
        decreases tailles.len() - i,
    {
        let n = tailles[i];
        let d = chaine(&crate::texte::ecrire_decimal(n as u128));
        let mut nom = colle(stem.as_str(), "_");
        nom.append(d.as_str());
        nom.append("x");
        nom.append(d.as_str());
        nom.append(".ico");
        let f = joindre_chemin(p, nom.as_str(), sep);
        let ghost avant = r@.map_values(|q: (u32, String)| (q.0, q.1@));
        r.push((n, f));
        assert(r@.map_values(|q: (u32, String)| (q.0, q.1@)) =~= avant.push((n, fichier_ico(p@, stem@, n, sep))));
        assert(tailles@.take(i + 1).map_values(|n: u32| (n, fichier_ico(p@, stem@, n, sep)))
            =~= tailles@.take(i as int).map_values(|n: u32| (n, fichier_ico(p@, stem@, n, sep)))
                .push((n, fichier_ico(p@, stem@, n, sep))));
        i += 1;
    }
    assert(tailles@.take(tailles.len() as int) =~= tailles@);
    r
}

fn travail_image_de(r: &ReglagesTache, sortie: String, p: &str, stem: &String, sep: char) -> (t: Travail)
    ensures
        vue_travail(t) == travail_image(r.image_action@, r.format@, r.jxl_mode@, sortie@, p@, stem@,
            nombre_saisi(r.resize_width@), nombre_saisi(r.resize_height@), nombre_saisi(r.resize_max_kb@),
            r.tailles_ico@, sep),
{
    let a = &r.image_action;
    let l = nombre_de(&r.resize_width);
    let h = nombre_de(&r.resize_height);
    let ko = nombre_de(&r.resize_max_kb);
    if est(a, "Convert") {
        let fmt = chaine(&vers_majuscules(&caracteres(r.format.as_str())));
        if est(&fmt, "JXL") {
            let m = if est(&r.jxl_mode, "folder") { ModeJxl::Dossier } else if est(&r.jxl_mode, "pivot") { ModeJxl::Pivot } else { ModeJxl::SansPerte };
            Travail::ImageJxl(m)
        } else if est(&fmt, "ICO") {
            Travail::ImageIco(fichiers_ico(p, stem, &r.tailles_ico, sep))
        } else if l > 0 && h > 0 {
            let temp = colle(sortie.as_str(), "_temp_cvt.png");
            Travail::ImageConvertirRedim { temp, sortie, largeur: l, hauteur: h }
        } else {
            Travail::Sortie(Operation::ImageCompresser, sortie)
        }
    } else if est(a, "resize") {
        if l > 0 && h > 0 {
            if ko > 0 {
                let mut temp = colle(sortie.as_str(), "_temp.");
                temp.append(r.format.as_str());
                Travail::ImageRedimPoids { temp, sortie, largeur: l, hauteur: h, ko }
            } else {
                Travail::ImageRedim { sortie, largeur: l, hauteur: h }
            }
        } else if ko > 0 {
            Travail::ImagePoids { sortie, ko }
        } else {
            Travail::Sortie(Operation::ImageCompresserDefaut, sortie)
        }
    } else if est(a, "rotate") {
        Travail::Sortie(Operation::ImageRotation, sortie)
    } else if est(a, "crop") {
        Travail::Sortie(Operation::ImageRecadrage, sortie)
    } else if est(a, "watermark") {
        Travail::Sortie(Operation::ImageFiligrane, sortie)
    } else if est(a, "meme") {
        Travail::Sortie(Operation::ImageMeme, sortie)
    } else if est(a, "upscale") {
        Travail::Sortie(Operation::ImageAgrandissement, sortie)
    } else if est(a, "html_to_image") {
        Travail::Sortie(Operation::ImageHtml, joindre_chemin(p, colle(stem.as_str(), "_oxytools.png").as_str(), sep))
    } else {
        Travail::Sortie(Operation::ImageCompresser, sortie)
    }
}

/// What a job does with its file (`spawn_worker`): see `travail_spec`.
/// `parent` is the input's folder as `Path::parent` gives it, `sep` the
/// platform's path separator.
pub fn travail(r: &ReglagesTache, input: &str, parent: Option<&str>, sep: char) -> (t: Travail)
    ensures
        vue_travail(t) == travail_spec(*r, input@, match parent { Some(p) => Some(p@), None => None }, sep),
{
    let sortie = match chemin_sortie(input, parent, r.module, r.doc_action.as_str(), r.format.as_str(), sep) {
        Some(s) => s,
        None => return Travail::SansDossier,
    };
    let p = match parent {
        Some(p) => p,
        None => return Travail::SansDossier,
    };
    let stem = chaine(&radical_de(input));
    match r.module {
        ModuleType::Archive => {
            if est(&r.archive_action, "extract") {
                Travail::Sortie(Operation::ArchiveExtraire, joindre_chemin(p, stem.as_str(), sep))
            } else if est(&r.archive_action, "convert") {
                Travail::ArchiveConvertir
            } else if est(&r.archive_action, "multi") {
                let mut nom = chaine(&nom_de_chemin(&caracteres(input)));
                nom.append(".");
                nom.append(r.format.as_str());
                Travail::Sortie(Operation::ArchiveMulti, joindre_chemin(p, nom.as_str(), sep))
            } else {
                Travail::Sortie(Operation::ArchiveCompresser, sortie)
            }
        },
        ModuleType::Audio => {
            if est(&r.audio_action, "extract") { Travail::AudioExtraire } else { Travail::Sortie(Operation::AudioConvertir, sortie) }
        },
        ModuleType::Video => Travail::Sortie(Operation::Video, sortie),
        ModuleType::Doc => travail_doc_de(r, input, sortie, p, &stem, sep),
        ModuleType::Image => travail_image_de(r, sortie, p, &stem, sep),
        _ => Travail::Aucun,
    }
}

/// Where an extracted audio track goes: `<stem>_oxytools.<ext>` beside the
/// input, `mka` when ffprobe gave no extension.
pub fn sortie_extraction_audio(parent: &str, input: &str, ext: &str, sep: char) -> (r: String)
    ensures
        r@ == jointure(parent@, radical(nom_fichier(input@)) + "_oxytools."@ + (if ext@.len() == 0 { "mka"@ } else { ext@ }), sep),
{
    let mut nom = chaine(&radical_de(input));
    nom.append("_oxytools.");
    if ext.unicode_len() == 0 { nom.append("mka"); } else { nom.append(ext); }
    joindre_chemin(parent, nom.as_str(), sep)
}

} // verus!
