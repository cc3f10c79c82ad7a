use vstd::prelude::*;

verus! {

broadcast use vstd::string::group_string_axioms;

/// The modules of the application.
#[derive(Debug, Clone, Copy, PartialEq, Eq, Structural)]
pub enum ModuleType {
    Image,
    Doc,
    Rename,
    Video,
    Audio,
    Archive,
    Scrapper,
    Tag,
    Settings,
}

/// A value of the configuration file, as far as the settings read it.
#[derive(Debug, Clone)]
pub enum ValeurToml {
    Texte(String),
    Entier(i64),
    Booleen(bool),
    /// An array: its items that are strings, `None` for the others.
    Liste(Vec<Option<String>>),
    /// Any other value (float, date, table).
    Autre,
}

/// A `key = value` line of a section.
#[derive(Debug, Clone)]
pub struct EntreeToml {
    pub cle: String,
    pub valeur: ValeurToml,
}

/// A top-level entry of the configuration file: a section (`[nom]`) with its
/// entries, or, when `table` is `None`, a key that holds a plain value.
#[derive(Debug, Clone)]
pub struct SectionToml {
    pub nom: String,
    pub table: Option<Vec<EntreeToml>>,
}

/// A change to make to the configuration file.
#[derive(Debug, Clone)]
pub enum Modification {
    /// Make the section if it is missing.
    Creer(String),
    /// Set a key of a section, making the section if it is missing; nothing
    /// happens where the name holds a plain value.
    Inserer(String, String, ValeurToml),
    /// Remove a key from a section, if both are there.
    Retirer(String, String),
    /// Put a section with these entries in place of whatever the name held.
    Remplacer(String, Vec<EntreeToml>),
}

/// What a value is.
pub enum VueValeur {
    Texte(Seq<char>),
    Entier(i64),
    Booleen(bool),
    Liste(Seq<Option<Seq<char>>>),
    Autre,
}

/// What a change is.
pub enum VueModif {
    Creer(Seq<char>),
    Inserer(Seq<char>, Seq<char>, VueValeur),
    Retirer(Seq<char>, Seq<char>),
    Remplacer(Seq<char>, Map<Seq<char>, VueValeur>),
}

pub open spec fn vue_items(v: Seq<Option<String>>) -> Seq<Option<Seq<char>>> {
    v.map_values(|o: Option<String>| match o { Some(s) => Some(s@), None => None })
}

pub open spec fn vue_valeur(v: ValeurToml) -> VueValeur {
    match v {
        ValeurToml::Texte(s) => VueValeur::Texte(s@),
        ValeurToml::Entier(i) => VueValeur::Entier(i),
        ValeurToml::Booleen(b) => VueValeur::Booleen(b),
        ValeurToml::Liste(l) => VueValeur::Liste(vue_items(l@)),
        ValeurToml::Autre => VueValeur::Autre,
    }
}

pub open spec fn vue_modif(m: Modification) -> VueModif {
    match m {
        Modification::Creer(s) => VueModif::Creer(s@),
        Modification::Inserer(s, k, v) => VueModif::Inserer(s@, k@, vue_valeur(v)),
        Modification::Retirer(s, k) => VueModif::Retirer(s@, k@),
        Modification::Remplacer(s, t) => VueModif::Remplacer(s@, table_map(t@)),
    }
}

pub open spec fn vues_modifs(ms: Seq<Modification>) -> Seq<VueModif> {
    ms.map_values(|m: Modification| vue_modif(m))
}

/// A section's entries as a map; a later line wins over an earlier one.
pub open spec fn table_map(t: Seq<EntreeToml>) -> Map<Seq<char>, VueValeur>
    decreases t.len(),
{
    if t.len() == 0 {
        Map::empty()
    } else {
        table_map(t.drop_last()).insert(t.last().cle@, vue_valeur(t.last().valeur))
    }
}

pub open spec fn vue_table(t: Option<Vec<EntreeToml>>) -> Option<Map<Seq<char>, VueValeur>> {
    match t {
        Some(v) => Some(table_map(v@)),
        None => None,
    }
}

/// The configuration file as a map from names to sections (`None` for a
/// name that holds a plain value).
pub open spec fn doc_map(d: Seq<SectionToml>) -> Map<Seq<char>, Option<Map<Seq<char>, VueValeur>>>
    decreases d.len(),
{
    if d.len() == 0 {
        Map::empty()
    } else {
        doc_map(d.drop_last()).insert(d.last().nom@, vue_table(d.last().table))
    }
}

/// The value of a key of a section.
pub open spec fn cherche(d: Map<Seq<char>, Option<Map<Seq<char>, VueValeur>>>, s: Seq<char>, k: Seq<char>) -> Option<VueValeur> {
    if d.contains_key(s) {
        match d[s] {
            Some(t) => if t.contains_key(k) { Some(t[k]) } else { None },
            None => None,
        }
    } else {
        None
    }
}

pub open spec fn texte_cfg(d: Map<Seq<char>, Option<Map<Seq<char>, VueValeur>>>, s: Seq<char>, k: Seq<char>) -> Option<Seq<char>> {
    match cherche(d, s, k) {
        Some(VueValeur::Texte(t)) => Some(t),
        _ => None,
    }
}

pub open spec fn entier_cfg(d: Map<Seq<char>, Option<Map<Seq<char>, VueValeur>>>, s: Seq<char>, k: Seq<char>) -> Option<i64> {
    match cherche(d, s, k) {
        Some(VueValeur::Entier(i)) => Some(i),
        _ => None,
    }
}

pub open spec fn booleen_cfg(d: Map<Seq<char>, Option<Map<Seq<char>, VueValeur>>>, s: Seq<char>, k: Seq<char>) -> Option<bool> {
    match cherche(d, s, k) {
        Some(VueValeur::Booleen(b)) => Some(b),
        _ => None,
    }
}

/// One change applied to the file.
pub open spec fn applique_une(d: Map<Seq<char>, Option<Map<Seq<char>, VueValeur>>>, m: VueModif) -> Map<Seq<char>, Option<Map<Seq<char>, VueValeur>>> {
    match m {
        VueModif::Creer(s) => if d.contains_key(s) { d } else { d.insert(s, Some(Map::empty())) },
        VueModif::Inserer(s, k, v) =>
            if !d.contains_key(s) {
                d.insert(s, Some(Map::empty().insert(k, v)))
            } else {
                match d[s] {
                    Some(t) => d.insert(s, Some(t.insert(k, v))),
                    None => d,
                }
            },
        VueModif::Retirer(s, k) =>
            if d.contains_key(s) {
                match d[s] {
                    Some(t) => d.insert(s, Some(t.remove(k))),
                    None => d,
                }
            } else {
                d
            },
        VueModif::Remplacer(s, t) => d.insert(s, Some(t)),
    }
}

/// The changes applied in order.
pub open spec fn applique(d: Map<Seq<char>, Option<Map<Seq<char>, VueValeur>>>, ms: Seq<VueModif>) -> Map<Seq<char>, Option<Map<Seq<char>, VueValeur>>>
    decreases ms.len(),
{
    if ms.len() == 0 {
        d
    } else {
        applique_une(applique(d, ms.drop_last()), ms.last())
    }
}

/// The settings that the configuration file keeps.
pub struct Reglages {
    pub module_actif: ModuleType,
    pub format_choisi: String,
    pub current_theme: String,
    pub max_parallel_jobs: usize,
    pub lang_id: String,
    pub ratio_img: u32,
    pub archive_niveau: u32,
    pub archive_backup_source: String,
    pub archive_backup_dest: String,
    pub archive_backup_exclusions: String,
    pub archive_multi_source: String,
    pub audio_qualite: u32,
    pub copie_flux: bool,
    pub video_speed: u32,
    pub keys_env_path: Option<String>,
    pub rename_last_list_path: Option<String>,
    pub custom_config_dir: Option<String>,
    pub save_doc_format: bool,
    pub save_image_format: bool,
    pub save_archive_format: bool,
    pub save_audio_format: bool,
    pub save_video_format: bool,
}

/// What the settings are.
pub struct VueReglages {
    pub module_actif: ModuleType,
    pub format_choisi: Seq<char>,
    pub current_theme: Seq<char>,
    pub max_parallel_jobs: usize,
    pub lang_id: Seq<char>,
    pub ratio_img: u32,
    pub archive_niveau: u32,
    pub archive_backup_source: Seq<char>,
    pub archive_backup_dest: Seq<char>,
    pub archive_backup_exclusions: Seq<char>,
    pub archive_multi_source: Seq<char>,
    pub audio_qualite: u32,
    pub copie_flux: bool,
    pub video_speed: u32,
    pub keys_env_path: Option<Seq<char>>,
    pub rename_last_list_path: Option<Seq<char>>,
    pub custom_config_dir: Option<Seq<char>>,
    pub save_doc_format: bool,
    pub save_image_format: bool,
    pub save_archive_format: bool,
    pub save_audio_format: bool,
    pub save_video_format: bool,
}

pub open spec fn vue_option(o: Option<String>) -> Option<Seq<char>> {
    match o {
        Some(s) => Some(s@),
        None => None,
    }
}

impl View for Reglages {
    type V = VueReglages;

    open spec fn view(&self) -> VueReglages {
        VueReglages {
            module_actif: self.module_actif,
            format_choisi: self.format_choisi@,
            current_theme: self.current_theme@,
            max_parallel_jobs: self.max_parallel_jobs,
            lang_id: self.lang_id@,
            ratio_img: self.ratio_img,
            archive_niveau: self.archive_niveau,
            archive_backup_source: self.archive_backup_source@,
            archive_backup_dest: self.archive_backup_dest@,
            archive_backup_exclusions: self.archive_backup_exclusions@,
            archive_multi_source: self.archive_multi_source@,
            audio_qualite: self.audio_qualite,
            copie_flux: self.copie_flux,
            video_speed: self.video_speed,
            keys_env_path: vue_option(self.keys_env_path),
            rename_last_list_path: vue_option(self.rename_last_list_path),
            custom_config_dir: vue_option(self.custom_config_dir),
            save_doc_format: self.save_doc_format,
            save_image_format: self.save_image_format,
            save_archive_format: self.save_archive_format,
            save_audio_format: self.save_audio_format,
            save_video_format: self.save_video_format,
        }
    }
}

/// The section that keeps the output format of a module, if it has one.
pub open spec fn section_format(m: ModuleType) -> Option<Seq<char>> {
    match m {
        ModuleType::Doc => Some("doc"@),
        ModuleType::Image => Some("image"@),
        ModuleType::Archive => Some("archive"@),
        ModuleType::Audio => Some("audio"@),
        ModuleType::Video => Some("video"@),
        _ => None,
    }
}

/// Whether the format of the active module is to be kept in the file.
pub open spec fn garde_format(v: VueReglages) -> bool {
    match v.module_actif {
        ModuleType::Doc => v.save_doc_format,
        ModuleType::Image => v.save_image_format,
        ModuleType::Archive => v.save_archive_format,
        ModuleType::Audio => v.save_audio_format,
        ModuleType::Video => v.save_video_format,
        _ => false,
    }
}

pub open spec fn ou(o: Option<Seq<char>>, defaut: Seq<char>) -> Seq<char> {
    match o {
        Some(t) => t,
        None => defaut,
    }
}

/// The settings read from the configuration file: each key that is there
/// with a value of the right type replaces the setting; the chosen format is
/// first cleared for the modules that have one, then taken from that
/// module's section.
pub open spec fn charge(a: VueReglages, d: Map<Seq<char>, Option<Map<Seq<char>, VueValeur>>>) -> VueReglages {
    VueReglages {
        format_choisi: match section_format(a.module_actif) {
            Some(s) => ou(texte_cfg(d, s, "format"@), Seq::empty()),
            None => a.format_choisi,
        },
        current_theme: ou(texte_cfg(d, "display"@, "theme"@), a.current_theme),
        max_parallel_jobs: match entier_cfg(d, "performance"@, "max_parallel_jobs"@) {
            Some(i) => i as usize,
            None => a.max_parallel_jobs,
        },
        lang_id: match texte_cfg(d, "app"@, "lang"@) {
            Some(l) => if l == "fr"@ { "fr"@ } else { "en"@ },
            None => a.lang_id,
        },
        ratio_img: match entier_cfg(d, "image"@, "ratio_img"@) {
            Some(i) => i as u32,
            None => a.ratio_img,
        },
        archive_niveau: match entier_cfg(d, "archive"@, "niveau"@) {
            Some(i) => i as u32,
            None => a.archive_niveau,
        },
        archive_backup_source: ou(texte_cfg(d, "archive"@, "backup_source"@), a.archive_backup_source),
        archive_backup_dest: ou(texte_cfg(d, "archive"@, "backup_dest"@), a.archive_backup_dest),
        archive_backup_exclusions: ou(texte_cfg(d, "archive"@, "backup_exclusions"@), a.archive_backup_exclusions),
        archive_multi_source: ou(texte_cfg(d, "archive"@, "multi_source"@), a.archive_multi_source),
        audio_qualite: match entier_cfg(d, "audio"@, "qualite"@) {
            Some(i) => i as u32,
            None => a.audio_qualite,
        },
        copie_flux: match booleen_cfg(d, "video"@, "copie_flux"@) {
            Some(b) => b,
            None => a.copie_flux,
        },
        video_speed: match entier_cfg(d, "video"@, "speed"@) {
            Some(i) => i as u32,
            None => a.video_speed,
        },
        keys_env_path: match texte_cfg(d, "scrapper"@, "keys_path"@) {
            Some(p) => Some(p),
            None => a.keys_env_path,
        },
        rename_last_list_path: match texte_cfg(d, "rename"@, "last_list_path"@) {
            Some(p) => Some(p),
            None => a.rename_last_list_path,
        },
        ..a
    }
}

pub open spec fn ins(s: Seq<char>, k: Seq<char>, v: VueValeur) -> VueModif {
    VueModif::Inserer(s, k, v)
}

/// The changes that keep the output format of a module: set when it is to
/// be kept and not empty, removed when it is not to be kept.
pub open spec fn modifs_format(v: VueReglages, m: ModuleType, garde: bool, s: Seq<char>) -> Seq<VueModif> {
    if garde && v.format_choisi.len() > 0 && v.module_actif == m {
        seq![ins(s, "format"@, VueValeur::Texte(v.format_choisi))]
    } else if !garde && v.module_actif == m {
        seq![VueModif::Retirer(s, "format"@)]
    } else {
        Seq::empty()
    }
}

/// The changes that keep the settings of the active module.
pub open spec fn modifs_module(v: VueReglages) -> Seq<VueModif> {
    let image = modifs_format(v, ModuleType::Image, v.save_image_format, "image"@)
        + if v.save_image_format && v.format_choisi.len() > 0 && v.module_actif == ModuleType::Image {
            seq![ins("image"@, "ratio_img"@, VueValeur::Entier(v.ratio_img as i64))]
        } else {
            Seq::empty()
        }
        + if v.module_actif == ModuleType::Image {
            seq![ins("image"@, "ratio_img"@, VueValeur::Entier(v.ratio_img as i64))]
        } else {
            Seq::empty()
        };
    let archive = modifs_format(v, ModuleType::Archive, v.save_archive_format, "archive"@)
        + if v.module_actif == ModuleType::Archive {
            seq![
                ins("archive"@, "niveau"@, VueValeur::Entier(v.archive_niveau as i64)),
                ins("archive"@, "backup_source"@, VueValeur::Texte(v.archive_backup_source)),
                ins("archive"@, "backup_dest"@, VueValeur::Texte(v.archive_backup_dest)),
                ins("archive"@, "backup_exclusions"@, VueValeur::Texte(v.archive_backup_exclusions)),
                ins("archive"@, "multi_source"@, VueValeur::Texte(v.archive_multi_source)),
            ]
        } else {
            Seq::empty()
        };
    let audio = modifs_format(v, ModuleType::Audio, v.save_audio_format, "audio"@)
        + if v.module_actif == ModuleType::Audio {
            seq![ins("audio"@, "qualite"@, VueValeur::Entier(v.audio_qualite as i64))]
        } else {
            Seq::empty()
        };
    let video = modifs_format(v, ModuleType::Video, v.save_video_format, "video"@)
        + if v.module_actif == ModuleType::Video {
            seq![
                ins("video"@, "copie_flux"@, VueValeur::Booleen(v.copie_flux)),
                ins("video"@, "speed"@, VueValeur::Entier(v.video_speed as i64)),
            ]
        } else {
            Seq::empty()
        };
    modifs_format(v, ModuleType::Doc, v.save_doc_format, "doc"@) + image + archive + audio + video
}

/// The changes that saving the settings makes to the configuration file.
pub open spec fn modifs_sauvegarde(v: VueReglages) -> Seq<VueModif> {
    seq![
        ins("display"@, "theme"@, VueValeur::Texte(v.current_theme)),
        ins("performance"@, "max_parallel_jobs"@, VueValeur::Entier(v.max_parallel_jobs as i64)),
        ins("app"@, "lang"@, VueValeur::Texte(v.lang_id)),
        VueModif::Creer("scrapper"@),
        match v.keys_env_path {
            Some(p) => ins("scrapper"@, "keys_path"@, VueValeur::Texte(p)),
            None => VueModif::Retirer("scrapper"@, "keys_path"@),
        },
    ] + modifs_module(v) + seq![
        VueModif::Creer("rename"@),
        match v.rename_last_list_path {
            Some(p) => ins("rename"@, "last_list_path"@, VueValeur::Texte(p)),
            None => VueModif::Retirer("rename"@, "last_list_path"@),
        },
    ]
}

// ───────────────────────── reading the file ─────────────────────────

proof fn lemma_table_map(t: Seq<EntreeToml>, k: Seq<char>, i: int)
    requires
        -1 <= i < t.len(),
        forall|j: int| i < j < t.len() ==> #[trigger] t[j].cle@ != k,
        i >= 0 ==> t[i].cle@ == k,
    ensures
        i >= 0 ==> table_map(t).contains_key(k) && table_map(t)[k] == vue_valeur(t[i].valeur),
        i < 0 ==> !table_map(t).contains_key(k),
    decreases t.len(),
{
    if t.len() > 0 && i < t.len() - 1 {
        let u = t.drop_last();
        assert forall|j: int| i < j < u.len() implies #[trigger] u[j].cle@ != k by {
            assert(u[j] == t[j]);
        }
        if i >= 0 {
            assert(u[i] == t[i]);
        }
        lemma_table_map(u, k, i);
    }
}

proof fn lemma_doc_map(d: Seq<SectionToml>, s: Seq<char>, i: int)
    requires
        -1 <= i < d.len(),
        forall|j: int| i < j < d.len() ==> #[trigger] d[j].nom@ != s,
        i >= 0 ==> d[i].nom@ == s,
    ensures
        i >= 0 ==> doc_map(d).contains_key(s) && doc_map(d)[s] == vue_table(d[i].table),
        i < 0 ==> !doc_map(d).contains_key(s),
    decreases d.len(),
{
    if d.len() > 0 && i < d.len() - 1 {
        let u = d.drop_last();
        assert forall|j: int| i < j < u.len() implies #[trigger] u[j].nom@ != s by {
            assert(u[j] == d[j]);
        }
        if i >= 0 {
            assert(u[i] == d[i]);
        }
        lemma_doc_map(u, s, i);
    }
}

fn meme(a: &String, b: &str) -> (r: bool)
    ensures
        r == (a@ == b@),
{
    let bb = String::from_str(b);
    *a == bb
}

/// The value of a key of a section of the file.
pub fn chercher<'a>(doc: &'a Vec<SectionToml>, s: &str, k: &str) -> (r: Option<&'a ValeurToml>)
    ensures
        match r {
            Some(v) => cherche(doc_map(doc@), s@, k@) == Some(vue_valeur(*v)),
            None => cherche(doc_map(doc@), s@, k@) is None,
        },
{
    let mut i = doc.len();
    while i > 0
        invariant
            i <= doc.len(),
            forall|j: int| i <= j < doc.len() ==> #[trigger] doc@[j].nom@ != s@,
        ensures
            i <= doc.len(),
            forall|j: int| i <= j < doc.len() ==> #[trigger] doc@[j].nom@ != s@,
            i > 0 ==> doc@[i - 1].nom@ == s@,
        decreases i,
    {
        if meme(&doc[i - 1].nom, s) {
            break;
        }
        i -= 1;
    }
    if i == 0 {
        proof { lemma_doc_map(doc@, s@, -1); }
        return None;
    }
    proof { lemma_doc_map(doc@, s@, i - 1); }
    match &doc[i - 1].table {
        None => None,
        Some(t) => {
            let mut j = t.len();
            while j > 0
                invariant
                    j <= t.len(),
                    forall|m: int| j <= m < t.len() ==> #[trigger] t@[m].cle@ != k@,
                ensures
                    j <= t.len(),
                    forall|m: int| j <= m < t.len() ==> #[trigger] t@[m].cle@ != k@,
                    j > 0 ==> t@[j - 1].cle@ == k@,
                decreases j,
            {
                if meme(&t[j - 1].cle, k) {
                    break;
                }
                j -= 1;
            }
            if j == 0 {
                proof { lemma_table_map(t@, k@, -1); }
                None
            } else {
                proof { lemma_table_map(t@, k@, j - 1); }
                Some(&t[j - 1].valeur)
            }
        },
    }
}

pub(crate) fn texte_de(doc: &Vec<SectionToml>, s: &str, k: &str) -> (r: Option<String>)
    ensures
        vue_option(r) == texte_cfg(doc_map(doc@), s@, k@),
{
    match chercher(doc, s, k) {
        Some(ValeurToml::Texte(t)) => Some(t.clone()),
        _ => None,
    }
}

fn entier_de(doc: &Vec<SectionToml>, s: &str, k: &str) -> (r: Option<i64>)
    ensures
        r == entier_cfg(doc_map(doc@), s@, k@),
{
    match chercher(doc, s, k) {
        Some(ValeurToml::Entier(i)) => Some(*i),
        _ => None,
    }
}

fn booleen_de(doc: &Vec<SectionToml>, s: &str, k: &str) -> (r: Option<bool>)
    ensures
        r == booleen_cfg(doc_map(doc@), s@, k@),
{
    match chercher(doc, s, k) {
        Some(ValeurToml::Booleen(b)) => Some(*b),
        _ => None,
    }
}

pub(crate) fn pousser_modif(ms: &mut Vec<Modification>, m: Modification)
    ensures
        vues_modifs(final(ms)@) == vues_modifs(old(ms)@).push(vue_modif(m)),
{
    ms.push(m);
    assert(vues_modifs(ms@) =~= vues_modifs(old(ms)@).push(vue_modif(m)));
}

pub(crate) fn inserer(ms: &mut Vec<Modification>, s: &str, k: &str, v: ValeurToml)
    ensures
        vues_modifs(final(ms)@) == vues_modifs(old(ms)@).push(ins(s@, k@, vue_valeur(v))),
{
    pousser_modif(ms, Modification::Inserer(String::from_str(s), String::from_str(k), v));
}

fn retirer(ms: &mut Vec<Modification>, s: &str, k: &str)
    ensures
        vues_modifs(final(ms)@) == vues_modifs(old(ms)@).push(VueModif::Retirer(s@, k@)),
{
    pousser_modif(ms, Modification::Retirer(String::from_str(s), String::from_str(k)));
}

fn creer(ms: &mut Vec<Modification>, s: &str)
    ensures
        vues_modifs(final(ms)@) == vues_modifs(old(ms)@).push(VueModif::Creer(s@)),
{
    pousser_modif(ms, Modification::Creer(String::from_str(s)));
}

fn texte_ou(doc: &Vec<SectionToml>, s: &str, k: &str, defaut: &String) -> (r: String)
    ensures
        r@ == ou(texte_cfg(doc_map(doc@), s@, k@), defaut@),
{
    match texte_de(doc, s, k) {
        Some(t) => t,
        None => defaut.clone(),
    }
}

fn u32_ou(doc: &Vec<SectionToml>, s: &str, k: &str, defaut: u32) -> (r: u32)
    ensures
        r == (match entier_cfg(doc_map(doc@), s@, k@) {
            Some(i) => i as u32,
            None => defaut,
        }),
{
    match entier_de(doc, s, k) {
        Some(n) => n as u32,
        None => defaut,
    }
}

fn chemin_ou(doc: &Vec<SectionToml>, s: &str, k: &str, defaut: &Option<String>) -> (r: Option<String>)
    ensures
        vue_option(r) == (match texte_cfg(doc_map(doc@), s@, k@) {
            Some(p) => Some(p),
            None => vue_option(*defaut),
        }),
{
    match texte_de(doc, s, k) {
        Some(p) => Some(p),
        None => match defaut {
            Some(p) => Some(p.clone()),
            None => None,
        },
    }
}

fn langue_ou(doc: &Vec<SectionToml>, defaut: &String) -> (r: String)
    ensures
        r@ == (match texte_cfg(doc_map(doc@), "app"@, "lang"@) {
            Some(l) => if l == "fr"@ { "fr"@ } else { "en"@ },
            None => defaut@,
        }),
{
    match texte_de(doc, "app", "lang") {
        Some(l) => if meme(&l, "fr") { String::from_str("fr") } else { String::from_str("en") },
        None => defaut.clone(),
    }
}

fn format_charge(doc: &Vec<SectionToml>, m: ModuleType, defaut: &String) -> (r: String)
    ensures
        r@ == (match section_format(m) {
            Some(s) => ou(texte_cfg(doc_map(doc@), s, "format"@), Seq::empty()),
            None => defaut@,
        }),
{
    let vide = String::new();
    match m {
        ModuleType::Doc => texte_ou(doc, "doc", "format", &vide),
        ModuleType::Image => texte_ou(doc, "image", "format", &vide),
        ModuleType::Archive => texte_ou(doc, "archive", "format", &vide),
        ModuleType::Audio => texte_ou(doc, "audio", "format", &vide),
        ModuleType::Video => texte_ou(doc, "video", "format", &vide),
        _ => defaut.clone(),
    }
}

impl Reglages {
    /// Reads the settings from the configuration file (its sections as
    /// parsed): see `charge`.
    pub fn load_config(&mut self, doc: &Vec<SectionToml>)
        ensures
            final(self)@ == charge(old(self)@, doc_map(doc@)),
    {
        let format = format_charge(doc, self.module_actif, &self.format_choisi);
        let theme = texte_ou(doc, "display", "theme", &self.current_theme);
        let jobs = match entier_de(doc, "performance", "max_parallel_jobs") {
            Some(n) => n as usize,
            None => self.max_parallel_jobs,
        };
        let lang = langue_ou(doc, &self.lang_id);
        let ratio = u32_ou(doc, "image", "ratio_img", self.ratio_img);
        let niveau = u32_ou(doc, "archive", "niveau", self.archive_niveau);
        let source = texte_ou(doc, "archive", "backup_source", &self.archive_backup_source);
        let dest = texte_ou(doc, "archive", "backup_dest", &self.archive_backup_dest);
        let exclusions = texte_ou(doc, "archive", "backup_exclusions", &self.archive_backup_exclusions);
        let multi = texte_ou(doc, "archive", "multi_source", &self.archive_multi_source);
        let qualite = u32_ou(doc, "audio", "qualite", self.audio_qualite);
        let copie = match booleen_de(doc, "video", "copie_flux") {
            Some(b) => b,
            None => self.copie_flux,
        };
        let speed = u32_ou(doc, "video", "speed", self.video_speed);
        let keys = chemin_ou(doc, "scrapper", "keys_path", &self.keys_env_path);
        let liste = chemin_ou(doc, "rename", "last_list_path", &self.rename_last_list_path);
        self.format_choisi = format;
        self.current_theme = theme;
        self.max_parallel_jobs = jobs;
        self.lang_id = lang;
        self.ratio_img = ratio;
        self.archive_niveau = niveau;
        self.archive_backup_source = source;
        self.archive_backup_dest = dest;
        self.archive_backup_exclusions = exclusions;
        self.archive_multi_source = multi;
        self.audio_qualite = qualite;
        self.copie_flux = copie;
        self.video_speed = speed;
        self.keys_env_path = keys;
        self.rename_last_list_path = liste;
    }

    fn modifs_format_de(&self, ms: &mut Vec<Modification>, m: ModuleType, garde: bool, s: &str)
        ensures
            vues_modifs(final(ms)@) == vues_modifs(old(ms)@) + modifs_format(self@, m, garde, s@),
    {
        let ghost avant = vues_modifs(ms@);
        if garde && !self.format_choisi.as_str().is_empty() && self.module_actif == m {
            inserer(ms, s, "format", ValeurToml::Texte(self.format_choisi.clone()));
            assert(vues_modifs(ms@) =~= avant + modifs_format(self@, m, garde, s@));
        } else if !garde && self.module_actif == m {
            retirer(ms, s, "format");
            assert(vues_modifs(ms@) =~= avant + modifs_format(self@, m, garde, s@));
        } else {
            assert(vues_modifs(ms@) =~= avant + modifs_format(self@, m, garde, s@));
        }
    }

    #[verifier::rlimit(40)]
    fn modifs_module_de(&self, ms: &mut Vec<Modification>)
        ensures
            vues_modifs(final(ms)@) == vues_modifs(old(ms)@) + modifs_module(self@),
    {
        let ghost v = self@;
        let ghost m0 = vues_modifs(ms@);
        self.modifs_format_de(ms, ModuleType::Doc, self.save_doc_format, "doc");
        let ghost m1 = vues_modifs(ms@);
        self.modifs_format_de(ms, ModuleType::Image, self.save_image_format, "image");
        if self.save_image_format && !self.format_choisi.as_str().is_empty() && self.module_actif == ModuleType::Image {
            inserer(ms, "image", "ratio_img", ValeurToml::Entier(self.ratio_img as i64));
        }
        if self.module_actif == ModuleType::Image {
            inserer(ms, "image", "ratio_img", ValeurToml::Entier(self.ratio_img as i64));
        }
        let ghost m2 = vues_modifs(ms@);
        self.modifs_format_de(ms, ModuleType::Archive, self.save_archive_format, "archive");
        if self.module_actif == ModuleType::Archive {
            inserer(ms, "archive", "niveau", ValeurToml::Entier(self.archive_niveau as i64));
            inserer(ms, "archive", "backup_source", ValeurToml::Texte(self.archive_backup_source.clone()));
            inserer(ms, "archive", "backup_dest", ValeurToml::Texte(self.archive_backup_dest.clone()));
            inserer(ms, "archive", "backup_exclusions", ValeurToml::Texte(self.archive_backup_exclusions.clone()));
            inserer(ms, "archive", "multi_source", ValeurToml::Texte(self.archive_multi_source.clone()));
        }
        let ghost m3 = vues_modifs(ms@);
        self.modifs_format_de(ms, ModuleType::Audio, self.save_audio_format, "audio");
        if self.module_actif == ModuleType::Audio {
            inserer(ms, "audio", "qualite", ValeurToml::Entier(self.audio_qualite as i64));
        }
        let ghost m4 = vues_modifs(ms@);
        self.modifs_format_de(ms, ModuleType::Video, self.save_video_format, "video");
        if self.module_actif == ModuleType::Video {
            inserer(ms, "video", "copie_flux", ValeurToml::Booleen(self.copie_flux));
            inserer(ms, "video", "speed", ValeurToml::Entier(self.video_speed as i64));
        }
        let ghost m5 = vues_modifs(ms@);
        proof {
            let image = modifs_format(v, ModuleType::Image, v.save_image_format, "image"@)
                + if v.save_image_format && v.format_choisi.len() > 0 && v.module_actif == ModuleType::Image {
                    seq![ins("image"@, "ratio_img"@, VueValeur::Entier(v.ratio_img as i64))]
                } else {
                    Seq::empty()
                }
                + if v.module_actif == ModuleType::Image {
                    seq![ins("image"@, "ratio_img"@, VueValeur::Entier(v.ratio_img as i64))]
                } else {
                    Seq::empty()
                };
            assert(m2 =~= m1 + image);
            assert(m5 =~= m0 + modifs_module(v));
        }
    }

    /// The changes that saving the settings makes to the configuration file,
    /// in order: see `modifs_sauvegarde`.
    pub fn save_config(&self) -> (ms: Vec<Modification>)
        ensures
            vues_modifs(ms@) == modifs_sauvegarde(self@),
    {
        let mut ms: Vec<Modification> = Vec::new();
        inserer(&mut ms, "display", "theme", ValeurToml::Texte(self.current_theme.clone()));
        inserer(&mut ms, "performance", "max_parallel_jobs", ValeurToml::Entier(self.max_parallel_jobs as i64));
        inserer(&mut ms, "app", "lang", ValeurToml::Texte(self.lang_id.clone()));
        creer(&mut ms, "scrapper");
        match &self.keys_env_path {
            Some(p) => inserer(&mut ms, "scrapper", "keys_path", ValeurToml::Texte(p.clone())),
            None => retirer(&mut ms, "scrapper", "keys_path"),
        }
        let ghost m1 = vues_modifs(ms@);
        self.modifs_module_de(&mut ms);
        let ghost m2 = vues_modifs(ms@);
        creer(&mut ms, "rename");
        match &self.rename_last_list_path {
            Some(p) => inserer(&mut ms, "rename", "last_list_path", ValeurToml::Texte(p.clone())),
            None => retirer(&mut ms, "rename", "last_list_path"),
        }
        assert(vues_modifs(ms@) =~= modifs_sauvegarde(self@));
        ms
    }

    /// The changes to make to the configuration file beside the program, so
    /// that a chosen configuration folder is found again at the next start:
    /// none when no folder was chosen.
    pub fn save_bootstrap(&self) -> (r: Option<Vec<Modification>>)
        ensures
            match r {
                Some(ms) => self.custom_config_dir matches Some(p)
                    && vues_modifs(ms@) == seq![ins("app"@, "config_dir"@, VueValeur::Texte(p@))],
                None => self.custom_config_dir is None,
            },
    {
        match &self.custom_config_dir {
            Some(p) => {
                let mut ms: Vec<Modification> = Vec::new();
                inserer(&mut ms, "app", "config_dir", ValeurToml::Texte(p.clone()));
                assert(vues_modifs(ms@) =~= seq![ins("app"@, "config_dir"@, VueValeur::Texte(p@))]);
                Some(ms)
            },
            None => None,
        }
    }
}

/// The configuration folder that the file beside the program names, if any.
pub fn dossier_config(doc: &Vec<SectionToml>) -> (r: Option<String>)
    ensures
        vue_option(r) == texte_cfg(doc_map(doc@), "app"@, "config_dir"@),
{
    texte_de(doc, "app", "config_dir")
}

// ───────────────────────── changing the file ─────────────────────────

/// The index of the last section of this name, the one that counts.
fn index_section(doc: &Vec<SectionToml>, s: &str) -> (r: Option<usize>)
    ensures
        match r {
            Some(i) => i < doc.len() && doc@[i as int].nom@ == s@ && doc_map(doc@).contains_key(s@)
                && doc_map(doc@)[s@] == vue_table(doc@[i as int].table),
            None => !doc_map(doc@).contains_key(s@),
        },
{
    let mut i = doc.len();
    while i > 0
        invariant
            i <= doc.len(),
            forall|j: int| i <= j < doc.len() ==> #[trigger] doc@[j].nom@ != s@,
        ensures
            i <= doc.len(),
            forall|j: int| i <= j < doc.len() ==> #[trigger] doc@[j].nom@ != s@,
            i > 0 ==> doc@[i - 1].nom@ == s@,
        decreases i,
    {
        if meme(&doc[i - 1].nom, s) {
            break;
        }
        i -= 1;
    }
    if i == 0 {
        proof { lemma_doc_map(doc@, s@, -1); }
        return None;
    }
    proof { lemma_doc_map(doc@, s@, i - 1); }
    Some(i - 1)
}

fn copier_texte(s: &String) -> (r: String)
    ensures
        r@ == s@,
{
    String::from_str(s.as_str())
}

fn copier_valeur(v: &ValeurToml) -> (r: ValeurToml)
    ensures
        vue_valeur(r) == vue_valeur(*v),
{
    match v {
        ValeurToml::Texte(s) => ValeurToml::Texte(copier_texte(s)),
        ValeurToml::Entier(i) => ValeurToml::Entier(*i),
        ValeurToml::Booleen(b) => ValeurToml::Booleen(*b),
        ValeurToml::Autre => ValeurToml::Autre,
        ValeurToml::Liste(l) => {
            let mut r: Vec<Option<String>> = Vec::new();
            let mut k: usize = 0;
            while k < l.len()
                invariant
                    k <= l.len(),
                    vue_items(r@) == vue_items(l@.take(k as int)),
                decreases l.len() - k,
            {
                let o = match &l[k] {
                    Some(x) => Some(copier_texte(x)),
                    None => None,
                };
                let ghost a = r@;
                r.push(o);
                assert(l@.take(k + 1) =~= l@.take(k as int).push(l@[k as int]));
                assert(vue_items(r@) =~= vue_items(a).push(match l@[k as int] { Some(x) => Some(x@), None => None }));
                assert(vue_items(l@.take(k + 1)) =~= vue_items(l@.take(k as int)).push(match l@[k as int] { Some(x) => Some(x@), None => None }));
                k += 1;
            }
            assert(l@.take(l.len() as int) =~= l@);
            ValeurToml::Liste(r)
        },
    }
}

fn copier_entree(e: &EntreeToml) -> (r: EntreeToml)
    ensures
        r.cle@ == e.cle@,
        vue_valeur(r.valeur) == vue_valeur(e.valeur),
{
    EntreeToml { cle: copier_texte(&e.cle), valeur: copier_valeur(&e.valeur) }
}

/// A copy of a section's entries, without those of a key when one is given.
fn copier_table(t: &Vec<EntreeToml>, sans: Option<&str>) -> (r: Vec<EntreeToml>)
    ensures
        table_map(r@) == (match sans { Some(k) => table_map(t@).remove(k@), None => table_map(t@) }),
{
    let mut r: Vec<EntreeToml> = Vec::new();
    let mut i: usize = 0;
    assert(t@.take(0) =~= Seq::<EntreeToml>::empty());
    assert(table_map(Seq::<EntreeToml>::empty()).remove(seq![]) =~= Map::empty());
    while i < t.len()
        invariant
            i <= t.len(),
            table_map(r@) == (match sans { Some(k) => table_map(t@.take(i as int)).remove(k@), None => table_map(t@.take(i as int)) }),
        decreases t.len() - i,
    {
        let ghost avant = r@;
        assert(t@.take(i + 1).drop_last() =~= t@.take(i as int));
        let garde = match sans {
            Some(k) => !meme(&t[i].cle, k),
            None => true,
        };
        if garde {
            r.push(copier_entree(&t[i]));
            assert(r@.drop_last() =~= avant);
        }
        proof {
            if let Some(k) = sans {
                let m0 = table_map(t@.take(i as int));
                if garde {
                    assert(table_map(r@) =~= m0.insert(t@[i as int].cle@, vue_valeur(t@[i as int].valeur)).remove(k@));
                } else {
                    assert(m0.remove(k@) =~= m0.insert(t@[i as int].cle@, vue_valeur(t@[i as int].valeur)).remove(k@));
                }
            }
        }
        i += 1;
    }
    assert(t@.take(t.len() as int) =~= t@);
    r
}

proof fn lemma_pousser_section(d: Seq<SectionToml>, x: SectionToml)
    ensures
        doc_map(d.push(x)) == doc_map(d).insert(x.nom@, vue_table(x.table)),
{
    assert(d.push(x).drop_last() =~= d);
}

/// Makes one change to the configuration file's sections (see `applique_une`).
fn appliquer_une(d: &mut Vec<SectionToml>, m: &Modification)
    ensures
        doc_map(final(d)@) == applique_une(doc_map(old(d)@), vue_modif(*m)),
{
    match m {
        Modification::Creer(s) => {
            if index_section(d, s.as_str()).is_none() {
                let t: Vec<EntreeToml> = Vec::new();
                assert(table_map(t@) =~= Map::<Seq<char>, VueValeur>::empty());
                let x = SectionToml { nom: copier_texte(s), table: Some(t) };
                proof { lemma_pousser_section(d@, x); }
                d.push(x);
            }
        },
        Modification::Inserer(s, k, v) => {
            let e = EntreeToml { cle: copier_texte(k), valeur: copier_valeur(v) };
            match index_section(d, s.as_str()) {
                None => {
                    let mut u: Vec<EntreeToml> = Vec::new();
                    u.push(e);
                    assert(u@.drop_last() =~= Seq::<EntreeToml>::empty());
                    assert(table_map(Seq::<EntreeToml>::empty()) == Map::<Seq<char>, VueValeur>::empty());
                    assert(table_map(u@) =~= Map::<Seq<char>, VueValeur>::empty().insert(k@, vue_valeur(*v)));
                    let x = SectionToml { nom: copier_texte(s), table: Some(u) };
                    proof { lemma_pousser_section(d@, x); }
                    d.push(x);
                },
                Some(i) => {
                    if let Some(t) = &d[i].table {
                        let mut u = copier_table(t, None);
                        let ghost avant = u@;
                        u.push(e);
                        assert(u@.drop_last() =~= avant);
                        let x = SectionToml { nom: copier_texte(s), table: Some(u) };
                        proof { lemma_pousser_section(d@, x); }
                        d.push(x);
                    }
                },
            }
        },
        Modification::Retirer(s, k) => {
            if let Some(i) = index_section(d, s.as_str()) {
                if let Some(t) = &d[i].table {
                    let u = copier_table(t, Some(k.as_str()));
                    let x = SectionToml { nom: copier_texte(s), table: Some(u) };
                    proof { lemma_pousser_section(d@, x); }
                    d.push(x);
                }
            }
        },
        Modification::Remplacer(s, t) => {
            let u = copier_table(t, None);
            let x = SectionToml { nom: copier_texte(s), table: Some(u) };
            proof { lemma_pousser_section(d@, x); }
            d.push(x);
        },
    }
}

/// Makes the changes to the configuration file's sections, in order (what
/// `save_config` and `save_bootstrap` give): the sections that the file
/// then holds are `applique` of the changes.
pub fn appliquer_modifs(d: &mut Vec<SectionToml>, ms: &Vec<Modification>)
    ensures
        doc_map(final(d)@) == applique(doc_map(old(d)@), vues_modifs(ms@)),
{
    let ghost d0 = doc_map(d@);
    let mut i: usize = 0;
    assert(vues_modifs(ms@).take(0) =~= Seq::<VueModif>::empty());
    while i < ms.len()
        invariant
            i <= ms.len(),
            doc_map(d@) == applique(d0, vues_modifs(ms@).take(i as int)),
        decreases ms.len() - i,
    {
        assert(vues_modifs(ms@).take(i + 1).drop_last() =~= vues_modifs(ms@).take(i as int));
        assert(vues_modifs(ms@).take(i + 1).last() == vue_modif(ms@[i as int]));
        appliquer_une(d, &ms[i]);
        i += 1;
    }
    assert(vues_modifs(ms@).take(ms.len() as int) =~= vues_modifs(ms@));
}

// ───────────────────────── saving then reading ─────────────────────────

/// The section that a change is about.
pub open spec fn section_de(m: VueModif) -> Seq<char> {
    match m {
        VueModif::Creer(s) => s,
        VueModif::Inserer(s, _, _) => s,
        VueModif::Retirer(s, _) => s,
        VueModif::Remplacer(s, _) => s,
    }
}

/// A name that is free for a section: absent, or a section already.
pub open spec fn section_libre(d: Map<Seq<char>, Option<Map<Seq<char>, VueValeur>>>, s: Seq<char>) -> bool {
    !d.contains_key(s) || d[s] is Some
}

proof fn lemma_concat(d: Map<Seq<char>, Option<Map<Seq<char>, VueValeur>>>, a: Seq<VueModif>, b: Seq<VueModif>)
    ensures
        applique(d, a + b) == applique(applique(d, a), b),
    decreases b.len(),
{
    if b.len() == 0 {
        assert(a + b =~= a);
    } else {
        lemma_concat(d, a, b.drop_last());
        assert((a + b).drop_last() =~= a + b.drop_last());
    }
}

proof fn lemma_hors_section(d: Map<Seq<char>, Option<Map<Seq<char>, VueValeur>>>, p: Seq<VueModif>, s: Seq<char>)
    requires
        forall|j: int| 0 <= j < p.len() ==> section_de(#[trigger] p[j]) != s,
    ensures
        applique(d, p).contains_key(s) == d.contains_key(s),
        d.contains_key(s) ==> applique(d, p)[s] == d[s],
    decreases p.len(),
{
    if p.len() > 0 {
        let q = p.drop_last();
        assert forall|j: int| 0 <= j < q.len() implies section_de(#[trigger] q[j]) != s by {
            assert(q[j] == p[j]);
        }
        assert(section_de(p[p.len() - 1]) != s);
        lemma_hors_section(d, q, s);
    }
}

proof fn lemma_un(d: Map<Seq<char>, Option<Map<Seq<char>, VueValeur>>>, m: VueModif)
    ensures
        applique(d, seq![m]) == applique_une(d, m),
{
    assert(seq![m].drop_last() =~= Seq::<VueModif>::empty());
    assert(applique(d, Seq::<VueModif>::empty()) == d);
}

/// The names that the settings use are distinct.
proof fn lemma_noms()
    ensures
        "display"@ != "performance"@,
        "display"@ != "app"@,
        "display"@ != "scrapper"@,
        "display"@ != "rename"@,
        "display"@ != "doc"@,
        "display"@ != "image"@,
        "display"@ != "archive"@,
        "display"@ != "audio"@,
        "display"@ != "video"@,
        "performance"@ != "app"@,
        "performance"@ != "scrapper"@,
        "performance"@ != "rename"@,
        "performance"@ != "doc"@,
        "performance"@ != "image"@,
        "performance"@ != "archive"@,
        "performance"@ != "audio"@,
        "performance"@ != "video"@,
        "app"@ != "scrapper"@,
        "app"@ != "rename"@,
        "app"@ != "doc"@,
        "app"@ != "image"@,
        "app"@ != "archive"@,
        "app"@ != "audio"@,
        "app"@ != "video"@,
        "scrapper"@ != "rename"@,
        "scrapper"@ != "doc"@,
        "scrapper"@ != "image"@,
        "scrapper"@ != "archive"@,
        "scrapper"@ != "audio"@,
        "scrapper"@ != "video"@,
        "rename"@ != "doc"@,
        "rename"@ != "image"@,
        "rename"@ != "archive"@,
        "rename"@ != "audio"@,
        "rename"@ != "video"@,
        "doc"@ != "image"@,
        "doc"@ != "archive"@,
        "doc"@ != "audio"@,
        "doc"@ != "video"@,
        "image"@ != "archive"@,
        "image"@ != "audio"@,
        "image"@ != "video"@,
        "archive"@ != "audio"@,
        "archive"@ != "video"@,
        "audio"@ != "video"@,
        "format"@ != "niveau"@,
        "format"@ != "backup_source"@,
        "format"@ != "backup_dest"@,
        "format"@ != "backup_exclusions"@,
        "format"@ != "multi_source"@,
        "niveau"@ != "backup_source"@,
        "niveau"@ != "backup_dest"@,
        "niveau"@ != "backup_exclusions"@,
        "niveau"@ != "multi_source"@,
        "backup_source"@ != "backup_dest"@,
        "backup_source"@ != "backup_exclusions"@,
        "backup_source"@ != "multi_source"@,
        "backup_dest"@ != "backup_exclusions"@,
        "backup_dest"@ != "multi_source"@,
        "backup_exclusions"@ != "multi_source"@,
        "format"@ != "copie_flux"@,
        "format"@ != "speed"@,
        "copie_flux"@ != "speed"@,
        "format"@ != "qualite"@,
        "format"@ != "ratio_img"@,
        "fr"@ != "en"@,
{
    assert("display"@ != "performance"@) by {
        reveal_strlit("display");
        reveal_strlit("performance");
        assert("display"@.len() == 7);
        assert("performance"@.len() == 11);
    }
    assert("display"@ != "app"@) by {
        reveal_strlit("display");
        reveal_strlit("app");
        assert("display"@.len() == 7);
        assert("app"@.len() == 3);
    }
    assert("display"@ != "scrapper"@) by {
        reveal_strlit("display");
        reveal_strlit("scrapper");
        assert("display"@.len() == 7);
        assert("scrapper"@.len() == 8);
    }
    assert("display"@ != "rename"@) by {
        reveal_strlit("display");
        reveal_strlit("rename");
        assert("display"@.len() == 7);
        assert("rename"@.len() == 6);
    }
    assert("display"@ != "doc"@) by {
        reveal_strlit("display");
        reveal_strlit("doc");
        assert("display"@.len() == 7);
        assert("doc"@.len() == 3);
    }
    assert("display"@ != "image"@) by {
        reveal_strlit("display");
        reveal_strlit("image");
        assert("display"@.len() == 7);
        assert("image"@.len() == 5);
    }
    assert("display"@ != "archive"@) by {
        reveal_strlit("display");
        reveal_strlit("archive");
        assert("display"@[0] == 'd');
        assert("archive"@[0] == 'a');
    }
    assert("display"@ != "audio"@) by {
        reveal_strlit("display");
        reveal_strlit("audio");
        assert("display"@.len() == 7);
        assert("audio"@.len() == 5);
    }
    assert("display"@ != "video"@) by {
        reveal_strlit("display");
        reveal_strlit("video");
        assert("display"@.len() == 7);
        assert("video"@.len() == 5);
    }
    assert("performance"@ != "app"@) by {
        reveal_strlit("performance");
        reveal_strlit("app");
        assert("performance"@.len() == 11);
        assert("app"@.len() == 3);
    }
    assert("performance"@ != "scrapper"@) by {
        reveal_strlit("performance");
        reveal_strlit("scrapper");
        assert("performance"@.len() == 11);
        assert("scrapper"@.len() == 8);
    }
    assert("performance"@ != "rename"@) by {
        reveal_strlit("performance");
        reveal_strlit("rename");
        assert("performance"@.len() == 11);
        assert("rename"@.len() == 6);
    }
    assert("performance"@ != "doc"@) by {
        reveal_strlit("performance");
        reveal_strlit("doc");
        assert("performance"@.len() == 11);
        assert("doc"@.len() == 3);
    }
    assert("performance"@ != "image"@) by {
        reveal_strlit("performance");
        reveal_strlit("image");
        assert("performance"@.len() == 11);
        assert("image"@.len() == 5);
    }
    assert("performance"@ != "archive"@) by {
        reveal_strlit("performance");
        reveal_strlit("archive");
        assert("performance"@.len() == 11);
        assert("archive"@.len() == 7);
    }
    assert("performance"@ != "audio"@) by {
        reveal_strlit("performance");
        reveal_strlit("audio");
        assert("performance"@.len() == 11);
        assert("audio"@.len() == 5);
    }
    assert("performance"@ != "video"@) by {
        reveal_strlit("performance");
        reveal_strlit("video");
        assert("performance"@.len() == 11);
        assert("video"@.len() == 5);
    }
    assert("app"@ != "scrapper"@) by {
        reveal_strlit("app");
        reveal_strlit("scrapper");
        assert("app"@.len() == 3);
        assert("scrapper"@.len() == 8);
    }
    assert("app"@ != "rename"@) by {
        reveal_strlit("app");
        reveal_strlit("rename");
        assert("app"@.len() == 3);
        assert("rename"@.len() == 6);
    }
    assert("app"@ != "doc"@) by {
        reveal_strlit("app");
        reveal_strlit("doc");
        assert("app"@[0] == 'a');
        assert("doc"@[0] == 'd');
    }
    assert("app"@ != "image"@) by {
        reveal_strlit("app");
        reveal_strlit("image");
        assert("app"@.len() == 3);
        assert("image"@.len() == 5);
    }
    assert("app"@ != "archive"@) by {
        reveal_strlit("app");
        reveal_strlit("archive");
        assert("app"@.len() == 3);
        assert("archive"@.len() == 7);
    }
    assert("app"@ != "audio"@) by {
        reveal_strlit("app");
        reveal_strlit("audio");
        assert("app"@.len() == 3);
        assert("audio"@.len() == 5);
    }
    assert("app"@ != "video"@) by {
        reveal_strlit("app");
        reveal_strlit("video");
        assert("app"@.len() == 3);
        assert("video"@.len() == 5);
    }
    assert("scrapper"@ != "rename"@) by {
        reveal_strlit("scrapper");
        reveal_strlit("rename");
        assert("scrapper"@.len() == 8);
        assert("rename"@.len() == 6);
    }
    assert("scrapper"@ != "doc"@) by {
        reveal_strlit("scrapper");
        reveal_strlit("doc");
        assert("scrapper"@.len() == 8);
        assert("doc"@.len() == 3);
    }
    assert("scrapper"@ != "image"@) by {
        reveal_strlit("scrapper");
        reveal_strlit("image");
        assert("scrapper"@.len() == 8);
        assert("image"@.len() == 5);
    }
    assert("scrapper"@ != "archive"@) by {
        reveal_strlit("scrapper");
        reveal_strlit("archive");
        assert("scrapper"@.len() == 8);
        assert("archive"@.len() == 7);
    }
    assert("scrapper"@ != "audio"@) by {
        reveal_strlit("scrapper");
        reveal_strlit("audio");
        assert("scrapper"@.len() == 8);
        assert("audio"@.len() == 5);
    }
    assert("scrapper"@ != "video"@) by {
        reveal_strlit("scrapper");
        reveal_strlit("video");
        assert("scrapper"@.len() == 8);
        assert("video"@.len() == 5);
    }
    assert("rename"@ != "doc"@) by {
        reveal_strlit("rename");
        reveal_strlit("doc");
        assert("rename"@.len() == 6);
        assert("doc"@.len() == 3);
    }
    assert("rename"@ != "image"@) by {
        reveal_strlit("rename");
        reveal_strlit("image");
        assert("rename"@.len() == 6);
        assert("image"@.len() == 5);
    }
    assert("rename"@ != "archive"@) by {
        reveal_strlit("rename");
        reveal_strlit("archive");
        assert("rename"@.len() == 6);
        assert("archive"@.len() == 7);
    }
    assert("rename"@ != "audio"@) by {
        reveal_strlit("rename");
        reveal_strlit("audio");
        assert("rename"@.len() == 6);
        assert("audio"@.len() == 5);
    }
    assert("rename"@ != "video"@) by {
        reveal_strlit("rename");
        reveal_strlit("video");
        assert("rename"@.len() == 6);
        assert("video"@.len() == 5);
    }
    assert("doc"@ != "image"@) by {
        reveal_strlit("doc");
        reveal_strlit("image");
        assert("doc"@.len() == 3);
        assert("image"@.len() == 5);
    }
    assert("doc"@ != "archive"@) by {
        reveal_strlit("doc");
        reveal_strlit("archive");
        assert("doc"@.len() == 3);
        assert("archive"@.len() == 7);
    }
    assert("doc"@ != "audio"@) by {
        reveal_strlit("doc");
        reveal_strlit("audio");
        assert("doc"@.len() == 3);
        assert("audio"@.len() == 5);
    }
    assert("doc"@ != "video"@) by {
        reveal_strlit("doc");
        reveal_strlit("video");
        assert("doc"@.len() == 3);
        assert("video"@.len() == 5);
    }
    assert("image"@ != "archive"@) by {
        reveal_strlit("image");
        reveal_strlit("archive");
        assert("image"@.len() == 5);
        assert("archive"@.len() == 7);
    }
    assert("image"@ != "audio"@) by {
        reveal_strlit("image");
        reveal_strlit("audio");
        assert("image"@[0] == 'i');
        assert("audio"@[0] == 'a');
    }
    assert("image"@ != "video"@) by {
        reveal_strlit("image");
        reveal_strlit("video");
        assert("image"@[0] == 'i');
        assert("video"@[0] == 'v');
    }
    assert("archive"@ != "audio"@) by {
        reveal_strlit("archive");
        reveal_strlit("audio");
        assert("archive"@.len() == 7);
        assert("audio"@.len() == 5);
    }
    assert("archive"@ != "video"@) by {
        reveal_strlit("archive");
        reveal_strlit("video");
        assert("archive"@.len() == 7);
        assert("video"@.len() == 5);
    }
    assert("audio"@ != "video"@) by {
        reveal_strlit("audio");
        reveal_strlit("video");
        assert("audio"@[0] == 'a');
        assert("video"@[0] == 'v');
    }
    assert("format"@ != "niveau"@) by {
        reveal_strlit("format");
        reveal_strlit("niveau");
        assert("format"@[0] == 'f');
        assert("niveau"@[0] == 'n');
    }
    assert("format"@ != "backup_source"@) by {
        reveal_strlit("format");
        reveal_strlit("backup_source");
        assert("format"@.len() == 6);
        assert("backup_source"@.len() == 13);
    }
    assert("format"@ != "backup_dest"@) by {
        reveal_strlit("format");
        reveal_strlit("backup_dest");
        assert("format"@.len() == 6);
        assert("backup_dest"@.len() == 11);
    }
    assert("format"@ != "backup_exclusions"@) by {
        reveal_strlit("format");
        reveal_strlit("backup_exclusions");
        assert("format"@.len() == 6);
        assert("backup_exclusions"@.len() == 17);
    }
    assert("format"@ != "multi_source"@) by {
        reveal_strlit("format");
        reveal_strlit("multi_source");
        assert("format"@.len() == 6);
        assert("multi_source"@.len() == 12);
    }
    assert("niveau"@ != "backup_source"@) by {
        reveal_strlit("niveau");
        reveal_strlit("backup_source");
        assert("niveau"@.len() == 6);
        assert("backup_source"@.len() == 13);
    }
    assert("niveau"@ != "backup_dest"@) by {
        reveal_strlit("niveau");
        reveal_strlit("backup_dest");
        assert("niveau"@.len() == 6);
        assert("backup_dest"@.len() == 11);
    }
    assert("niveau"@ != "backup_exclusions"@) by {
        reveal_strlit("niveau");
        reveal_strlit("backup_exclusions");
        assert("niveau"@.len() == 6);
        assert("backup_exclusions"@.len() == 17);
    }
    assert("niveau"@ != "multi_source"@) by {
        reveal_strlit("niveau");
        reveal_strlit("multi_source");
        assert("niveau"@.len() == 6);
        assert("multi_source"@.len() == 12);
    }
    assert("backup_source"@ != "backup_dest"@) by {
        reveal_strlit("backup_source");
        reveal_strlit("backup_dest");
        assert("backup_source"@.len() == 13);
        assert("backup_dest"@.len() == 11);
    }
    assert("backup_source"@ != "backup_exclusions"@) by {
        reveal_strlit("backup_source");
        reveal_strlit("backup_exclusions");
        assert("backup_source"@.len() == 13);
        assert("backup_exclusions"@.len() == 17);
    }
    assert("backup_source"@ != "multi_source"@) by {
        reveal_strlit("backup_source");
        reveal_strlit("multi_source");
        assert("backup_source"@.len() == 13);
        assert("multi_source"@.len() == 12);
    }
    assert("backup_dest"@ != "backup_exclusions"@) by {
        reveal_strlit("backup_dest");
        reveal_strlit("backup_exclusions");
        assert("backup_dest"@.len() == 11);
        assert("backup_exclusions"@.len() == 17);
    }
    assert("backup_dest"@ != "multi_source"@) by {
        reveal_strlit("backup_dest");
        reveal_strlit("multi_source");
        assert("backup_dest"@.len() == 11);
        assert("multi_source"@.len() == 12);
    }
    assert("backup_exclusions"@ != "multi_source"@) by {
        reveal_strlit("backup_exclusions");
        reveal_strlit("multi_source");
        assert("backup_exclusions"@.len() == 17);
        assert("multi_source"@.len() == 12);
    }
    assert("format"@ != "copie_flux"@) by {
        reveal_strlit("format");
        reveal_strlit("copie_flux");
        assert("format"@.len() == 6);
        assert("copie_flux"@.len() == 10);
    }
    assert("format"@ != "speed"@) by {
        reveal_strlit("format");
        reveal_strlit("speed");
        assert("format"@.len() == 6);
        assert("speed"@.len() == 5);
    }
    assert("copie_flux"@ != "speed"@) by {
        reveal_strlit("copie_flux");
        reveal_strlit("speed");
        assert("copie_flux"@.len() == 10);
        assert("speed"@.len() == 5);
    }
    assert("format"@ != "qualite"@) by {
        reveal_strlit("format");
        reveal_strlit("qualite");
        assert("format"@.len() == 6);
        assert("qualite"@.len() == 7);
    }
    assert("format"@ != "ratio_img"@) by {
        reveal_strlit("format");
        reveal_strlit("ratio_img");
        assert("format"@.len() == 6);
        assert("ratio_img"@.len() == 9);
    }
    assert("fr"@ != "en"@) by {
        reveal_strlit("fr");
        reveal_strlit("en");
        assert("fr"@[0] == 'f');
        assert("en"@[0] == 'e');
    }
}

proof fn lemma_autres_sections(d: Map<Seq<char>, Option<Map<Seq<char>, VueValeur>>>, p: Seq<VueModif>, s: Seq<char>)
    requires
        forall|j: int| 0 <= j < p.len() ==> section_de(#[trigger] p[j]) == s,
        s != "display"@,
        s != "performance"@,
        s != "app"@,
        s != "scrapper"@,
        s != "rename"@,
    ensures
        forall|t: Seq<char>| (t == "display"@ || t == "performance"@ || t == "app"@ || t == "scrapper"@
                || t == "rename"@)
            ==> (#[trigger] applique(d, p).contains_key(t)) == d.contains_key(t)
                && (d.contains_key(t) ==> applique(d, p)[t] == d[t]),
{
    lemma_hors_section(d, p, "rename"@);
    lemma_hors_section(d, p, "display"@);
    lemma_hors_section(d, p, "performance"@);
    lemma_hors_section(d, p, "app"@);
    lemma_hors_section(d, p, "scrapper"@);
}

pub(crate) proof fn lemma_trois(d: Map<Seq<char>, Option<Map<Seq<char>, VueValeur>>>, x: VueModif, y: VueModif, z: VueModif)
    ensures
        applique(d, seq![x, y, z]) == applique_une(applique_une(applique_une(d, x), y), z),
{
    assert(seq![x, y, z].drop_last() =~= seq![x, y]);
    assert(seq![x, y].drop_last() =~= seq![x]);
    assert(seq![x].drop_last() =~= Seq::<VueModif>::empty());
    assert(applique(d, Seq::<VueModif>::empty()) == d);
    assert(applique(d, seq![x]) == applique_une(d, x));
    assert(applique(d, seq![x, y]) == applique_une(applique_une(d, x), y));
}

/// What saving writes for the active module.
proof fn lemma_module(v: VueReglages, d: Map<Seq<char>, Option<Map<Seq<char>, VueValeur>>>)
    ensures
        ({
            let e = applique(d, modifs_module(v));
            &&& forall|t: Seq<char>| (t == "display"@ || t == "performance"@ || t == "app"@ || t == "scrapper"@
                    || t == "rename"@)
                ==> (#[trigger] e.contains_key(t)) == d.contains_key(t) && (d.contains_key(t) ==> e[t] == d[t])
        }),
        section_format(v.module_actif) matches Some(s) && section_libre(d, s) ==> ({
            let e = applique(d, modifs_module(v));
            &&& garde_format(v) && v.format_choisi.len() > 0 ==> (section_format(v.module_actif) matches Some(s)
                && cherche(e, s, "format"@) == Some(VueValeur::Texte(v.format_choisi)))
            &&& v.module_actif == ModuleType::Image ==>
                cherche(e, "image"@, "ratio_img"@) == Some(VueValeur::Entier(v.ratio_img as i64))
            &&& v.module_actif == ModuleType::Archive ==> {
                &&& cherche(e, "archive"@, "niveau"@) == Some(VueValeur::Entier(v.archive_niveau as i64))
                &&& cherche(e, "archive"@, "backup_source"@) == Some(VueValeur::Texte(v.archive_backup_source))
                &&& cherche(e, "archive"@, "backup_dest"@) == Some(VueValeur::Texte(v.archive_backup_dest))
                &&& cherche(e, "archive"@, "backup_exclusions"@) == Some(VueValeur::Texte(v.archive_backup_exclusions))
                &&& cherche(e, "archive"@, "multi_source"@) == Some(VueValeur::Texte(v.archive_multi_source))
            }
            &&& v.module_actif == ModuleType::Audio ==>
                cherche(e, "audio"@, "qualite"@) == Some(VueValeur::Entier(v.audio_qualite as i64))
            &&& v.module_actif == ModuleType::Video ==> {
                &&& cherche(e, "video"@, "copie_flux"@) == Some(VueValeur::Booleen(v.copie_flux))
                &&& cherche(e, "video"@, "speed"@) == Some(VueValeur::Entier(v.video_speed as i64))
            }
        }),
{
    lemma_noms();
    let m = modifs_module(v);
    let garde = garde_format(v) && v.format_choisi.len() > 0;
    let fmt = |s: Seq<char>| if garde {
        seq![ins(s, "format"@, VueValeur::Texte(v.format_choisi))]
    } else if !garde_format(v) {
        seq![VueModif::Retirer(s, "format"@)]
    } else {
        Seq::<VueModif>::empty()
    };
    match v.module_actif {
        ModuleType::Doc => {
            if garde {
                let x = ins("doc"@, "format"@, VueValeur::Texte(v.format_choisi));
                assert(m =~= seq![x]);
                lemma_un(d, x);
            } else if !garde_format(v) {
                let x = VueModif::Retirer("doc"@, "format"@);
                assert(m =~= seq![x]);
                lemma_un(d, x);
            } else {
                assert(m =~= Seq::<VueModif>::empty());
            }
            lemma_autres_sections(d, m, "doc"@);
        },
        ModuleType::Image => {
            let r = ins("image"@, "ratio_img"@, VueValeur::Entier(v.ratio_img as i64));
            if garde {
                assert(m =~= seq![ins("image"@, "format"@, VueValeur::Texte(v.format_choisi)), r, r]);
                lemma_trois(d, m[0], r, r);
            } else if !garde_format(v) {
                assert(m =~= seq![VueModif::Retirer("image"@, "format"@), r]);
                lemma_concat(d, seq![m[0]], seq![r]);
                lemma_un(d, m[0]);
                lemma_un(applique(d, seq![m[0]]), r);
                assert(seq![m[0]] + seq![r] =~= m);
            } else {
                assert(m =~= seq![r]);
                lemma_un(d, r);
            }
            lemma_autres_sections(d, m, "image"@);
        },
        ModuleType::Archive => {
            let p = seq![
                ins("archive"@, "niveau"@, VueValeur::Entier(v.archive_niveau as i64)),
                ins("archive"@, "backup_source"@, VueValeur::Texte(v.archive_backup_source)),
                ins("archive"@, "backup_dest"@, VueValeur::Texte(v.archive_backup_dest)),
                ins("archive"@, "backup_exclusions"@, VueValeur::Texte(v.archive_backup_exclusions)),
                ins("archive"@, "multi_source"@, VueValeur::Texte(v.archive_multi_source)),
            ];
            let f = fmt("archive"@);
            assert(m =~= f + p);
            lemma_concat(d, f, p);
            if f.len() > 0 { lemma_un(d, f[0]); }
            let d1 = applique(d, f);
            let p1 = seq![p[0], p[1], p[2]];
            let p2 = seq![p[3], p[4]];
            assert(p =~= p1 + p2);
            lemma_concat(d1, p1, p2);
            lemma_trois(d1, p[0], p[1], p[2]);
            let d2 = applique(d1, p1);
            lemma_concat(d2, seq![p[3]], seq![p[4]]);
            assert(seq![p[3]] + seq![p[4]] =~= p2);
            lemma_un(d2, p[3]);
            lemma_un(applique(d2, seq![p[3]]), p[4]);
            lemma_autres_sections(d, m, "archive"@);
        },
        ModuleType::Audio => {
            let q = ins("audio"@, "qualite"@, VueValeur::Entier(v.audio_qualite as i64));
            let f = fmt("audio"@);
            assert(m =~= f + seq![q]);
            lemma_concat(d, f, seq![q]);
            if f.len() > 0 { lemma_un(d, f[0]); }
            lemma_un(applique(d, f), q);
            lemma_autres_sections(d, m, "audio"@);
        },
        ModuleType::Video => {
            let c = ins("video"@, "copie_flux"@, VueValeur::Booleen(v.copie_flux));
            let sp = ins("video"@, "speed"@, VueValeur::Entier(v.video_speed as i64));
            let f = fmt("video"@);
            assert(m =~= f + seq![c, sp]);
            lemma_concat(d, f, seq![c, sp]);
            if f.len() > 0 { lemma_un(d, f[0]); }
            let d1 = applique(d, f);
            lemma_concat(d1, seq![c], seq![sp]);
            assert(seq![c] + seq![sp] =~= seq![c, sp]);
            lemma_un(d1, c);
            lemma_un(applique(d1, seq![c]), sp);
            lemma_autres_sections(d, m, "video"@);
        },
        _ => {
            assert(m =~= Seq::<VueModif>::empty());
        },
    }
}

/// Saving the settings and reading them back (into settings of any module;
/// the output format is read into settings of the same module) gives them
/// again, each from its own section, wherever that
/// section is a table or absent in the file before the save (a plain value
/// under that name takes no key): the theme (`display`), the number of
/// parallel jobs (`performance`), the language (`app`; `fr`, any other being
/// read back as `en`), the keys file when one is set (`scrapper`), the last
/// list of replacements when one is set (`rename`), and the settings of the
/// active module with its output format when that is to be kept and not
/// empty (the module's section).
#[verifier::rlimit(80)]
pub proof fn loi_config_relue(
    v: VueReglages,
    a: VueReglages,
    d: Map<Seq<char>, Option<Map<Seq<char>, VueValeur>>>,
)
    ensures
        ({
            let r = charge(a, applique(d, modifs_sauvegarde(v)));
            &&& section_libre(d, "display"@) ==> r.current_theme == v.current_theme
            &&& section_libre(d, "performance"@) ==> r.max_parallel_jobs == v.max_parallel_jobs
            &&& section_libre(d, "app"@) ==> r.lang_id == if v.lang_id == "fr"@ { "fr"@ } else { "en"@ }
            &&& section_libre(d, "scrapper"@) && v.keys_env_path is Some ==> r.keys_env_path == v.keys_env_path
            &&& section_libre(d, "rename"@) && v.rename_last_list_path is Some
                ==> r.rename_last_list_path == v.rename_last_list_path
            &&& (section_format(v.module_actif) matches Some(s) && section_libre(d, s)) ==> {
                &&& a.module_actif == v.module_actif && garde_format(v) && v.format_choisi.len() > 0
                    ==> r.format_choisi == v.format_choisi
                &&& v.module_actif == ModuleType::Image ==> r.ratio_img == v.ratio_img
                &&& v.module_actif == ModuleType::Archive ==> {
                    &&& r.archive_niveau == v.archive_niveau
                    &&& r.archive_backup_source == v.archive_backup_source
                    &&& r.archive_backup_dest == v.archive_backup_dest
                    &&& r.archive_backup_exclusions == v.archive_backup_exclusions
                    &&& r.archive_multi_source == v.archive_multi_source
                }
                &&& v.module_actif == ModuleType::Audio ==> r.audio_qualite == v.audio_qualite
                &&& v.module_actif == ModuleType::Video ==> r.copie_flux == v.copie_flux && r.video_speed == v.video_speed
            }
        }),
{
    lemma_noms();
    let a0 = seq![ins("display"@, "theme"@, VueValeur::Texte(v.current_theme))];
    let a1 = seq![ins("performance"@, "max_parallel_jobs"@, VueValeur::Entier(v.max_parallel_jobs as i64))];
    let a2 = seq![ins("app"@, "lang"@, VueValeur::Texte(v.lang_id))];
    let a3 = seq![VueModif::Creer("scrapper"@)];
    let a4 = seq![match v.keys_env_path {
        Some(p) => ins("scrapper"@, "keys_path"@, VueValeur::Texte(p)),
        None => VueModif::Retirer("scrapper"@, "keys_path"@),
    }];
    let m = modifs_module(v);
    let r0 = VueModif::Creer("rename"@);
    let r1 = match v.rename_last_list_path {
        Some(p) => ins("rename"@, "last_list_path"@, VueValeur::Texte(p)),
        None => VueModif::Retirer("rename"@, "last_list_path"@),
    };
    let r = seq![r0, r1];
    assert(modifs_sauvegarde(v) =~= a0 + a1 + a2 + a3 + a4 + m + r);
    lemma_concat(d, a0 + a1 + a2 + a3 + a4 + m, r);
    lemma_concat(d, a0 + a1 + a2 + a3 + a4, m);
    lemma_concat(d, a0 + a1 + a2 + a3, a4);
    lemma_concat(d, a0 + a1 + a2, a3);
    lemma_concat(d, a0 + a1, a2);
    lemma_concat(d, a0, a1);
    lemma_un(d, a0[0]);
    let d1 = applique(d, a0);
    lemma_un(d1, a1[0]);
    let d2 = applique(d1, a1);
    lemma_un(d2, a2[0]);
    let d3 = applique(d2, a2);
    lemma_un(d3, a3[0]);
    let d4 = applique(d3, a3);
    lemma_un(d4, a4[0]);
    let d5 = applique(d4, a4);
    let d6 = applique(d5, m);
    lemma_concat(d6, seq![r0], seq![r1]);
    assert(seq![r0] + seq![r1] =~= r);
    lemma_un(d6, r0);
    lemma_un(applique(d6, seq![r0]), r1);
    let d7 = applique(d6, r);
    assert(applique(d, modifs_sauvegarde(v)) == d7);
    assert forall|j: int| 0 <= j < r.len() implies section_de(#[trigger] r[j]) == "rename"@ by {}
    lemma_hors_section(d6, r, "display"@);
    lemma_hors_section(d6, r, "performance"@);
    lemma_hors_section(d6, r, "app"@);
    lemma_hors_section(d6, r, "scrapper"@);
    lemma_hors_section(d6, r, "doc"@);
    lemma_hors_section(d6, r, "image"@);
    lemma_hors_section(d6, r, "archive"@);
    lemma_hors_section(d6, r, "audio"@);
    lemma_hors_section(d6, r, "video"@);
    lemma_module(v, d5);
    let p = a0 + a1 + a2 + a3 + a4;
    assert forall|j: int| 0 <= j < p.len() implies section_de(#[trigger] p[j]) == "display"@
        || section_de(p[j]) == "performance"@ || section_de(p[j]) == "app"@ || section_de(p[j]) == "scrapper"@ by {
        if j == 0 { assert(p[j] == a0[0]); }
        else if j == 1 { assert(p[j] == a1[0]); }
        else if j == 2 { assert(p[j] == a2[0]); }
        else if j == 3 { assert(p[j] == a3[0]); }
        else { assert(p[j] == a4[0]); }
    }
    assert(applique(d, p) == d5);
    lemma_hors_section(d, p, "rename"@);
    if let Some(s) = section_format(v.module_actif) {
        lemma_hors_section(d, p, s);
    }
    if section_libre(d, "display"@) {
        assert(cherche(d7, "display"@, "theme"@) == Some(VueValeur::Texte(v.current_theme)));
    }
    if section_libre(d, "performance"@) {
        let x = v.max_parallel_jobs;
        assert(((x as i64) as usize) == x) by (bit_vector);
        assert(cherche(d7, "performance"@, "max_parallel_jobs"@) == Some(VueValeur::Entier(x as i64)));
    }
    if section_libre(d, "app"@) {
        assert(cherche(d7, "app"@, "lang"@) == Some(VueValeur::Texte(v.lang_id)));
    }
    if section_libre(d, "rename"@) && v.rename_last_list_path is Some {
        assert(section_libre(d6, "rename"@));
        assert(cherche(d7, "rename"@, "last_list_path"@) == Some(VueValeur::Texte(v.rename_last_list_path->0)));
    }
}

} // verus!
