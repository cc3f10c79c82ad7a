use vstd::prelude::*;
use vstd::string::StringExecFns;
use std::io::Read;
use crate::pdf::niveau_compression;
use crate::fusion::IdObjet;

verus! {

broadcast use vstd::string::group_string_axioms;

// ───────────────────────── PDF files as bytes (lopdf) ─────────────────────────

/// How a lopdf step failed, with lopdf's message: loading the bytes,
/// decrypting, extracting the text, or saving.
pub enum EchecPdf {
    Chargement(String),
    Dechiffrement(String),
    Extraction(String),
    Sauvegarde(String),
}

/// The bytes of a PDF repaired by lopdf: loaded, its empty streams dropped,
/// its unused objects pruned, its objects renumbered, its streams
/// compressed, saved; `None` when lopdf cannot load or save it.
pub uninterp spec fn pdf_repare(octets: Seq<u8>) -> Option<Seq<u8>>;

/// Repairs a PDF with lopdf (`Document::load_mem`, `delete_zero_length_streams`,
/// `prune_objects`, `renumber_objects`, `compress`, `save_to`); what the
/// repaired bytes are is lopdf's.
#[verifier::external_body]
fn reparer_octets(octets: &[u8]) -> (r: Result<Vec<u8>, EchecPdf>)
    ensures
        match pdf_repare(octets@) {
            Some(b) => r matches Ok(v) && v@ == b,
            None => r is Err,
        },
{
    let mut doc = lopdf::Document::load_mem(octets).map_err(|e| EchecPdf::Chargement(e.to_string()))?;
    doc.delete_zero_length_streams();
    doc.prune_objects();
    doc.renumber_objects();
    doc.compress();
    let mut v = Vec::new();
    doc.save_to(&mut v).map_err(|e| EchecPdf::Sauvegarde(e.to_string()))?;
    Ok(v)
}

/// The bytes of a PDF unlocked by lopdf with a password: loaded, decrypted
/// when it is encrypted, its `/Encrypt` entry removed, saved; `None` when
/// lopdf cannot load, decrypt or save it.
pub uninterp spec fn pdf_dechiffre(octets: Seq<u8>, mot_de_passe: Seq<char>) -> Option<Seq<u8>>;

/// Unlocks a PDF with lopdf (`Document::load_mem`, then `decrypt` with the
/// password when `is_encrypted`, which is lopdf's loading with a password;
/// the trailer's `Encrypt` removed; `save_to`).
#[verifier::external_body]
fn dechiffrer_octets(octets: &[u8], mot_de_passe: &str) -> (r: Result<Vec<u8>, EchecPdf>)
    ensures
        match pdf_dechiffre(octets@, mot_de_passe@) {
            Some(b) => r matches Ok(v) && v@ == b,
            None => r is Err,
        },
{
    let mut doc = lopdf::Document::load_mem(octets).map_err(|e| EchecPdf::Chargement(e.to_string()))?;
    if doc.is_encrypted() {
        doc.decrypt(mot_de_passe).map_err(|e| EchecPdf::Dechiffrement(e.to_string()))?;
    }
    doc.trailer.remove(b"Encrypt");
    let mut v = Vec::new();
    doc.save_to(&mut v).map_err(|e| EchecPdf::Sauvegarde(e.to_string()))?;
    Ok(v)
}

/// The bytes of a PDF compressed by lopdf at a zlib level: repaired as by
/// `pdf_repare`, then saved with object and cross-reference streams;
/// `None` when lopdf cannot load or save it.
pub uninterp spec fn pdf_compresse(octets: Seq<u8>, niveau: u32) -> Option<Seq<u8>>;

/// Compresses a PDF with lopdf (the calls of `reparer_octets`, then
/// `save_with_options` with object streams, cross-reference streams and the
/// level given).
#[verifier::external_body]
fn compresser_octets(octets: &[u8], niveau: u32) -> (r: Result<Vec<u8>, EchecPdf>)
    ensures
        match pdf_compresse(octets@, niveau) {
            Some(b) => r matches Ok(v) && v@ == b,
            None => r is Err,
        },
{
    let mut doc = lopdf::Document::load_mem(octets).map_err(|e| EchecPdf::Chargement(e.to_string()))?;
    doc.delete_zero_length_streams();
    doc.prune_objects();
    doc.renumber_objects();
    doc.compress();
    let o = lopdf::SaveOptions::builder().use_object_streams(true).use_xref_streams(true).compression_level(niveau).build();
    let mut v = Vec::new();
    doc.save_with_options(&mut v, o).map_err(|e| EchecPdf::Sauvegarde(e.to_string()))?;
    Ok(v)
}

/// The text of every page of a PDF, as lopdf extracts it; `None` when
/// lopdf cannot load the PDF or extract its text.
pub uninterp spec fn pdf_texte(octets: Seq<u8>) -> Option<Seq<char>>;

/// Extracts the text of a PDF with lopdf (`Document::load_mem`, the numbers
/// of `get_pages`, `extract_text`).
#[verifier::external_body]
fn texte_octets(octets: &[u8]) -> (r: Result<String, EchecPdf>)
    ensures
        match pdf_texte(octets@) {
            Some(t) => r matches Ok(s) && s@ == t,
            None => r is Err,
        },
{
    let doc = lopdf::Document::load_mem(octets).map_err(|e| EchecPdf::Chargement(e.to_string()))?;
    let pages: Vec<u32> = doc.get_pages().keys().copied().collect();
    doc.extract_text(&pages).map_err(|e| EchecPdf::Extraction(e.to_string()))
}

/// A message followed by an outside error's text.
pub(crate) fn message(prefixe: &str, e: String) -> (r: String)
    ensures
        r@ == prefixe@ + e@,
        commence(r@, prefixe@),
{
    let mut m = String::from_str(prefixe);
    m.append(e.as_str());
    assert(m@.take(prefixe@.len() as int) =~= prefixe@);
    m
}

/// Whether a text begins with another.
pub open spec fn commence(m: Seq<char>, p: Seq<char>) -> bool {
    p.len() <= m.len() && m.take(p.len() as int) == p
}

/// Whether an error message begins with one of two prefixes (the rest is
/// the outside crate's message).
pub open spec fn message_de(m: Seq<char>, a: Seq<char>, b: Seq<char>) -> bool {
    commence(m, a) || commence(m, b)
}

/// Repairs the bytes of a PDF (`pdf_reparer`): see `pdf_repare`. A failure
/// to load is `Erreur chargement PDF (fichier trop corrompu ?) : ...`, a
/// failure to save `Erreur sauvegarde : ...`.
pub fn pdf_reparer(octets: &[u8]) -> (r: Result<Vec<u8>, String>)
    ensures
        match pdf_repare(octets@) {
            Some(b) => r matches Ok(v) && v@ == b,
            None => r matches Err(m) && message_de(m@, "Erreur chargement PDF (fichier trop corrompu ?) : "@,
                "Erreur sauvegarde : "@),
        },
{
    match reparer_octets(octets) {
        Ok(v) => Ok(v),
        Err(EchecPdf::Sauvegarde(e)) => Err(message("Erreur sauvegarde : ", e)),
        Err(EchecPdf::Chargement(e)) | Err(EchecPdf::Dechiffrement(e)) | Err(EchecPdf::Extraction(e)) =>
            Err(message("Erreur chargement PDF (fichier trop corrompu ?) : ", e)),
    }
}

/// Unlocks the bytes of a PDF with its password (`pdf_dechiffrer`): see
/// `pdf_dechiffre`. A failure to load or decrypt is `Mot de passe incorrect
/// ou erreur chargement/déchiffrement : ...`, a failure to save `Erreur
/// sauvegarde : ...`.
pub fn pdf_dechiffrer(octets: &[u8], mot_de_passe: &str) -> (r: Result<Vec<u8>, String>)
    ensures
        match pdf_dechiffre(octets@, mot_de_passe@) {
            Some(b) => r matches Ok(v) && v@ == b,
            None => r matches Err(m) && message_de(m@,
                "Mot de passe incorrect ou erreur chargement/déchiffrement : "@, "Erreur sauvegarde : "@),
        },
{
    match dechiffrer_octets(octets, mot_de_passe) {
        Ok(v) => Ok(v),
        Err(EchecPdf::Sauvegarde(e)) => Err(message("Erreur sauvegarde : ", e)),
        Err(EchecPdf::Chargement(e)) | Err(EchecPdf::Dechiffrement(e)) | Err(EchecPdf::Extraction(e)) =>
            Err(message("Mot de passe incorrect ou erreur chargement/déchiffrement : ", e)),
    }
}

/// Compresses the bytes of a PDF (the work of `pdf_compresser`): the
/// compressed bytes (see `pdf_compresse`, at the level `niveau_compression`
/// gives) and the bytes saved (none when the file grew). A failure to load
/// is `Erreur chargement PDF : ...`, a failure to save `Erreur sauvegarde : ...`.
pub fn compresser_pdf(octets: &[u8], niveau: u32) -> (r: Result<(Vec<u8>, u64), String>)
    ensures
        match pdf_compresse(octets@, if niveau < 9 { niveau } else { 9 }) {
            Some(b) => r matches Ok((v, gain)) && v@ == b
                && gain == if octets.len() >= b.len() { octets.len() - b.len() } else { 0 },
            None => r matches Err(m) && message_de(m@, "Erreur chargement PDF : "@, "Erreur sauvegarde : "@),
        },
{
    match compresser_octets(octets, niveau_compression(niveau)) {
        Ok(v) => {
            let avant = octets.len() as u64;
            let apres = v.len() as u64;
            let gain = crate::pdf::pdf_compresser(avant, apres);
            Ok((v, gain))
        },
        Err(EchecPdf::Sauvegarde(e)) => Err(message("Erreur sauvegarde : ", e)),
        Err(EchecPdf::Chargement(e)) | Err(EchecPdf::Dechiffrement(e)) | Err(EchecPdf::Extraction(e)) =>
            Err(message("Erreur chargement PDF : ", e)),
    }
}

/// The text of a PDF (`lire_pdf_texte`): see `pdf_texte`. A failure to load
/// is `Erreur chargement PDF : ...`, a failure to extract `Erreur extraction
/// texte PDF : ...`.
pub fn lire_pdf_texte(octets: &[u8]) -> (r: Result<String, String>)
    ensures
        match pdf_texte(octets@) {
            Some(t) => r matches Ok(s) && s@ == t,
            None => r matches Err(m) && message_de(m@, "Erreur chargement PDF : "@,
                "Erreur extraction texte PDF : "@),
        },
{
    match texte_octets(octets) {
        Ok(s) => Ok(s),
        Err(EchecPdf::Extraction(e)) => Err(message("Erreur extraction texte PDF : ", e)),
        Err(EchecPdf::Chargement(e)) | Err(EchecPdf::Dechiffrement(e)) | Err(EchecPdf::Sauvegarde(e)) =>
            Err(message("Erreur chargement PDF : ", e)),
    }
}

// ───────────────────────── ZIP archives (zip) ─────────────────────────

/// How reading a member of a ZIP archive failed, with the zip crate's
/// message: the archive, the member's name, or its UTF-8 text.
pub enum EchecZip {
    Archive(String),
    Membre(String),
    Lecture(String),
}

/// The text of the member named `nom` of a ZIP archive; `None` when the
/// bytes are no ZIP archive, it has no such member, or the member is not
/// UTF-8 text.
pub uninterp spec fn entree_zip(archive: Seq<u8>, nom: Seq<char>) -> Option<Seq<char>>;

/// Reads a member of a ZIP archive held in memory (`zip::ZipArchive::new`
/// over a `Cursor`, `by_name`, `read_to_string`).
#[verifier::external_body]
fn lire_entree_zip(archive: &[u8], nom: &str) -> (r: Result<String, EchecZip>)
    ensures
        match entree_zip(archive@, nom@) {
            Some(t) => r matches Ok(s) && s@ == t,
            None => r is Err,
        },
{
    let mut z = zip::ZipArchive::new(std::io::Cursor::new(archive)).map_err(|e| EchecZip::Archive(e.to_string()))?;
    let mut m = z.by_name(nom).map_err(|e| EchecZip::Membre(e.to_string()))?;
    let mut t = String::new();
    m.read_to_string(&mut t).map_err(|e| EchecZip::Lecture(e.to_string()))?;
    Ok(t)
}

/// The errors of reading a member: the archive unreadable, the member
/// missing, its text unreadable.
pub open spec fn message_zip(m: Seq<char>, genre: Seq<char>, nom: Seq<char>) -> bool {
    commence(m, "Erreur lecture ZIP "@ + genre + " : "@) || commence(m, nom + " introuvable : "@)
        || commence(m, "Erreur lecture XML : "@)
}

/// The text of a member of an office archive (`genre` names the kind of
/// document in the messages): see `entree_zip`.
pub fn membre_zip(archive: &[u8], nom: &str, genre: &str) -> (r: Result<String, String>)
    ensures
        match entree_zip(archive@, nom@) {
            Some(t) => r matches Ok(s) && s@ == t,
            None => r matches Err(m) && message_zip(m@, genre@, nom@),
        },
{
    match lire_entree_zip(archive, nom) {
        Ok(t) => Ok(t),
        Err(EchecZip::Archive(e)) => {
            let mut m = String::from_str("Erreur lecture ZIP ");
            m.append(genre);
            m.append(" : ");
            m.append(e.as_str());
            assert(m@ =~= "Erreur lecture ZIP "@ + genre@ + " : "@ + e@);
            assert(m@.take(("Erreur lecture ZIP "@ + genre@ + " : "@).len() as int) =~= "Erreur lecture ZIP "@ + genre@ + " : "@);
            assert(message_zip(m@, genre@, nom@));
            Err(m)
        },
        Err(EchecZip::Membre(e)) => {
            let mut m = String::from_str(nom);
            m.append(" introuvable : ");
            m.append(e.as_str());
            assert(m@ =~= nom@ + " introuvable : "@ + e@);
            assert(m@.take((nom@ + " introuvable : "@).len() as int) =~= nom@ + " introuvable : "@);
            assert(message_zip(m@, genre@, nom@));
            Err(m)
        },
        Err(EchecZip::Lecture(e)) => {
            let m = message("Erreur lecture XML : ", e);
            assert(message_zip(m@, genre@, nom@));
            Err(m)
        },
    }
}


// ───────────────────────── writing a ZIP archive ─────────────────────────

/// An archive being made in memory by the zip crate (a `zip::ZipWriter`
/// over a `Cursor`). Verus does not take the writer's declaration (its
/// bounds are traits of `std::io`), so it stays hidden in a private field;
/// its contents are named by `entrees_ecrites`.
#[verifier::external_body]
struct ArchiveEnCours {
    w: zip::ZipWriter<std::io::Cursor<Vec<u8>>>,
}

/// The entries written so far into an archive being made in memory: name,
/// text, and whether it is compressed (else stored).
pub uninterp spec fn entrees_ecrites(w: ArchiveEnCours) -> Seq<(Seq<char>, Seq<char>, bool)>;

/// The bytes of the ZIP archive that the zip crate makes of these entries,
/// in this order.
pub uninterp spec fn zip_de(entrees: Seq<(Seq<char>, Seq<char>, bool)>) -> Seq<u8>;

/// The number of bytes of a character in UTF-8.
pub open spec fn octets_car(c: char) -> nat {
    if (c as u32) < 0x80 { 1 } else if (c as u32) < 0x800 { 2 } else if (c as u32) < 0x10000 { 3 } else { 4 }
}

/// The number of bytes of a text in UTF-8.
pub open spec fn octets_utf8(s: Seq<char>) -> nat
    decreases s.len(),
{
    if s.len() == 0 { 0 } else { octets_utf8(s.drop_last()) + octets_car(s.last()) }
}

/// Whether a name is among the entries.
pub open spec fn nom_present(es: Seq<(Seq<char>, Seq<char>, bool)>, nom: Seq<char>) -> bool {
    exists|i: int| 0 <= i < es.len() && (#[trigger] es[i]).0 == nom
}

/// Entries that a ZIP archive can hold: names distinct and at most 65535
/// bytes, texts short enough to need no ZIP64 record.
pub open spec fn entrees_valides(es: Seq<(Seq<char>, Seq<char>, bool)>) -> bool {
    &&& forall|i: int, j: int| 0 <= i < j < es.len() ==> (#[trigger] es[i]).0 != (#[trigger] es[j]).0
    &&& forall|i: int| 0 <= i < es.len() ==> octets_utf8((#[trigger] es[i]).0) <= 65535
        && es[i].1.len() <= 0x3FFF_FFFF
}

/// How writing a ZIP archive failed, with the zip crate's message: starting
/// an entry, writing its text, or finishing the archive.
pub enum EchecEcritureZip {
    Entree(String),
    Ecriture(String),
    Fin(String),
}

/// A new archive in memory (`zip::ZipWriter::new` over a `Cursor`).
#[verifier::external_body]
fn archive_vide() -> (r: ArchiveEnCours)
    ensures
        entrees_ecrites(r) == Seq::<(Seq<char>, Seq<char>, bool)>::empty(),
{
    ArchiveEnCours { w: zip::ZipWriter::new(std::io::Cursor::new(Vec::new())) }
}

/// Adds an entry (`start_file`, Deflated or Stored, then `write_all` of
/// its text); when both succeed it is the last entry written. The name's
/// length goes into a 16-bit field that the zip crate fills with `unwrap`,
/// hence the bound. `start_file` fails only on a name already written
/// ("Duplicate filename"), and writing into memory fails only past the
/// ZIP64 threshold of 4 GiB, which a text of at most 2^30 characters cannot
/// reach.
#[verifier::external_body]
fn ajouter_entree(w: &mut ArchiveEnCours, nom: &str, contenu: &str, compresse: bool)
    -> (r: Result<(), EchecEcritureZip>)
    requires
        octets_utf8(nom@) <= 65535,
    ensures
        r is Ok ==> entrees_ecrites(*final(w)) == entrees_ecrites(*old(w)).push((nom@, contenu@, compresse)),
        !nom_present(entrees_ecrites(*old(w)), nom@) && contenu@.len() <= 0x3FFF_FFFF ==> r is Ok,
{
    let m = if compresse { zip::CompressionMethod::Deflated } else { zip::CompressionMethod::Stored };
    let o = zip::write::SimpleFileOptions::default().compression_method(m);
    w.w.start_file(nom, o).map_err(|e| EchecEcritureZip::Entree(e.to_string()))?;
    std::io::Write::write_all(&mut w.w, contenu.as_bytes()).map_err(|e| EchecEcritureZip::Ecriture(e.to_string()))
}

/// Finishes the archive (`finish`) and gives its bytes; over a `Cursor`
/// in memory there is no input or output to fail.
#[verifier::external_body]
fn finir_archive(w: ArchiveEnCours) -> (r: Result<Vec<u8>, EchecEcritureZip>)
    ensures
        r is Ok,
        r matches Ok(v) ==> v@ == zip_de(entrees_ecrites(w)),
{
    w.w.finish().map(|c| c.into_inner()).map_err(|e| EchecEcritureZip::Fin(e.to_string()))
}

/// The bytes of the ZIP archive of a document's entries, in order (the
/// DOCX, ODT and EPUB writers' entries). It succeeds when the names are
/// distinct and the texts within the ZIP limits; else the error says at
/// which step (`Erreur ZIP`, `Erreur écriture`, `Erreur finalisation ZIP`).
/// A name over 65535 bytes is left out: the zip crate panics on it.
pub fn archive_zip(entrees: &Vec<crate::ecriture::EntreeArchive>) -> (r: Result<Vec<u8>, String>)
    requires
        forall|i: int| 0 <= i < entrees.len() ==> octets_utf8((#[trigger] entrees@[i]).nom@) <= 65535,
    ensures
        r matches Ok(v) ==> v@ == zip_de(crate::ecriture::vues_entrees(entrees@)),
        entrees_valides(crate::ecriture::vues_entrees(entrees@)) ==> r is Ok,
        r matches Err(m) ==> commence(m@, "Erreur ZIP : "@) || commence(m@, "Erreur écriture : "@)
            || commence(m@, "Erreur finalisation ZIP : "@),
{
    let mut w = archive_vide();
    let mut i: usize = 0;
    while i < entrees.len()
        invariant
            i <= entrees.len(),
            forall|k: int| 0 <= k < entrees.len() ==> octets_utf8((#[trigger] entrees@[k]).nom@) <= 65535,
            entrees_ecrites(w) == crate::ecriture::vues_entrees(entrees@).take(i as int),
        decreases entrees.len() - i,
    {
        let e = &entrees[i];
        let ghost es = crate::ecriture::vues_entrees(entrees@);
        proof {
            if entrees_valides(es) {
                assert(es[i as int] == crate::ecriture::vue_entree(*e));
                if nom_present(es.take(i as int), e.nom@) {
                    let k = choose|k: int| 0 <= k < es.take(i as int).len() && (#[trigger] es.take(i as int)[k]).0 == e.nom@;
                    assert(es[k] == es.take(i as int)[k]);
                    assert(es[k].0 != es[i as int].0);
                }
            }
        }
        match ajouter_entree(&mut w, e.nom.as_str(), e.contenu.as_str(), e.compresse) {
            Ok(()) => {},
            Err(EchecEcritureZip::Entree(x)) => return Err(message("Erreur ZIP : ", x)),
            Err(EchecEcritureZip::Ecriture(x)) | Err(EchecEcritureZip::Fin(x)) =>
                return Err(message("Erreur écriture : ", x)),
        }
        assert(crate::ecriture::vues_entrees(entrees@).take(i + 1)
            =~= crate::ecriture::vues_entrees(entrees@).take(i as int).push(crate::ecriture::vue_entree(*e)));
        i += 1;
    }
    assert(crate::ecriture::vues_entrees(entrees@).take(entrees.len() as int) =~= crate::ecriture::vues_entrees(entrees@));
    match finir_archive(w) {
        Ok(v) => Ok(v),
        Err(EchecEcritureZip::Fin(x)) | Err(EchecEcritureZip::Entree(x)) | Err(EchecEcritureZip::Ecriture(x)) =>
            Err(message("Erreur finalisation ZIP : ", x)),
    }
}

// ───────────────────────── Pages of a PDF: rotation and order (lopdf) ─────────────────────────

/// The pages of a PDF as lopdf loads it (`load_mem`, `get_pages`), in
/// order: whether the page object is a dictionary, and its `/Rotate` when
/// that is an integer; `None` when lopdf cannot load the bytes.
pub uninterp spec fn pages_pdf(octets: Seq<u8>) -> Option<Seq<(bool, Option<i64>)>>;

/// Reads the pages of a PDF (see `pages_pdf`).
#[verifier::external_body]
fn lire_pages(octets: &[u8]) -> (r: Result<Vec<(bool, Option<i64>)>, EchecPdf>)
    ensures
        match pages_pdf(octets@) {
            Some(p) => r matches Ok(v) && v@ == p,
            None => r is Err,
        },
{
    let doc = lopdf::Document::load_mem(octets).map_err(|e| EchecPdf::Chargement(e.to_string()))?;
    Ok(doc.get_pages().into_values().map(|p| match doc.get_object(p) {
        Ok(lopdf::Object::Dictionary(d)) => (true, match d.get(b"Rotate") {
            Ok(lopdf::Object::Integer(i)) => Some(*i),
            _ => None,
        }),
        _ => (false, None),
    }).collect())
}

/// The bytes of a PDF whose pages, by their place from 0, get these
/// `/Rotate` values (a page that is no dictionary is left as it is), saved
/// by lopdf (`save_to`); `None` when lopdf cannot load or save it.
pub uninterp spec fn pdf_tourne(octets: Seq<u8>, rotations: Seq<(usize, i64)>) -> Option<Seq<u8>>;

/// Sets the `/Rotate` of pages (see `pdf_tourne`); every place is a page.
#[verifier::external_body]
fn tourner_pages(octets: &[u8], rotations: &Vec<(usize, i64)>) -> (r: Result<Vec<u8>, EchecPdf>)
    requires
        pages_pdf(octets@) matches Some(p) && forall|k: int| 0 <= k < rotations.len() ==> (#[trigger] rotations@[k]).0 < p.len(),
    ensures
        match pdf_tourne(octets@, rotations@) {
            Some(b) => r matches Ok(v) && v@ == b,
            None => r is Err,
        },
{
    let mut doc = lopdf::Document::load_mem(octets).map_err(|e| EchecPdf::Chargement(e.to_string()))?;
    let pages: Vec<lopdf::ObjectId> = doc.get_pages().into_values().collect();
    for (i, r) in rotations {
        if let Ok(lopdf::Object::Dictionary(d)) = doc.get_object_mut(pages[*i]) {
            d.set("Rotate", lopdf::Object::Integer(*r));
        }
    }
    let mut v = Vec::new();
    doc.save_to(&mut v).map_err(|e| EchecPdf::Sauvegarde(e.to_string()))?;
    Ok(v)
}

/// The `/Pages` reference of a PDF's catalog, as lopdf reads it (`load_mem`,
/// `catalog`); `None` when lopdf cannot load it, it has no catalog, or its
/// `/Pages` is no reference.
pub uninterp spec fn arbre_pdf(octets: Seq<u8>) -> Option<IdObjet>;

/// How reordering the pages failed.
pub enum EchecOrdre {
    Chargement(String),
    Catalogue(String),
    Arbre,
    Sauvegarde(String),
}

/// Finds the page tree of a PDF (see `arbre_pdf`).
#[verifier::external_body]
fn trouver_arbre(octets: &[u8]) -> (r: Result<IdObjet, EchecOrdre>)
    ensures
        match arbre_pdf(octets@) {
            Some(a) => r matches Ok(x) && x == a,
            None => r is Err,
        },
{
    let doc = lopdf::Document::load_mem(octets).map_err(|e| EchecOrdre::Chargement(e.to_string()))?;
    let pages = doc.catalog().map_err(|e| EchecOrdre::Catalogue(e.to_string()))?.get(b"Pages");
    match pages {
        Ok(lopdf::Object::Reference(id)) => Ok(*id),
        _ => Err(EchecOrdre::Arbre),
    }
}

/// The bytes of a PDF whose page tree (the dictionary of id `arbre`) keeps
/// these pages, by their place from 0, in this order: they become its
/// `/Kids` and their number its `/Count`; then lopdf prunes the objects no
/// longer used, renumbers and saves; `None` when lopdf cannot load or save
/// it.
pub uninterp spec fn pdf_reordonne(octets: Seq<u8>, arbre: IdObjet, positions: Seq<usize>) -> Option<Seq<u8>>;

/// Reorders the pages of a PDF (see `pdf_reordonne`); every place is a page.
#[verifier::external_body]
fn reordonner_pages(octets: &[u8], arbre: IdObjet, positions: &Vec<usize>) -> (r: Result<Vec<u8>, EchecOrdre>)
    requires
        pages_pdf(octets@) matches Some(p) && forall|k: int| 0 <= k < positions.len() ==> (#[trigger] positions@[k]) < p.len(),
    ensures
        match pdf_reordonne(octets@, arbre, positions@) {
            Some(b) => r matches Ok(v) && v@ == b,
            None => r is Err,
        },
{
    let mut doc = lopdf::Document::load_mem(octets).map_err(|e| EchecOrdre::Chargement(e.to_string()))?;
    let pages: Vec<lopdf::ObjectId> = doc.get_pages().into_values().collect();
    let kids: Vec<lopdf::Object> = positions.iter().map(|i| lopdf::Object::Reference(pages[*i])).collect();
    if let Ok(lopdf::Object::Dictionary(d)) = doc.get_object_mut(arbre) {
        d.set("Count", lopdf::Object::Integer(kids.len() as i64));
        d.set("Kids", kids);
    }
    doc.prune_objects();
    doc.renumber_objects();
    let mut v = Vec::new();
    doc.save_to(&mut v).map_err(|e| EchecOrdre::Sauvegarde(e.to_string()))?;
    Ok(v)
}

pub(crate) fn texte_de_echec(e: EchecPdf) -> String {
    match e {
        EchecPdf::Chargement(m) | EchecPdf::Dechiffrement(m) | EchecPdf::Extraction(m) | EchecPdf::Sauvegarde(m) => m,
    }
}

/// The `/Rotate` of a page read (0 when it has none).
pub open spec fn rotation_lue(p: (bool, Option<i64>)) -> i64 {
    match p.1 {
        Some(i) => i,
        None => 0,
    }
}

/// Whether the current rotations leave room to turn (an addition of 270
/// at most that fits an `i64`).
pub open spec fn rotations_dans_limites(ps: Seq<(bool, Option<i64>)>) -> bool {
    ps.len() < u32::MAX && forall|i: int| 0 <= i < ps.len() ==> rotation_lue(#[trigger] ps[i]) <= i64::MAX - 270
}

/// The new `/Rotate` of the pages turned: each targeted page that is a
/// dictionary, by its place from 0, turns by `rotation` (modulo 360).
pub open spec fn changements_rotation(ps: Seq<(bool, Option<i64>)>, rotation: u16, cibles: Option<Seq<u32>>) -> Seq<(usize, i64)>
    decreases ps.len(),
{
    if ps.len() == 0 {
        Seq::empty()
    } else {
        let n = ps.len() - 1;
        let r = changements_rotation(ps.drop_last(), rotation, cibles);
        if ps[n].0 && crate::pdf::ciblee(cibles, n + 1) {
            r.push((n as usize, crate::pdf::reste(rotation_lue(ps[n]) + rotation, 360) as i64))
        } else {
            r
        }
    }
}

/// Turns pages of a PDF (`pdf_rotate`): the targeted pages (all when none
/// are given) that are dictionaries turn by 90, 180 or 270 degrees; see
/// `changements_rotation` and `pdf_tourne`.
pub fn tourner_pdf(octets: &[u8], rotation: u16, cibles: Option<&[u32]>) -> (r: Result<Vec<u8>, String>)
    ensures
        match pages_pdf(octets@) {
            None => r matches Err(m) && commence(m@, "Erreur chargement PDF : "@),
            Some(ps) => if !crate::pdf::rotation_valide(rotation) {
                r matches Err(m) && m@ == "Rotation invalide : "@ + crate::texte::decimal(rotation as nat) + ". Utilisez 90, 180 ou 270."@
            } else if !rotations_dans_limites(ps) {
                r matches Err(m) && m@ == "Rotation actuelle hors limites"@
            } else {
                match pdf_tourne(octets@, changements_rotation(ps, rotation, match cibles { Some(c) => Some(c@), None => None })) {
                    Some(b) => r matches Ok(v) && v@ == b,
                    None => r matches Err(m) && message_de(m@, "Erreur chargement PDF : "@, "Erreur sauvegarde : "@),
                }
            },
        },
{
    let ps = match lire_pages(octets) {
        Ok(p) => p,
        Err(e) => return Err(message("Erreur chargement PDF : ", texte_de_echec(e))),
    };
    if !(rotation == 90 || rotation == 180 || rotation == 270) {
        return match crate::pdf::pdf_rotate(&Vec::new(), rotation, cibles) {
            Err(m) => Err(m),
            Ok(_) => Err(String::new()),
        };
    }
    if ps.len() >= 0xFFFF_FFFF {
        return Err(String::from_str("Rotation actuelle hors limites"));
    }
    let mut actuelles: Vec<i64> = Vec::new();
    let mut i: usize = 0;
    while i < ps.len()
        invariant
            i <= ps.len(),
            pages_pdf(octets@) == Some(ps@),
            crate::pdf::rotation_valide(rotation),
            actuelles.len() == i,
            forall|j: int| 0 <= j < i ==> #[trigger] actuelles@[j] == rotation_lue(ps@[j]),
            forall|j: int| 0 <= j < i ==> rotation_lue(#[trigger] ps@[j]) <= i64::MAX - 270,
        decreases ps.len() - i,
    {
        let a = match ps[i].1 {
            Some(x) => x,
            None => 0,
        };
        if a > i64::MAX - 270 {
            assert(rotation_lue(ps@[i as int]) == a);
            return Err(String::from_str("Rotation actuelle hors limites"));
        }
        actuelles.push(a);
        i += 1;
    }
    let ghost vc = match cibles { Some(c) => Some(c@), None => None };
    let nouvelles = match crate::pdf::pdf_rotate(&actuelles, rotation, cibles) {
        Ok(v) => v,
        Err(m) => return Err(m),
    };
    let mut changements: Vec<(usize, i64)> = Vec::new();
    let mut i: usize = 0;
    assert(ps@.take(0) =~= Seq::<(bool, Option<i64>)>::empty());
    while i < ps.len()
        invariant
            i <= ps.len(),
            ps.len() < u32::MAX,
            nouvelles.len() == ps.len(),
            actuelles.len() == ps.len(),
            forall|j: int| 0 <= j < ps.len() ==> #[trigger] actuelles@[j] == rotation_lue(ps@[j]),
            forall|j: int| 0 <= j < nouvelles.len() ==> #[trigger] nouvelles@[j] == if crate::pdf::ciblee(vc, j + 1) {
                crate::pdf::reste(actuelles@[j] + rotation, 360)
            } else {
                actuelles@[j] as int
            },
            vc == match cibles { Some(c) => Some(c@), None => None },
            changements@ == changements_rotation(ps@.take(i as int), rotation, vc),
            forall|k: int| 0 <= k < changements.len() ==> (#[trigger] changements@[k]).0 < i,
        decreases ps.len() - i,
    {
        assert(ps@.take(i + 1).drop_last() =~= ps@.take(i as int));
        assert(ps@.take(i + 1)[i as int] == ps@[i as int]);
        let vise = match cibles {
            None => true,
            Some(c) => crate::pdf::contient_u32(c, (i + 1) as u32),
        };
        if ps[i].0 && vise {
            changements.push((i, nouvelles[i]));
        }
        i += 1;
    }
    assert(ps@.take(ps.len() as int) =~= ps@);
    match tourner_pages(octets, &changements) {
        Ok(v) => Ok(v),
        Err(EchecPdf::Sauvegarde(e)) => Err(message("Erreur sauvegarde : ", e)),
        Err(e) => Err(message("Erreur chargement PDF : ", texte_de_echec(e))),
    }
}

/// Whether a message is one of reordering the pages: loading,
/// the catalog, the page tree, saving.
pub open spec fn message_ordre(m: Seq<char>) -> bool {
    commence(m, "Erreur chargement PDF : "@) || commence(m, "Catalogue introuvable : "@)
        || m == "Référence Pages introuvable"@ || commence(m, "Erreur sauvegarde : "@)
}

fn message_de_ordre(e: EchecOrdre) -> (r: String)
    ensures
        message_ordre(r@),
{
    match e {
        EchecOrdre::Chargement(m) => message("Erreur chargement PDF : ", m),
        EchecOrdre::Catalogue(m) => message("Catalogue introuvable : ", m),
        EchecOrdre::Arbre => String::from_str("Référence Pages introuvable"),
        EchecOrdre::Sauvegarde(m) => message("Erreur sauvegarde : ", m),
    }
}

/// The places (from 0) of pages counted from 1.
pub open spec fn places(pages: Seq<u32>) -> Seq<usize> {
    pages.map_values(|n: u32| (n - 1) as usize)
}

/// Reorders the pages of a PDF (`pdf_organiser`): the page tree keeps the
/// pages of `ordre` (counted from 1), in that order; a number that is no
/// page gives the error of `pdf_organiser` for the first such one; see
/// `arbre_pdf` and `pdf_reordonne`.
pub fn organiser_pdf(octets: &[u8], ordre: &[u32]) -> (r: Result<Vec<u8>, String>)
    ensures
        match pages_pdf(octets@) {
            None => r matches Err(m) && commence(m@, "Erreur chargement PDF : "@),
            Some(ps) => if ps.len() > u32::MAX {
                r matches Err(m) && m@ == "Trop de pages"@
            } else if forall|i: int| 0 <= i < ordre.len() ==> 1 <= #[trigger] ordre@[i] <= ps.len() {
                match arbre_pdf(octets@) {
                    None => r matches Err(m) && message_ordre(m@),
                    Some(a) => match pdf_reordonne(octets@, a, places(ordre@)) {
                        Some(b) => r matches Ok(v) && v@ == b,
                        None => r matches Err(m) && message_ordre(m@),
                    },
                }
            } else {
                r matches Err(m) && exists|j: int| 0 <= j < ordre.len()
                    && !(1 <= #[trigger] ordre@[j] <= ps.len())
                    && (forall|k: int| 0 <= k < j ==> 1 <= #[trigger] ordre@[k] <= ps.len())
                    && m@ == crate::pdf::page_invalide(ordre@[j], ps.len() as u32)
            },
        },
{
    let ps = match lire_pages(octets) {
        Ok(p) => p,
        Err(e) => return Err(message("Erreur chargement PDF : ", texte_de_echec(e))),
    };
    if ps.len() > 0xFFFF_FFFF {
        return Err(String::from_str("Trop de pages"));
    }
    let total = ps.len() as u32;
    let positions = match crate::pdf::pdf_organiser(total, ordre) {
        Ok(v) => v,
        Err(m) => return Err(m),
    };
    assert(positions@ =~= places(ordre@));
    let arbre = match trouver_arbre(octets) {
        Ok(a) => a,
        Err(e) => return Err(message_de_ordre(e)),
    };
    match reordonner_pages(octets, arbre, &positions) {
        Ok(v) => Ok(v),
        Err(e) => Err(message_de_ordre(e)),
    }
}

proof fn lemma_aucune_gardee(pages: Seq<u32>, n: nat)
    requires
        n <= u32::MAX,
        forall|m: u32| 1 <= m <= n ==> #[trigger] pages.contains(m),
    ensures
        crate::pdf::gardees(pages, n).len() == 0,
    decreases n,
{
    if n > 0 {
        assert(pages.contains(n as u32));
        lemma_aucune_gardee(pages, (n - 1) as nat);
    }
}

/// Deletes pages of a PDF (`pdf_supprimer_pages`): the page tree keeps the
/// other pages, in order (see `gardees`, `arbre_pdf` and `pdf_reordonne`); an error when
/// none would remain. A file that cannot be loaded is `Erreur : ...`.
pub fn supprimer_pages_pdf(octets: &[u8], a_supprimer: &[u32]) -> (r: Result<Vec<u8>, String>)
    ensures
        match pages_pdf(octets@) {
            None => r matches Err(m) && commence(m@, "Erreur : "@),
            Some(ps) => if ps.len() > u32::MAX {
                r matches Err(m) && m@ == "Trop de pages"@
            } else if crate::pdf::gardees(a_supprimer@, ps.len()).len() == 0 {
                r matches Err(m) && m@ == "Impossible de supprimer toutes les pages"@
            } else {
                match arbre_pdf(octets@) {
                    None => r matches Err(m) && message_ordre(m@),
                    Some(a) => match pdf_reordonne(octets@, a, places(crate::pdf::gardees(a_supprimer@, ps.len()))) {
                        Some(b) => r matches Ok(v) && v@ == b,
                        None => r matches Err(m) && message_ordre(m@),
                    },
                }
            },
        },
{
    let ps = match lire_pages(octets) {
        Ok(p) => p,
        Err(e) => return Err(message("Erreur : ", texte_de_echec(e))),
    };
    if ps.len() > 0xFFFF_FFFF {
        return Err(String::from_str("Trop de pages"));
    }
    let total = ps.len() as u32;
    let garder = match crate::pdf::pdf_supprimer_pages(total, a_supprimer) {
        Ok(v) => v,
        Err(m) => {
            proof { lemma_aucune_gardee(a_supprimer@, total as nat); }
            return Err(m);
        },
    };
    let mut positions: Vec<usize> = Vec::new();
    let mut k: usize = 0;
    while k < garder.len()
        invariant
            k <= garder.len(),
            forall|n: u32| #[trigger] garder@.contains(n) ==> 1 <= n <= total,
            total == ps.len(),
            positions@ == places(garder@.take(k as int)),
            forall|j: int| 0 <= j < positions.len() ==> (#[trigger] positions@[j]) < ps.len(),
        decreases garder.len() - k,
    {
        assert(garder@.contains(garder@[k as int]));
        positions.push((garder[k] - 1) as usize);
        assert(places(garder@.take(k + 1)) =~= places(garder@.take(k as int)).push((garder@[k as int] - 1) as usize));
        k += 1;
    }
    assert(garder@.take(garder.len() as int) =~= garder@);
    let arbre = match trouver_arbre(octets) {
        Ok(a) => a,
        Err(e) => return Err(message_de_ordre(e)),
    };
    match reordonner_pages(octets, arbre, &positions) {
        Ok(v) => Ok(v),
        Err(e) => Err(message_de_ordre(e)),
    }
}

} // verus!
