use vstd::prelude::*;
use vstd::string::StringExecFns;
use crate::chemin::{jointure, joindre_chemin, separateur};

verus! {

broadcast use vstd::string::group_string_axioms;

/// Looks a program up on the `PATH` (`which::which`). What it finds depends
/// on the environment and the disk; when it finds one, it is the full path
/// of a file, never empty.
#[verifier::external_body]
fn chercher_programme(nom: &str) -> (r: Option<String>)
    ensures
        r matches Some(p) ==> p@.len() > 0,
{
    which::which(nom).ok().map(|p| p.to_string_lossy().into_owned())
}

/// Where a bundled tool is: in the extraction directory when there is one,
/// else where the `PATH` lookup found it, else under `/app/bin/`.
pub open spec fn chemin_outil(nom: Seq<char>, dossier: Option<Seq<char>>, suffixe: Seq<char>,
    trouve: Option<Seq<char>>, sep: char) -> Seq<char>
{
    match dossier {
        Some(d) => jointure(d, nom + suffixe, sep),
        None => match trouve {
            Some(p) => p,
            None => "/app/bin/"@ + nom,
        },
    }
}

/// The path of a tool, given the extraction directory (if any), the
/// executable suffix of the platform, what the `PATH` lookup gave and the
/// platform's path separator.
pub fn get_tool(nom: &str, dossier: &Option<String>, suffixe: &str, trouve: Option<String>, sep: char) -> (r: String)
    ensures
        r@ == chemin_outil(nom@, match dossier { Some(d) => Some(d@), None => None }, suffixe@,
            match trouve { Some(p) => Some(p@), None => None }, sep),
{
    match dossier {
        Some(d) => {
            let mut n = String::from_str(nom);
            n.append(suffixe);
            joindre_chemin(d.as_str(), n.as_str(), sep)
        },
        None => match trouve {
            Some(p) => p,
            None => {
                let mut r = String::from_str("/app/bin/");
                r.append(nom);
                r
            },
        },
    }
}

/// Where a tool is looked for on the `PATH`: a non-empty path found there,
/// or `/app/bin/<name>`.
pub open spec fn hors_dossier(r: Seq<char>, nom: Seq<char>, suffixe: Seq<char>) -> bool {
    exists|t: Option<Seq<char>>| (t matches Some(p) ==> p.len() > 0)
        && r == #[trigger] chemin_outil(nom, None, suffixe, t, '/')
}

/// In the extraction directory, whatever the platform's separator.
pub open spec fn dans_dossier(r: Seq<char>, d: Seq<char>, n: Seq<char>) -> bool {
    r == jointure(d, n, '/') || r == jointure(d, n, '\\')
}

fn outil(nom: &str, dossier: &Option<String>, suffixe: &str) -> (r: String)
    ensures
        dossier is Some ==> dans_dossier(r@, dossier->0@, nom@ + suffixe@),
        dossier is None ==> hors_dossier(r@, nom@, suffixe@),
{
    let trouve = match dossier {
        Some(_) => None,
        None => chercher_programme(nom),
    };
    let ghost t = crate::reglages::vue_option(trouve);
    let r = get_tool(nom, dossier, suffixe, trouve, separateur());
    proof {
        if dossier is None {
            assert(r@ == chemin_outil(nom@, None, suffixe@, t, '/'));
        }
    }
    r
}

/// The ffmpeg to run: the extracted one when the tools were extracted,
/// else the one on the `PATH` (or `/app/bin/ffmpeg`).
pub fn get_ffmpeg(dossier: &Option<String>, suffixe: &str) -> (r: String)
    ensures
        dossier is Some ==> dans_dossier(r@, dossier->0@, "ffmpeg"@ + suffixe@),
        dossier is None ==> hors_dossier(r@, "ffmpeg"@, suffixe@),
{
    outil("ffmpeg", dossier, suffixe)
}

/// The ffprobe to run (see `get_ffmpeg`).
pub fn get_ffprobe(dossier: &Option<String>, suffixe: &str) -> (r: String)
    ensures
        dossier is Some ==> dans_dossier(r@, dossier->0@, "ffprobe"@ + suffixe@),
        dossier is None ==> hors_dossier(r@, "ffprobe"@, suffixe@),
{
    outil("ffprobe", dossier, suffixe)
}

/// The mkvpropedit to run (see `get_ffmpeg`).
pub fn get_mkvpropedit(dossier: &Option<String>, suffixe: &str) -> (r: String)
    ensures
        dossier is Some ==> dans_dossier(r@, dossier->0@, "mkvpropedit"@ + suffixe@),
        dossier is None ==> hors_dossier(r@, "mkvpropedit"@, suffixe@),
{
    outil("mkvpropedit", dossier, suffixe)
}

// ───────────────────────── integrity ─────────────────────────

/// The SHA-256 digest of a byte string.
pub uninterp spec fn sha256(donnees: Seq<u8>) -> Seq<u8>;

/// SHA-256 of the data (`sha2::Sha256`); a 32-byte digest.
#[verifier::external_body]
fn empreinte_sha256(donnees: &[u8]) -> (r: Vec<u8>)
    ensures
        r@ == sha256(donnees@),
        r@.len() == 32,
{
    <sha2::Sha256 as sha2::Digest>::digest(donnees).to_vec()
}

pub open spec fn chiffre_hex(d: u8) -> char {
    if d < 10 { (('0' as u8) + d) as char } else { (('a' as u8) + d - 10) as char }
}

/// Lowercase hexadecimal, two digits per byte (`{:02x}`).
pub open spec fn hex(octets: Seq<u8>) -> Seq<char>
    decreases octets.len(),
{
    if octets.len() == 0 {
        Seq::empty()
    } else {
        hex(octets.drop_last()) + seq![chiffre_hex(octets.last() / 16), chiffre_hex(octets.last() % 16)]
    }
}

fn hex_de(d: u8) -> (r: char)
    requires
        d < 16,
    ensures
        r == chiffre_hex(d),
{
    if d < 10 { (('0' as u8) + d) as char } else { (('a' as u8) + d - 10) as char }
}

/// The SHA-256 digest of the data, in lowercase hexadecimal.
pub fn sha256_hex(donnees: &[u8]) -> (r: String)
    ensures
        r@ == hex(sha256(donnees@)),
        r@.len() == 64,
{
    let h = empreinte_sha256(donnees);
    let mut r: Vec<char> = Vec::new();
    let mut i: usize = 0;
    assert(h@.take(0) =~= Seq::<u8>::empty());
    while i < h.len()
        invariant
            i <= h.len(),
            h@.len() == 32,
            r@ == hex(h@.take(i as int)),
            r@.len() == 2 * i,
        decreases h.len() - i,
    {
        let b = h[i];
        r.push(hex_de(b / 16));
        r.push(hex_de(b % 16));
        assert(h@.take(i + 1).drop_last() =~= h@.take(i as int));
        assert(h@.take(i + 1).last() == b);
        assert(r@ =~= hex(h@.take(i as int)) + seq![chiffre_hex(b / 16), chiffre_hex(b % 16)]);
        i += 1;
    }
    assert(h@.take(h.len() as int) =~= h@);
    crate::texte::chaine(&r)
}

/// Whether the bytes found on disk are the bundled ones (`extraire_deps`):
/// their SHA-256 digests, in hexadecimal, are equal; bytes that could not
/// be read are never the bundled ones.
pub fn binaire_valide(sur_disque: Option<&[u8]>, embarque: &[u8]) -> (r: bool)
    ensures
        r == match sur_disque {
            Some(d) => hex(sha256(d@)) == hex(sha256(embarque@)),
            None => false,
        },
{
    match sur_disque {
        Some(d) => {
            let a = sha256_hex(d);
            let b = sha256_hex(embarque);
            a == b
        },
        None => false,
    }
}

/// The last check of an extracted tool (`extraire_deps`): what is on disk
/// must be the bundled binary, else the tool is refused with an error that
/// names it.
pub fn verifier_binaire(nom: &str, sur_disque: &[u8], embarque: &[u8]) -> (r: Result<(), String>)
    ensures
        r is Ok <==> hex(sha256(sur_disque@)) == hex(sha256(embarque@)),
        r matches Err(m) ==> m@ == "binaries::extraire_deps | vérification d'intégrité échouée pour "@ + nom@,
{
    if binaire_valide(Some(sur_disque), embarque) {
        Ok(())
    } else {
        let mut m = String::from_str("binaries::extraire_deps | vérification d'intégrité échouée pour ");
        m.append(nom);
        Err(m)
    }
}

} // verus!
