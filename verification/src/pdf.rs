use vstd::prelude::*;
use vstd::string::StringExecFns;
use crate::texte::{avec_zeros, decimal};

verus! {

broadcast use vstd::string::group_string_axioms;

// ───────────────────────── split ─────────────────────────

/// The name of the file of page `i` (counted from 1) of a split document.
pub open spec fn nom_page(base: Seq<char>, i: nat) -> Seq<char> {
    base + "_page_"@ + avec_zeros(decimal(i), 4) + ".pdf"@
}

/// Split: the file names of the pages, one per page in order
/// (`<base>_page_0001.pdf`, ...); an error for a document without pages.
pub fn pdf_split(base: &str, nombre_pages: usize) -> (r: Result<Vec<String>, String>)
    ensures
        nombre_pages == 0 <==> r is Err,
        r matches Ok(v) ==> v.len() == nombre_pages
            && forall|i: int| 0 <= i < nombre_pages ==> #[trigger] v@[i]@ == nom_page(base@, (i + 1) as nat),
{
    if nombre_pages == 0 {
        return Err(String::from_str("Le PDF ne contient aucune page"));
    }
    let mut v: Vec<String> = Vec::new();
    let mut i: usize = 0;
    while i < nombre_pages
        invariant
            i <= nombre_pages,
            v.len() == i,
            forall|j: int| 0 <= j < i ==> #[trigger] v@[j]@ == nom_page(base@, (j + 1) as nat),
        decreases nombre_pages - i,
    {
        let mut nom = String::from_str(base);
        nom.append("_page_");
        let n = crate::texte::chaine(&crate::texte::ecrire_decimal_zeros((i + 1) as u128, 4));
        nom.append(n.as_str());
        nom.append(".pdf");
        v.push(nom);
        i += 1;
    }
    Ok(v)
}

// ───────────────────────── rotate ─────────────────────────

/// Rust's `%` (the remainder takes the sign of the dividend).
pub open spec fn reste(x: int, m: int) -> int {
    if x >= 0 { x % m } else { -((-x) % m) }
}

pub open spec fn rotation_valide(r: u16) -> bool {
    r == 90 || r == 180 || r == 270
}

/// Whether page `n` (counted from 1) is one of the targets (all pages when
/// none are given).
pub open spec fn ciblee(cibles: Option<Seq<u32>>, n: int) -> bool {
    match cibles {
        Some(c) => c.contains(n as u32),
        None => true,
    }
}

/// Rotation: the new `/Rotate` of each page from the current ones: the
/// targeted pages turn by `rotation` (modulo 360), the others keep theirs.
/// Only 90, 180 and 270 are accepted.
pub fn pdf_rotate(actuelles: &Vec<i64>, rotation: u16, pages_cibles: Option<&[u32]>) -> (r: Result<Vec<i64>, String>)
    requires
        forall|i: int| 0 <= i < actuelles.len() ==> #[trigger] actuelles@[i] <= i64::MAX - 270,
        actuelles.len() < u32::MAX,
    ensures
        !rotation_valide(rotation) <==> r is Err,
        r matches Err(m) ==> m@ == "Rotation invalide : "@ + decimal(rotation as nat) + ". Utilisez 90, 180 ou 270."@,
        r matches Ok(v) ==> v.len() == actuelles.len()
            && forall|i: int| 0 <= i < v.len() ==> #[trigger] v@[i] == if ciblee(
                match pages_cibles { Some(c) => Some(c@), None => None },
                i + 1,
            ) {
                reste(actuelles@[i] + rotation, 360)
            } else {
                actuelles@[i] as int
            },
{
    if !(rotation == 90 || rotation == 180 || rotation == 270) {
        let mut m = String::from_str("Rotation invalide : ");
        let n = crate::texte::chaine(&crate::texte::ecrire_decimal(rotation as u128));
        m.append(n.as_str());
        m.append(". Utilisez 90, 180 ou 270.");
        return Err(m);
    }
    let ghost cibles = match pages_cibles { Some(c) => Some(c@), None => None };
    let mut v: Vec<i64> = Vec::new();
    let mut i: usize = 0;
    while i < actuelles.len()
        invariant
            i <= actuelles.len(),
            actuelles.len() < u32::MAX,
            rotation_valide(rotation),
            cibles == match pages_cibles { Some(c) => Some(c@), None => None },
            forall|j: int| 0 <= j < actuelles.len() ==> #[trigger] actuelles@[j] <= i64::MAX - 270,
            v.len() == i,
            forall|j: int| 0 <= j < i ==> #[trigger] v@[j] == if ciblee(cibles, j + 1) {
                reste(actuelles@[j] + rotation, 360)
            } else {
                actuelles@[j] as int
            },
        decreases actuelles.len() - i,
    {
        let num = (i + 1) as u32;
        let vise = match pages_cibles {
            None => true,
            Some(c) => contient_u32(c, num),
        };
        let a = actuelles[i];
        if vise {
            let s = a + rotation as i64;
            let nouveau = if s >= 0 { s % 360 } else { -((-s) % 360) };
            v.push(nouveau);
        } else {
            v.push(a);
        }
        i += 1;
    }
    Ok(v)
}

pub(crate) fn contient_u32(c: &[u32], x: u32) -> (r: bool)
    ensures
        r == c@.contains(x),
{
    let mut i: usize = 0;
    while i < c.len()
        invariant
            i <= c.len(),
            forall|j: int| 0 <= j < i ==> c@[j] != x,
        decreases c.len() - i,
    {
        if c[i] == x {
            assert(c@[i as int] == x);
            return true;
        }
        i += 1;
    }
    false
}

// ───────────────────────── organise, delete ─────────────────────────

/// The error of a page number that is no page of the document.
pub open spec fn page_invalide(num: u32, total: u32) -> Seq<char> {
    "Page invalide : "@ + decimal(num as nat) + ". Le PDF a "@ + decimal(total as nat) + " pages."@
}

/// Reordering: the positions (from 0) of the pages to keep, in the new
/// order; an error names the first number that is no page of the document.
pub fn pdf_organiser(total: u32, nouvel_ordre: &[u32]) -> (r: Result<Vec<usize>, String>)
    ensures
        r matches Err(m) ==> exists|j: int| 0 <= j < nouvel_ordre.len()
            && !(1 <= #[trigger] nouvel_ordre@[j] <= total)
            && (forall|k: int| 0 <= k < j ==> 1 <= #[trigger] nouvel_ordre@[k] <= total)
            && m@ == page_invalide(nouvel_ordre@[j], total),
        (forall|i: int| 0 <= i < nouvel_ordre.len() ==> 1 <= #[trigger] nouvel_ordre@[i] <= total) <==> r is Ok,
        r matches Ok(v) ==> v.len() == nouvel_ordre.len()
            && forall|i: int| 0 <= i < v.len() ==> #[trigger] v@[i] == nouvel_ordre@[i] - 1,
{
    let mut i: usize = 0;
    while i < nouvel_ordre.len()
        invariant
            i <= nouvel_ordre.len(),
            forall|j: int| 0 <= j < i ==> 1 <= #[trigger] nouvel_ordre@[j] <= total,
        decreases nouvel_ordre.len() - i,
    {
        let num = nouvel_ordre[i];
        if num == 0 || num > total {
            let mut m = String::from_str("Page invalide : ");
            m.append(crate::texte::chaine(&crate::texte::ecrire_decimal(num as u128)).as_str());
            m.append(". Le PDF a ");
            m.append(crate::texte::chaine(&crate::texte::ecrire_decimal(total as u128)).as_str());
            m.append(" pages.");
            assert(nouvel_ordre@[i as int] == num);
            return Err(m);
        }
        i += 1;
    }
    let mut v: Vec<usize> = Vec::new();
    let mut k: usize = 0;
    while k < nouvel_ordre.len()
        invariant
            k <= nouvel_ordre.len(),
            forall|j: int| 0 <= j < nouvel_ordre.len() ==> 1 <= #[trigger] nouvel_ordre@[j] <= total,
            v.len() == k,
            forall|j: int| 0 <= j < k ==> #[trigger] v@[j] == nouvel_ordre@[j] - 1,
        decreases nouvel_ordre.len() - k,
    {
        v.push((nouvel_ordre[k] - 1) as usize);
        k += 1;
    }
    Ok(v)
}

/// How many of the pages `1..=n` are among those to delete.
pub open spec fn nombre_supprimees(pages: Seq<u32>, n: nat) -> nat
    decreases n,
{
    if n == 0 {
        0
    } else {
        nombre_supprimees(pages, (n - 1) as nat) + if pages.contains(n as u32) { 1nat } else { 0nat }
    }
}

/// The pages of `1..=n` that are not to be deleted, in order.
pub open spec fn gardees(pages: Seq<u32>, n: nat) -> Seq<u32>
    decreases n,
{
    if n == 0 {
        Seq::empty()
    } else {
        let r = gardees(pages, (n - 1) as nat);
        if pages.contains(n as u32) { r } else { r.push(n as u32) }
    }
}

/// Page deletion: the pages to keep (counted from 1, in order), those of
/// `1..=total` that are not to be deleted, so as many fewer pages as pages
/// of the document are deleted; an error when none would remain.
pub fn pdf_supprimer_pages(total: u32, pages_a_supprimer: &[u32]) -> (r: Result<Vec<u32>, String>)
    ensures
        match r {
            Ok(v) => v.len() > 0 && v@ == gardees(pages_a_supprimer@, total as nat)
                && v.len() == total - nombre_supprimees(pages_a_supprimer@, total as nat)
                && (forall|i: int, j: int| 0 <= i < j < v.len() ==> v@[i] < v@[j])
                && (forall|n: u32| #[trigger] v@.contains(n) <==> 1 <= n <= total && !pages_a_supprimer@.contains(n)),
            Err(m) => m@ == "Impossible de supprimer toutes les pages"@
                && forall|n: u32| 1 <= n <= total ==> #[trigger] pages_a_supprimer@.contains(n),
        },
{
    let mut v: Vec<u32> = Vec::new();
    let mut n: u64 = 1;
    while n <= total as u64
        invariant
            1 <= n <= total as u64 + 1,
            forall|i: int, j: int| 0 <= i < j < v.len() ==> v@[i] < v@[j],
            forall|i: int| 0 <= i < v.len() ==> v@[i] < n,
            forall|m: u32| #[trigger] v@.contains(m) <==> 1 <= m < n && !pages_a_supprimer@.contains(m),
            v.len() + nombre_supprimees(pages_a_supprimer@, (n - 1) as nat) == n - 1,
            v@ == gardees(pages_a_supprimer@, (n - 1) as nat),
        decreases total as u64 + 1 - n,
    {
        let p = n as u32;
        assert(nombre_supprimees(pages_a_supprimer@, n as nat) == nombre_supprimees(pages_a_supprimer@, (n - 1) as nat)
            + if pages_a_supprimer@.contains(p) { 1nat } else { 0nat });
        if !contient_u32(pages_a_supprimer, p) {
            let ghost avant = v@;
            v.push(p);
            assert(v@.drop_last() =~= avant);
            assert forall|m: u32| #[trigger] v@.contains(m) <==> 1 <= m < n + 1 && !pages_a_supprimer@.contains(m) by {
                if v@.contains(m) && m != p {
                    let k = choose|k: int| 0 <= k < v@.len() && v@[k] == m;
                    assert(k < avant.len());
                    assert(avant[k] == m);
                    assert(avant.contains(m));
                }
                if 1 <= m < n && !pages_a_supprimer@.contains(m) {
                    assert(avant.contains(m));
                    let k = choose|k: int| 0 <= k < avant.len() && avant[k] == m;
                    assert(v@[k] == m);
                }
                if m == p {
                    assert(v@[v.len() - 1] == p);
                }
            }
        } else {
            assert forall|m: u32| #[trigger] v@.contains(m) <==> 1 <= m < n + 1 && !pages_a_supprimer@.contains(m) by {
                if m == p {
                    if v@.contains(m) {
                        let k = choose|k: int| 0 <= k < v@.len() && v@[k] == m;
                        assert(v@[k] < n);
                    }
                }
            }
        }
        n += 1;
    }
    if v.len() == 0 {
        assert forall|m: u32| 1 <= m <= total implies #[trigger] pages_a_supprimer@.contains(m) by {
            assert(!v@.contains(m));
        }
        return Err(String::from_str("Impossible de supprimer toutes les pages"));
    }
    Ok(v)
}

// ───────────────────────── compress, protect ─────────────────────────

/// Compression: the zlib level used (at most 9).
pub fn niveau_compression(niveau: u32) -> (r: u32)
    ensures
        r == if niveau < 9 { niveau } else { 9 },
{
    if niveau < 9 { niveau } else { 9 }
}

/// Compression: the bytes saved, from the sizes before and after (0 when the
/// file grew).
pub fn pdf_compresser(taille_avant: u64, taille_apres: u64) -> (r: u64)
    ensures
        r == if taille_avant >= taille_apres { taille_avant - taille_apres } else { 0 },
{
    taille_avant.saturating_sub(taille_apres)
}

/// What a protected PDF lets its reader do.
#[derive(Debug, Clone, Copy, PartialEq, Eq, Structural)]
pub struct Permissions {
    pub impression: bool,
    pub impression_haute_qualite: bool,
    pub copie: bool,
    pub copie_accessibilite: bool,
}

/// Protection: the permissions granted; printing brings high-quality
/// printing, copying brings copying for accessibility; nothing else is
/// granted.
pub fn pdf_proteger(autoriser_impression: bool, autoriser_copie: bool) -> (r: Permissions)
    ensures
        r == (Permissions {
            impression: autoriser_impression,
            impression_haute_qualite: autoriser_impression,
            copie: autoriser_copie,
            copie_accessibilite: autoriser_copie,
        }),
{
    Permissions {
        impression: autoriser_impression,
        impression_haute_qualite: autoriser_impression,
        copie: autoriser_copie,
        copie_accessibilite: autoriser_copie,
    }
}

// ───────────────────────── positions ─────────────────────────

/// Where page numbers (or a signature) are put on a page.
#[derive(Debug, Clone, Copy, PartialEq, Eq, Structural)]
pub enum PositionNumero {
    BasCentre,
    BasGauche,
    BasDroite,
    HautCentre,
    HautGauche,
    HautDroite,
}

/// The position that a setting names (`BasGauche`, `BasDroite`,
/// `HautCentre`, `HautGauche`, `HautDroite`), else `defaut`.
pub open spec fn position_nommee(nom: Seq<char>, defaut: PositionNumero) -> PositionNumero {
    if nom == "BasGauche"@ { PositionNumero::BasGauche }
    else if nom == "BasDroite"@ { PositionNumero::BasDroite }
    else if nom == "HautCentre"@ { PositionNumero::HautCentre }
    else if nom == "HautGauche"@ { PositionNumero::HautGauche }
    else if nom == "HautDroite"@ { PositionNumero::HautDroite }
    else { defaut }
}

fn nomme(a: &String, b: &str) -> (r: bool)
    ensures
        r == (a@ == b@),
{
    let bb = String::from_str(b);
    *a == bb
}

/// The position that a setting names: see `position_nommee` (page numbers
/// default to the bottom centre, signatures to the bottom right).
pub fn position_depuis(nom: &str, defaut: PositionNumero) -> (r: PositionNumero)
    ensures
        r == position_nommee(nom@, defaut),
{
    let n = String::from_str(nom);
    if nomme(&n, "BasGauche") { PositionNumero::BasGauche }
    else if nomme(&n, "BasDroite") { PositionNumero::BasDroite }
    else if nomme(&n, "HautCentre") { PositionNumero::HautCentre }
    else if nomme(&n, "HautGauche") { PositionNumero::HautGauche }
    else if nomme(&n, "HautDroite") { PositionNumero::HautDroite }
    else { defaut }
}

/// Each position name gives the position of that name, whatever the
/// default: `BasGauche`, `BasDroite`, `HautCentre`, `HautGauche`,
/// `HautDroite`; any other setting, `BasCentre` among them, gives the
/// default (the bottom centre for page numbers, the bottom right for a
/// signature).
pub proof fn loi_positions_nommees(nom: Seq<char>, defaut: PositionNumero)
    ensures
        position_nommee("BasGauche"@, defaut) == PositionNumero::BasGauche,
        position_nommee("BasDroite"@, defaut) == PositionNumero::BasDroite,
        position_nommee("HautCentre"@, defaut) == PositionNumero::HautCentre,
        position_nommee("HautGauche"@, defaut) == PositionNumero::HautGauche,
        position_nommee("HautDroite"@, defaut) == PositionNumero::HautDroite,
        nom != "BasGauche"@ && nom != "BasDroite"@ && nom != "HautCentre"@ && nom != "HautGauche"@
            && nom != "HautDroite"@ ==> position_nommee(nom, defaut) == defaut,
{
    reveal_strlit("BasGauche");
    reveal_strlit("BasDroite");
    reveal_strlit("HautCentre");
    reveal_strlit("HautGauche");
    reveal_strlit("HautDroite");
    assert("BasDroite"@[3] != "BasGauche"@[3]);
    assert("HautCentre"@.len() != "BasGauche"@.len() && "HautCentre"@.len() != "BasDroite"@.len());
    assert("HautGauche"@.len() != "BasGauche"@.len() && "HautGauche"@.len() != "BasDroite"@.len());
    assert("HautGauche"@[4] != "HautCentre"@[4]);
    assert("HautDroite"@.len() != "BasGauche"@.len() && "HautDroite"@.len() != "BasDroite"@.len());
    assert("HautDroite"@[4] != "HautCentre"@[4] && "HautDroite"@[4] != "HautGauche"@[4]);
}

/// Two rotations that make a full turn cancel out: a page whose rotation is
/// within a turn, turned by `r` and then by `360 - r` (itself a rotation
/// that `pdf_rotate` accepts), has its rotation back.
pub proof fn loi_tour_complet(a: int, r: u16)
    requires
        0 <= a < 360,
        rotation_valide(r),
    ensures
        rotation_valide((360 - r) as u16),
        reste(reste(a + r, 360) + (360 - r), 360) == a,
{
    let b = reste(a + r, 360);
    assert(b == (a + r) % 360);
    if a + r < 360 {
        assert(b == a + r);
        assert((a + r + 360 - r) % 360 == a);
    } else {
        assert(b == a + r - 360);
        assert((a + r - 360 + 360 - r) % 360 == a);
    }
}

// ───────────────────────── overlays ─────────────────────────

/// The pages (counted from 1) that an overlay goes on: the targets among
/// the document's pages, all of them when none are given.
pub open spec fn ciblees(nombre_pages: nat, cibles: Option<Seq<u32>>) -> Seq<u32>
    decreases nombre_pages,
{
    if nombre_pages == 0 {
        Seq::empty()
    } else {
        let r = ciblees((nombre_pages - 1) as nat, cibles);
        if ciblee(cibles, nombre_pages as int) { r.push(nombre_pages as u32) } else { r }
    }
}

/// The pages that a crop, a watermark, an annotation or a signature goes on
/// (`pdf_crop`, `pdf_watermark`, `pdf_annoter`, `pdf_signer`), in order.
pub fn pages_ciblees(nombre_pages: u32, pages_cibles: Option<&[u32]>) -> (r: Vec<u32>)
    ensures
        r@ == ciblees(nombre_pages as nat, match pages_cibles { Some(c) => Some(c@), None => None }),
{
    let ghost c = match pages_cibles { Some(c) => Some(c@), None => None };
    let mut r: Vec<u32> = Vec::new();
    let mut n: u32 = 0;
    while n < nombre_pages
        invariant
            n <= nombre_pages,
            c == match pages_cibles { Some(c) => Some(c@), None => None },
            r@ == ciblees(n as nat, c),
        decreases nombre_pages - n,
    {
        n += 1;
        let garde = match pages_cibles {
            Some(cs) => contient_u32(cs, n),
            None => true,
        };
        if garde {
            r.push(n);
        }
    }
    r
}

/// The numbers written on the pages (`pdf_numeroter`): from `debut`, one
/// per page.
pub fn pdf_numeroter(debut: u32, nombre_pages: u32) -> (r: Vec<String>)
    requires
        nombre_pages == 0 || debut + nombre_pages - 1 <= u32::MAX,
    ensures
        r.len() == nombre_pages,
        forall|i: int| 0 <= i < nombre_pages ==> #[trigger] r@[i]@ == decimal((debut + i) as nat),
{
    let mut r: Vec<String> = Vec::new();
    let mut i: u32 = 0;
    while i < nombre_pages
        invariant
            i <= nombre_pages,
            nombre_pages == 0 || debut + nombre_pages - 1 <= u32::MAX,
            r.len() == i,
            forall|j: int| 0 <= j < i ==> #[trigger] r@[j]@ == decimal((debut + j) as nat),
        decreases nombre_pages - i,
    {
        let n = debut + i;
        r.push(crate::texte::chaine(&crate::texte::ecrire_decimal(n as u128)));
        i += 1;
    }
    r
}

/// The text under a signature line: `Signed: <name> - YYYY-MM-DD`, the date
/// being that of the given time (seconds since the Unix epoch, UTC).
pub open spec fn texte_signe(nom: Seq<char>, secondes: u64) -> Seq<char> {
    let (a, m, j) = crate::doc_texte::date_de_jours((secondes / 86400) as nat);
    "Signed: "@ + nom + " - "@ + avec_zeros(decimal(a), 4) + "-"@ + avec_zeros(decimal(m), 2) + "-"@
        + avec_zeros(decimal(j), 2)
}

/// The signature's text as the PDF font writes it (`pdf_signer`): see
/// `texte_signe`, one WinAnsi byte per character.
pub fn pdf_signer(nom_signataire: &str, secondes: u64) -> (r: Vec<u8>)
    ensures
        r@ == texte_signe(nom_signataire@, secondes).map_values(|c: char| crate::doc_texte::octet_winansi(c)),
{
    let jours = secondes / 86400;
    let (a, m, j) = crate::doc_texte::jours_vers_date(jours);
    let mut t = String::from_str("Signed: ");
    t.append(nom_signataire);
    t.append(" - ");
    t.append(crate::texte::chaine(&crate::texte::ecrire_decimal_zeros(a as u128, 4)).as_str());
    t.append("-");
    t.append(crate::texte::chaine(&crate::texte::ecrire_decimal_zeros(m as u128, 2)).as_str());
    t.append("-");
    t.append(crate::texte::chaine(&crate::texte::ecrire_decimal_zeros(j as u128, 2)).as_str());
    crate::doc_texte::encoder_winansi(t.as_str())
}

} // verus!
