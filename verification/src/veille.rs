use vstd::prelude::*;
use vstd::string::StringExecFns;
use crate::binaries::chiffre_hex;

verus! {

broadcast use vstd::string::group_string_axioms;

/// One character of a JSON string: `"` and `\` behind a backslash, the
/// controls that have a short escape (`\b \t \n \f \r`) so written, the
/// other characters below U+0020 as `\u00XX` (lowercase hexadecimal), every
/// other character as it is.
pub open spec fn echappe_json_car(c: char) -> Seq<char> {
    if c == '"' { seq!['\\', '"'] }
    else if c == '\\' { seq!['\\', '\\'] }
    else if c == '\u{8}' { seq!['\\', 'b'] }
    else if c == '\t' { seq!['\\', 't'] }
    else if c == '\n' { seq!['\\', 'n'] }
    else if c == '\u{c}' { seq!['\\', 'f'] }
    else if c == '\r' { seq!['\\', 'r'] }
    else if (c as u32) < 0x20 {
        seq!['\\', 'u', '0', '0', chiffre_hex(((c as u32) / 16) as u8), chiffre_hex(((c as u32) % 16) as u8)]
    }
    else { seq![c] }
}

pub open spec fn echappe_json(s: Seq<char>) -> Seq<char>
    decreases s.len(),
{
    if s.len() == 0 { s } else { echappe_json(s.drop_last()) + echappe_json_car(s.last()) }
}

/// The JSON text of a string: between quotes, each character escaped.
pub open spec fn json_de(s: Seq<char>) -> Seq<char> {
    seq!['"'] + echappe_json(s) + seq!['"']
}

/// A string as JSON (`serde_json::to_string`, whose escape table is the
/// one of `echappe_json_car`); it cannot fail on a `str`.
#[verifier::external_body]
fn texte_json(s: &str) -> (r: String)
    ensures
        r@ == json_de(s@),
{
    serde_json::to_string(s).unwrap_or_default()
}

/// The line appended to the history for a video watched to the end:
/// `{"status":"VU","video":<its name as JSON>}`.
pub open spec fn ligne_vue(fichier: Seq<char>) -> Seq<char> {
    "{\"status\":\"VU\",\"video\":"@ + json_de(fichier) + "}"@
}

/// One look at the player, from the last video logged: the last video
/// logged after it, and the history line to append, if any. A new, named
/// file watched to 90% or further is logged.
pub open spec fn etape(dernier: Seq<char>, fichier: Seq<char>, fin_atteinte: bool) -> (Seq<char>, Option<Seq<char>>) {
    if fin_atteinte && fichier != dernier && fichier.len() > 0 {
        (fichier, Some(ligne_vue(fichier)))
    } else {
        (dernier, None)
    }
}

/// A video is not logged twice in a row: once logged, looking at it again
/// logs nothing, however far it is watched.
pub proof fn loi_une_seule_fois(dernier: Seq<char>, fichier: Seq<char>, fin_atteinte: bool, encore: bool)
    ensures
        etape(etape(dernier, fichier, fin_atteinte).0, fichier, encore).1 is Some
            ==> etape(dernier, fichier, fin_atteinte).1 is None,
{
}

/// What the watcher of the media player remembers: the last video logged.
pub struct Veille {
    pub dernier: String,
}

impl Veille {
    /// A watcher that has logged nothing.
    pub fn new() -> (r: Self)
        ensures
            r.dernier@.len() == 0,
    {
        Veille { dernier: String::new() }
    }

    /// One look at the player (the watch loop): the file it plays and
    /// whether it is at 90% of it or further (computed by the caller from the
    /// player's times). See `etape`.
    pub fn observer(&mut self, fichier: &str, fin_atteinte: bool) -> (r: Option<String>)
        ensures
            final(self).dernier@ == etape(old(self).dernier@, fichier@, fin_atteinte).0,
            match r {
                Some(l) => etape(old(self).dernier@, fichier@, fin_atteinte).1 == Some(l@),
                None => etape(old(self).dernier@, fichier@, fin_atteinte).1 is None,
            },
    {
        let f = String::from_str(fichier);
        if fin_atteinte && !(f == self.dernier) && fichier.unicode_len() > 0 {
            let mut l = String::from_str("{\"status\":\"VU\",\"video\":");
            l.append(texte_json(fichier).as_str());
            l.append("}");
            self.dernier = f;
            Some(l)
        } else {
            None
        }
    }
}

} // verus!
