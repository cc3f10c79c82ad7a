use vstd::prelude::*;
use crate::texte::{caracteres, decouper, lecture_u32, lire_u32, morceaux, rogne, rogner, vues};

verus! {

broadcast use vstd::string::group_string_axioms;

/// The page numbers that the pieces of a page list name, in order; pieces that
/// are not a number are skipped.
pub open spec fn pages_lues(pieces: Seq<Seq<char>>) -> Seq<u32>
    decreases pieces.len(),
{
    if pieces.len() == 0 {
        Seq::empty()
    } else {
        let r = pages_lues(pieces.drop_last());
        match lecture_u32(rogne(pieces.last())) {
            Some(n) => r.push(n),
            None => r,
        }
    }
}

pub open spec fn toutes_pages() -> Seq<char> {
    seq!['1', '-', 'e', 'n', 'd']
}

/// A page specification such as `"1, 3,5"`: `None` stands for every page
/// (an empty text, `"1-end"`, or a list in which no piece is a number).
pub open spec fn pages_de_spec(spec: Seq<char>) -> Option<Seq<u32>> {
    let t = rogne(spec);
    if t.len() == 0 || t == toutes_pages() {
        None
    } else {
        let p = pages_lues(morceaux(t, ','));
        if p.len() == 0 { None } else { Some(p) }
    }
}

/// Reads a page specification: comma-separated page numbers, each piece
/// trimmed; `None` means "all pages".
pub fn parse_pages_spec(spec: &str) -> (r: Option<Vec<u32>>)
    ensures
        match r {
            None => pages_de_spec(spec@) is None,
            Some(v) => pages_de_spec(spec@) == Some(v@),
        },
{
    let brut = caracteres(spec);
    let t = rogner(&brut);
    if t.len() == 0 {
        return None;
    }
    if t.len() == 5 && t[0] == '1' && t[1] == '-' && t[2] == 'e' && t[3] == 'n' && t[4] == 'd' {
        assert(t@ =~= toutes_pages());
        return None;
    }
    assert(t@ != toutes_pages()) by {
        if t@ == toutes_pages() {
            assert(t@[0] == '1' && t@[1] == '-' && t@[2] == 'e' && t@[3] == 'n' && t@[4] == 'd');
        }
    }
    let pieces = decouper(&t, ',');
    let mut pages: Vec<u32> = Vec::new();
    let mut i: usize = 0;
    while i < pieces.len()
        invariant
            i <= pieces.len(),
            pages@ == pages_lues(vues(pieces@).take(i as int)),
        decreases pieces.len() - i,
    {
        let morceau = rogner(&pieces[i]);
        let lu = lire_u32(&morceau);
        assert(vues(pieces@).take(i + 1).drop_last() =~= vues(pieces@).take(i as int));
        assert(vues(pieces@).take(i + 1).last() == pieces@[i as int]@);
        match lu {
            Some(n) => pages.push(n),
            None => {},
        }
        i += 1;
    }
    assert(vues(pieces@).take(pieces.len() as int) =~= vues(pieces@));
    if pages.len() == 0 {
        None
    } else {
        Some(pages)
    }
}

} // verus!
