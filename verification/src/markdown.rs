use vstd::prelude::*;
use vstd::string::StringExecFns;
use pulldown_cmark::{Options as O, Parser as P, Tag as T, TagEnd as F};
use pulldown_cmark::Event::{Code, End, HardBreak, SoftBreak, Start, Text};
use self::EvenementMd::{
    Autre, DebutElement, DebutGras, DebutItalique, DebutParagraphe, DebutTitre, FinElement, FinGras,
    FinItalique, FinParagraphe, FinTitre, SautDoux, SautDur, Texte,
};
use crate::blocs::{Block, Inline, parts};

verus! {

broadcast use vstd::string::group_string_axioms;

/// An event of the Markdown parser, as far as the formatted blocks use it.
pub enum EvenementMd {
    DebutTitre(u8),
    FinTitre,
    DebutParagraphe,
    FinParagraphe,
    DebutElement,
    FinElement,
    DebutGras,
    FinGras,
    DebutItalique,
    FinItalique,
    Texte(String),
    Code(String),
    SautDoux,
    SautDur,
    /// Any other event.
    Autre,
}

pub enum VueEvenementMd {
    DebutTitre(u8),
    FinTitre,
    DebutParagraphe,
    FinParagraphe,
    DebutElement,
    FinElement,
    DebutGras,
    FinGras,
    DebutItalique,
    FinItalique,
    Texte(Seq<char>),
    Code(Seq<char>),
    SautDoux,
    SautDur,
    Autre,
}

pub open spec fn vue_md(e: EvenementMd) -> VueEvenementMd {
    match e {
        EvenementMd::DebutTitre(n) => VueEvenementMd::DebutTitre(n),
        EvenementMd::FinTitre => VueEvenementMd::FinTitre,
        EvenementMd::DebutParagraphe => VueEvenementMd::DebutParagraphe,
        EvenementMd::FinParagraphe => VueEvenementMd::FinParagraphe,
        EvenementMd::DebutElement => VueEvenementMd::DebutElement,
        EvenementMd::FinElement => VueEvenementMd::FinElement,
        EvenementMd::DebutGras => VueEvenementMd::DebutGras,
        EvenementMd::FinGras => VueEvenementMd::FinGras,
        EvenementMd::DebutItalique => VueEvenementMd::DebutItalique,
        EvenementMd::FinItalique => VueEvenementMd::FinItalique,
        EvenementMd::Texte(t) => VueEvenementMd::Texte(t@),
        EvenementMd::Code(t) => VueEvenementMd::Code(t@),
        EvenementMd::SautDoux => VueEvenementMd::SautDoux,
        EvenementMd::SautDur => VueEvenementMd::SautDur,
        EvenementMd::Autre => VueEvenementMd::Autre,
    }
}

pub open spec fn vues_md(v: Seq<EvenementMd>) -> Seq<VueEvenementMd> {
    v.map_values(|e: EvenementMd| vue_md(e))
}

/// The events that `pulldown_cmark` reads from a Markdown text, with the
/// tables, strikethrough and task lists extensions.
pub uninterp spec fn evenements_md(texte: Seq<char>) -> Seq<VueEvenementMd>;

/// Parses Markdown with `pulldown_cmark::Parser` (tables, strikethrough,
/// task lists) and gives its events.
#[verifier::external_body]
fn lire_evenements_md(texte: &str) -> (r: Vec<EvenementMd>)
    ensures
        vues_md(r@) == evenements_md(texte@),
{
    let mut v = Vec::new();
    for e in P::new_ext(texte, O::ENABLE_TABLES | O::ENABLE_STRIKETHROUGH | O::ENABLE_TASKLISTS) {
        v.push(match e {
            Start(T::Heading { level, .. }) => DebutTitre(level as u8),
            End(F::Heading(_)) => FinTitre,
            Start(T::Paragraph) => DebutParagraphe, End(F::Paragraph) => FinParagraphe,
            Start(T::Item) => DebutElement, End(F::Item) => FinElement,
            Start(T::Strong) => DebutGras, End(F::Strong) => FinGras,
            Start(T::Emphasis) => DebutItalique, End(F::Emphasis) => FinItalique,
            Text(t) => Texte(t.to_string()), Code(t) => EvenementMd::Code(t.to_string()),
            SoftBreak => SautDoux, HardBreak => SautDur,
            _ => Autre,
        });
    }
    v
}

/// The HTML that `pulldown_cmark` renders of a Markdown text (tables,
/// strikethrough, task lists).
pub uninterp spec fn html_de_markdown(texte: Seq<char>) -> Seq<char>;

/// Markdown to HTML (`pulldown_cmark::html::push_html`).
#[verifier::external_body]
pub(crate) fn md_vers_html(texte: &str) -> (r: String)
    ensures
        r@ == html_de_markdown(texte@),
{
    let parser = P::new_ext(texte, O::ENABLE_TABLES | O::ENABLE_STRIKETHROUGH | O::ENABLE_TASKLISTS);
    let mut html = String::new();
    pulldown_cmark::html::push_html(&mut html, parser);
    html
}

/// The Markdown that `html2md` makes of an HTML text.
pub uninterp spec fn markdown_de_html(html: Seq<char>) -> Seq<char>;

/// HTML to Markdown (`html2md::parse_html`).
#[verifier::external_body]
pub(crate) fn html_vers_md(html: &str) -> (r: String)
    ensures
        r@ == markdown_de_html(html@),
{
    html2md::parse_html(html)
}

// ───────────────────────── formatted blocks ─────────────────────────

/// A block as its level (for a heading) and its runs.
pub enum VueBloc {
    Titre(u8, Seq<(Seq<char>, bool, bool)>),
    Paragraphe(Seq<(Seq<char>, bool, bool)>),
}

pub open spec fn vue_runs(v: Seq<Inline>) -> Seq<(Seq<char>, bool, bool)> {
    v.map_values(|i: Inline| parts(i))
}

pub open spec fn vue_bloc(b: Block) -> VueBloc {
    match b {
        Block::Heading(n, v) => VueBloc::Titre(n, vue_runs(v@)),
        Block::Paragraph(v) => VueBloc::Paragraphe(vue_runs(v@)),
    }
}

pub open spec fn vues_blocs(v: Seq<Block>) -> Seq<VueBloc> {
    v.map_values(|b: Block| vue_bloc(b))
}

/// The state of the reading: the blocks so far, the runs of the block being
/// read, the level of the heading being read, the bold and italic depths.
pub struct EtatMd {
    pub blocs: Seq<VueBloc>,
    pub courant: Seq<(Seq<char>, bool, bool)>,
    pub titre: Option<u8>,
    pub gras: u32,
    pub italique: u32,
}

/// One event of the reading: headings, paragraphs and list items make
/// blocks (a list item starts with a bullet); text keeps the emphasis in
/// force; a line break is a space.
pub open spec fn pas_md(s: EtatMd, e: VueEvenementMd) -> EtatMd {
    match e {
        VueEvenementMd::DebutTitre(n) => EtatMd { titre: Some(n), courant: Seq::empty(), ..s },
        VueEvenementMd::FinTitre => match s.titre {
            Some(n) => EtatMd { blocs: s.blocs.push(VueBloc::Titre(n, s.courant)), courant: Seq::empty(), titre: None, ..s },
            None => s,
        },
        VueEvenementMd::DebutParagraphe => EtatMd { courant: Seq::empty(), ..s },
        VueEvenementMd::FinParagraphe =>
            if s.titre is None && s.courant.len() > 0 {
                EtatMd { blocs: s.blocs.push(VueBloc::Paragraphe(s.courant)), courant: Seq::empty(), ..s }
            } else {
                s
            },
        VueEvenementMd::DebutElement => EtatMd { courant: Seq::empty(), ..s },
        VueEvenementMd::FinElement =>
            if s.courant.len() > 0 {
                EtatMd {
                    blocs: s.blocs.push(VueBloc::Paragraphe(seq![("• "@, false, false)] + s.courant)),
                    courant: Seq::empty(),
                    ..s
                }
            } else {
                s
            },
        VueEvenementMd::DebutGras => EtatMd { gras: if s.gras < u32::MAX { (s.gras + 1) as u32 } else { s.gras }, ..s },
        VueEvenementMd::FinGras => EtatMd { gras: if s.gras > 0 { (s.gras - 1) as u32 } else { 0 }, ..s },
        VueEvenementMd::DebutItalique =>
            EtatMd { italique: if s.italique < u32::MAX { (s.italique + 1) as u32 } else { s.italique }, ..s },
        VueEvenementMd::FinItalique => EtatMd { italique: if s.italique > 0 { (s.italique - 1) as u32 } else { 0 }, ..s },
        VueEvenementMd::Texte(t) => EtatMd { courant: s.courant.push((t, s.gras > 0, s.italique > 0)), ..s },
        VueEvenementMd::Code(t) => EtatMd { courant: s.courant.push((t, s.gras > 0, s.italique > 0)), ..s },
        VueEvenementMd::SautDoux => EtatMd { courant: s.courant.push((" "@, false, false)), ..s },
        VueEvenementMd::SautDur => EtatMd { courant: s.courant.push((" "@, false, false)), ..s },
        VueEvenementMd::Autre => s,
    }
}

pub open spec fn etat_md(evs: Seq<VueEvenementMd>) -> EtatMd
    decreases evs.len(),
{
    if evs.len() == 0 {
        EtatMd { blocs: Seq::empty(), courant: Seq::empty(), titre: None, gras: 0, italique: 0 }
    } else {
        pas_md(etat_md(evs.drop_last()), evs.last())
    }
}

/// The formatted blocks of a Markdown text.
pub open spec fn blocs_md(texte: Seq<char>) -> Seq<VueBloc> {
    etat_md(evenements_md(texte)).blocs
}

fn run_de(t: &String, gras: u32, italique: u32) -> (r: Inline)
    ensures
        parts(r) == (t@, gras > 0, italique > 0),
{
    if gras > 0 && italique > 0 {
        Inline::BoldItalic(t.clone())
    } else if gras > 0 {
        Inline::Bold(t.clone())
    } else if italique > 0 {
        Inline::Italic(t.clone())
    } else {
        Inline::Text(t.clone())
    }
}

/// The formatted blocks of a list of Markdown events: see `pas_md`.
pub fn blocs_des_evenements(evs: &Vec<EvenementMd>) -> (r: Vec<Block>)
    ensures
        vues_blocs(r@) == etat_md(vues_md(evs@)).blocs,
{
    let ghost vs = vues_md(evs@);
    let mut blocs: Vec<Block> = Vec::new();
    let mut courant: Vec<Inline> = Vec::new();
    let mut titre: Option<u8> = None;
    let mut gras: u32 = 0;
    let mut italique: u32 = 0;
    let mut i: usize = 0;
    assert(vs.take(0) =~= Seq::<VueEvenementMd>::empty());
    assert(vues_blocs(blocs@) =~= Seq::<VueBloc>::empty());
    assert(vue_runs(courant@) =~= Seq::<(Seq<char>, bool, bool)>::empty());
    while i < evs.len()
        invariant
            i <= evs.len(),
            vs == vues_md(evs@),
            etat_md(vs.take(i as int)) == (EtatMd {
                blocs: vues_blocs(blocs@),
                courant: vue_runs(courant@),
                titre,
                gras,
                italique,
            }),
        decreases evs.len() - i,
    {
        assert(vs.take(i + 1).drop_last() =~= vs.take(i as int));
        assert(vs.take(i + 1).last() == vue_md(evs@[i as int]));
        let ghost b0 = vues_blocs(blocs@);
        let ghost c0 = vue_runs(courant@);
        match &evs[i] {
            EvenementMd::DebutTitre(n) => {
                titre = Some(*n);
                courant = Vec::new();
                assert(vue_runs(courant@) =~= Seq::<(Seq<char>, bool, bool)>::empty());
            },
            EvenementMd::FinTitre => {
                if let Some(n) = titre {
                    let mut fini: Vec<Inline> = Vec::new();
                    std::mem::swap(&mut fini, &mut courant);
                    blocs.push(Block::Heading(n, fini));
                    titre = None;
                    assert(vues_blocs(blocs@) =~= b0.push(VueBloc::Titre(n, c0)));
                    assert(vue_runs(courant@) =~= Seq::<(Seq<char>, bool, bool)>::empty());
                }
            },
            EvenementMd::DebutParagraphe | EvenementMd::DebutElement => {
                courant = Vec::new();
                assert(vue_runs(courant@) =~= Seq::<(Seq<char>, bool, bool)>::empty());
            },
            EvenementMd::FinParagraphe => {
                if titre.is_none() && courant.len() > 0 {
                    let mut fini: Vec<Inline> = Vec::new();
                    std::mem::swap(&mut fini, &mut courant);
                    blocs.push(Block::Paragraph(fini));
                    assert(vues_blocs(blocs@) =~= b0.push(VueBloc::Paragraphe(c0)));
                    assert(vue_runs(courant@) =~= Seq::<(Seq<char>, bool, bool)>::empty());
                }
            },
            EvenementMd::FinElement => {
                if courant.len() > 0 {
                    let mut fini: Vec<Inline> = Vec::new();
                    std::mem::swap(&mut fini, &mut courant);
                    fini.insert(0, Inline::Text(String::from_str("• ")));
                    assert(vue_runs(fini@) =~= seq![("• "@, false, false)] + c0);
                    blocs.push(Block::Paragraph(fini));
                    assert(vues_blocs(blocs@) =~= b0.push(VueBloc::Paragraphe(seq![("• "@, false, false)] + c0)));
                    assert(vue_runs(courant@) =~= Seq::<(Seq<char>, bool, bool)>::empty());
                }
            },
            EvenementMd::DebutGras => { gras = gras.saturating_add(1); },
            EvenementMd::FinGras => { gras = gras.saturating_sub(1); },
            EvenementMd::DebutItalique => { italique = italique.saturating_add(1); },
            EvenementMd::FinItalique => { italique = italique.saturating_sub(1); },
            EvenementMd::Texte(t) | EvenementMd::Code(t) => {
                let run = run_de(t, gras, italique);
                courant.push(run);
                assert(vue_runs(courant@) =~= c0.push((t@, gras > 0, italique > 0)));
            },
            EvenementMd::SautDoux | EvenementMd::SautDur => {
                courant.push(Inline::Text(String::from_str(" ")));
                assert(vue_runs(courant@) =~= c0.push((" "@, false, false)));
            },
            EvenementMd::Autre => {},
        }
        i += 1;
    }
    assert(vs.take(evs.len() as int) =~= vs);
    blocs
}

/// The formatted blocks of a Markdown text (`md_vers_blocs`): see
/// `blocs_md`.
pub fn md_vers_blocs(texte: &str) -> (r: Vec<Block>)
    ensures
        vues_blocs(r@) == blocs_md(texte@),
{
    let evs = lire_evenements_md(texte);
    blocs_des_evenements(&evs)
}

} // verus!
