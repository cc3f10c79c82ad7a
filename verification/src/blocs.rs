use vstd::prelude::*;
use vstd::string::StringExecFns;
use crate::doc_texte::{echappe_rtf, echappe_xml, rtf_escape, xml_escape};

verus! {

broadcast use vstd::string::group_string_axioms;

/// A run of text with its emphasis.
#[derive(Debug)]
pub enum Inline {
    Text(String),
    Bold(String),
    Italic(String),
    BoldItalic(String),
}

/// A heading (with its level) or a paragraph, made of runs.
#[derive(Debug)]
pub enum Block {
    Heading(u8, Vec<Inline>),
    Paragraph(Vec<Inline>),
}

/// The text of a run, whether it is bold, whether it is italic.
pub open spec fn parts(i: Inline) -> (Seq<char>, bool, bool) {
    match i {
        Inline::Text(t) => (t@, false, false),
        Inline::Bold(t) => (t@, true, false),
        Inline::Italic(t) => (t@, false, true),
        Inline::BoldItalic(t) => (t@, true, true),
    }
}

fn parts_de(i: &Inline) -> (r: (&String, bool, bool))
    ensures
        (r.0@, r.1, r.2) == parts(*i),
{
    match i {
        Inline::Text(t) => (t, false, false),
        Inline::Bold(t) => (t, true, false),
        Inline::Italic(t) => (t, false, true),
        Inline::BoldItalic(t) => (t, true, true),
    }
}

pub open spec fn si(b: bool, s: Seq<char>) -> Seq<char> {
    if b { s } else { Seq::empty() }
}

// ───────────────────────── DOCX ─────────────────────────

/// A DOCX run: its properties (bold, italic, size) and its escaped text.
pub open spec fn run_docx(i: Inline, force_bold: bool, taille: Seq<char>) -> Seq<char> {
    let (t, b, it) = parts(i);
    "<w:r>"@ + "<w:rPr>"@ + si(b || force_bold, "<w:b/>"@) + si(it, "<w:i/>"@) + "<w:sz w:val=\""@
        + taille + "\"/>"@ + "</w:rPr>"@ + "<w:t xml:space=\"preserve\">"@ + echappe_xml(t)
        + "</w:t></w:r>"@
}

pub fn docx_run(inline: &Inline, force_bold: bool, taille: &str) -> (r: String)
    ensures
        r@ == run_docx(*inline, force_bold, taille@),
{
    let (t, b, it) = parts_de(inline);
    let mut r = String::new();
    r.append("<w:r>");
    r.append("<w:rPr>");
    if b || force_bold { r.append("<w:b/>"); }
    if it { r.append("<w:i/>"); }
    r.append("<w:sz w:val=\"");
    r.append(taille);
    r.append("\"/>");
    r.append("</w:rPr>");
    r.append("<w:t xml:space=\"preserve\">");
    let e = xml_escape(t.as_str());
    r.append(e.as_str());
    r.append("</w:t></w:r>");
    assert(r@ =~= run_docx(*inline, force_bold, taille@));
    r
}

pub open spec fn runs_docx(inlines: Seq<Inline>, force_bold: bool, taille: Seq<char>) -> Seq<char>
    decreases inlines.len(),
{
    if inlines.len() == 0 {
        Seq::empty()
    } else {
        runs_docx(inlines.drop_last(), force_bold, taille) + run_docx(inlines.last(), force_bold, taille)
    }
}

/// The font size (in half points) of a heading level: 44 for level 1, six
/// less per level, never under 20.
pub open spec fn taille_titre(level: u8) -> int {
    let t = 44 - (level as int - 1) * 6;
    if t > 20 { t } else { 20 }
}

pub open spec fn decimal_taille(t: int) -> Seq<char> {
    crate::doc_texte::decimal_signe(t)
}

pub open spec fn bloc_docx(b: Block) -> Seq<char> {
    match b {
        Block::Heading(level, inlines) => {
            let taille = decimal_taille(taille_titre(level));
            "\n    <w:p><w:pPr><w:rPr><w:b/><w:sz w:val=\""@ + taille + "\"/></w:rPr></w:pPr>"@
                + runs_docx(inlines@, true, taille) + "</w:p>"@
        },
        Block::Paragraph(inlines) => {
            "\n    <w:p>"@ + runs_docx(inlines@, false, "22"@) + "</w:p>"@
        },
    }
}

/// The paragraphs of a DOCX body for a list of blocks.
pub open spec fn blocs_docx(blocks: Seq<Block>) -> Seq<char>
    decreases blocks.len(),
{
    if blocks.len() == 0 { Seq::empty() } else { blocs_docx(blocks.drop_last()) + bloc_docx(blocks.last()) }
}

fn ecrire_taille(level: u8) -> (r: String)
    ensures
        r@ == decimal_taille(taille_titre(level)),
{
    let t: i32 = 44 - (level as i32 - 1) * 6;
    let t = if t > 20 { t } else { 20 };
    let d = crate::texte::ecrire_decimal(t as u128);
    crate::texte::chaine(&d)
}

fn runs_docx_de(inlines: &Vec<Inline>, force_bold: bool, taille: &str) -> (r: String)
    ensures
        r@ == runs_docx(inlines@, force_bold, taille@),
{
    let mut r = String::new();
    let mut i: usize = 0;
    assert(inlines@.take(0) =~= Seq::<Inline>::empty());
    while i < inlines.len()
        invariant
            i <= inlines.len(),
            r@ == runs_docx(inlines@.take(i as int), force_bold, taille@),
        decreases inlines.len() - i,
    {
        let run = docx_run(&inlines[i], force_bold, taille);
        r.append(run.as_str());
        assert(inlines@.take(i + 1).drop_last() =~= inlines@.take(i as int));
        assert(inlines@.take(i + 1).last() == inlines@[i as int]);
        i += 1;
    }
    assert(inlines@.take(inlines.len() as int) =~= inlines@);
    r
}

/// Blocks → the paragraphs of a DOCX body (to insert in `<w:body>`).
pub fn blocs_vers_docx_xml(blocks: &Vec<Block>) -> (r: String)
    ensures
        r@ == blocs_docx(blocks@),
{
    let mut xml = String::new();
    let mut i: usize = 0;
    assert(blocks@.take(0) =~= Seq::<Block>::empty());
    while i < blocks.len()
        invariant
            i <= blocks.len(),
            xml@ == blocs_docx(blocks@.take(i as int)),
        decreases blocks.len() - i,
    {
        let ghost avant = xml@;
        match &blocks[i] {
            Block::Heading(level, inlines) => {
                let taille = ecrire_taille(*level);
                xml.append("\n    <w:p><w:pPr><w:rPr><w:b/><w:sz w:val=\"");
                xml.append(taille.as_str());
                xml.append("\"/></w:rPr></w:pPr>");
                let runs = runs_docx_de(inlines, true, taille.as_str());
                xml.append(runs.as_str());
                xml.append("</w:p>");
            },
            Block::Paragraph(inlines) => {
                xml.append("\n    <w:p>");
                let runs = runs_docx_de(inlines, false, "22");
                xml.append(runs.as_str());
                xml.append("</w:p>");
            },
        }
        assert(xml@ =~= avant + bloc_docx(blocks@[i as int]));
        assert(blocks@.take(i + 1).drop_last() =~= blocks@.take(i as int));
        assert(blocks@.take(i + 1).last() == blocks@[i as int]);
        i += 1;
    }
    assert(blocks@.take(blocks.len() as int) =~= blocks@);
    xml
}

} // verus!

verus! {

// ───────────────────────── ODT ─────────────────────────

/// An ODT span: the escaped text, wrapped in the style of its emphasis.
pub open spec fn span_odt(i: Inline, force_bold: bool) -> Seq<char> {
    let (t, b0, it) = parts(i);
    let b = b0 || force_bold;
    let e = echappe_xml(t);
    if !b && !it { e }
    else if b && !it { "<text:span text:style-name=\"OxyBold\">"@ + e + "</text:span>"@ }
    else if !b && it { "<text:span text:style-name=\"OxyItalic\">"@ + e + "</text:span>"@ }
    else { "<text:span text:style-name=\"OxyBoldItalic\">"@ + e + "</text:span>"@ }
}

pub fn odt_span(inline: &Inline, force_bold: bool) -> (r: String)
    ensures
        r@ == span_odt(*inline, force_bold),
{
    let (t, b0, it) = parts_de(inline);
    let b = b0 || force_bold;
    let e = xml_escape(t.as_str());
    if !b && !it {
        return e;
    }
    let mut r = String::new();
    if b && !it {
        r.append("<text:span text:style-name=\"OxyBold\">");
    } else if !b && it {
        r.append("<text:span text:style-name=\"OxyItalic\">");
    } else {
        r.append("<text:span text:style-name=\"OxyBoldItalic\">");
    }
    r.append(e.as_str());
    r.append("</text:span>");
    r
}

pub open spec fn spans_odt(inlines: Seq<Inline>, force_bold: bool) -> Seq<char>
    decreases inlines.len(),
{
    if inlines.len() == 0 {
        Seq::empty()
    } else {
        spans_odt(inlines.drop_last(), force_bold) + span_odt(inlines.last(), force_bold)
    }
}

pub open spec fn bloc_odt(b: Block) -> Seq<char> {
    match b {
        Block::Heading(level, inlines) => "\n      <text:h text:outline-level=\""@
            + crate::texte::decimal(level as nat) + "\">"@ + spans_odt(inlines@, true) + "</text:h>"@,
        Block::Paragraph(inlines) => "\n      <text:p>"@ + spans_odt(inlines@, false) + "</text:p>"@,
    }
}

/// The paragraphs of an ODT text for a list of blocks.
pub open spec fn blocs_odt(blocks: Seq<Block>) -> Seq<char>
    decreases blocks.len(),
{
    if blocks.len() == 0 { Seq::empty() } else { blocs_odt(blocks.drop_last()) + bloc_odt(blocks.last()) }
}

fn spans_odt_de(inlines: &Vec<Inline>, force_bold: bool) -> (r: String)
    ensures
        r@ == spans_odt(inlines@, force_bold),
{
    let mut r = String::new();
    let mut i: usize = 0;
    assert(inlines@.take(0) =~= Seq::<Inline>::empty());
    while i < inlines.len()
        invariant
            i <= inlines.len(),
            r@ == spans_odt(inlines@.take(i as int), force_bold),
        decreases inlines.len() - i,
    {
        let s = odt_span(&inlines[i], force_bold);
        r.append(s.as_str());
        assert(inlines@.take(i + 1).drop_last() =~= inlines@.take(i as int));
        assert(inlines@.take(i + 1).last() == inlines@[i as int]);
        i += 1;
    }
    assert(inlines@.take(inlines.len() as int) =~= inlines@);
    r
}

/// Blocks → the paragraphs of an ODT text (to insert in `<office:text>`).
pub fn blocs_vers_odt_xml(blocks: &Vec<Block>) -> (r: String)
    ensures
        r@ == blocs_odt(blocks@),
{
    let mut xml = String::new();
    let mut i: usize = 0;
    assert(blocks@.take(0) =~= Seq::<Block>::empty());
    while i < blocks.len()
        invariant
            i <= blocks.len(),
            xml@ == blocs_odt(blocks@.take(i as int)),
        decreases blocks.len() - i,
    {
        let ghost avant = xml@;
        match &blocks[i] {
            Block::Heading(level, inlines) => {
                xml.append("\n      <text:h text:outline-level=\"");
                let d = crate::texte::chaine(&crate::texte::ecrire_decimal(*level as u128));
                xml.append(d.as_str());
                xml.append("\">");
                let s = spans_odt_de(inlines, true);
                xml.append(s.as_str());
                xml.append("</text:h>");
            },
            Block::Paragraph(inlines) => {
                xml.append("\n      <text:p>");
                let s = spans_odt_de(inlines, false);
                xml.append(s.as_str());
                xml.append("</text:p>");
            },
        }
        assert(xml@ =~= avant + bloc_odt(blocks@[i as int]));
        assert(blocks@.take(i + 1).drop_last() =~= blocks@.take(i as int));
        assert(blocks@.take(i + 1).last() == blocks@[i as int]);
        i += 1;
    }
    assert(blocks@.take(blocks.len() as int) =~= blocks@);
    xml
}

// ───────────────────────── RTF ─────────────────────────

/// An RTF run: bold and italic switched on around the escaped text.
pub open spec fn run_rtf(i: Inline, force_bold: bool) -> Seq<char> {
    let (t, b0, it) = parts(i);
    let b = b0 || force_bold;
    si(b, "\\b "@) + si(it, "\\i "@) + echappe_rtf(t) + si(it, "\\i0 "@) + si(b, "\\b0 "@)
}

pub fn rtf_run(inline: &Inline, force_bold: bool) -> (r: String)
    ensures
        r@ == run_rtf(*inline, force_bold),
{
    let (t, b0, it) = parts_de(inline);
    let b = b0 || force_bold;
    let mut out = String::new();
    if b { out.append("\\b "); }
    if it { out.append("\\i "); }
    let e = rtf_escape(t.as_str());
    out.append(e.as_str());
    if it { out.append("\\i0 "); }
    if b { out.append("\\b0 "); }
    assert(out@ =~= run_rtf(*inline, force_bold));
    out
}

pub open spec fn runs_rtf(inlines: Seq<Inline>, force_bold: bool) -> Seq<char>
    decreases inlines.len(),
{
    if inlines.len() == 0 {
        Seq::empty()
    } else {
        runs_rtf(inlines.drop_last(), force_bold) + run_rtf(inlines.last(), force_bold)
    }
}

pub open spec fn bloc_rtf(b: Block) -> Seq<char> {
    match b {
        Block::Heading(level, inlines) => "\\fs"@ + decimal_taille(taille_titre(level)) + "\\b "@
            + runs_rtf(inlines@, true) + "\\b0\\fs22\\par"@ + "\n"@,
        Block::Paragraph(inlines) => runs_rtf(inlines@, false) + "\\par"@ + "\n"@,
    }
}

/// The RTF body of a list of blocks, one line per block.
pub open spec fn blocs_rtf(blocks: Seq<Block>) -> Seq<char>
    decreases blocks.len(),
{
    if blocks.len() == 0 { Seq::empty() } else { blocs_rtf(blocks.drop_last()) + bloc_rtf(blocks.last()) }
}

fn runs_rtf_de(inlines: &Vec<Inline>, force_bold: bool) -> (r: String)
    ensures
        r@ == runs_rtf(inlines@, force_bold),
{
    let mut r = String::new();
    let mut i: usize = 0;
    assert(inlines@.take(0) =~= Seq::<Inline>::empty());
    while i < inlines.len()
        invariant
            i <= inlines.len(),
            r@ == runs_rtf(inlines@.take(i as int), force_bold),
        decreases inlines.len() - i,
    {
        let s = rtf_run(&inlines[i], force_bold);
        r.append(s.as_str());
        assert(inlines@.take(i + 1).drop_last() =~= inlines@.take(i as int));
        assert(inlines@.take(i + 1).last() == inlines@[i as int]);
        i += 1;
    }
    assert(inlines@.take(inlines.len() as int) =~= inlines@);
    r
}

/// Blocks → RTF body.
pub fn blocs_vers_rtf(blocks: &Vec<Block>) -> (r: String)
    ensures
        r@ == blocs_rtf(blocks@),
{
    let mut rtf = String::new();
    let mut i: usize = 0;
    assert(blocks@.take(0) =~= Seq::<Block>::empty());
    while i < blocks.len()
        invariant
            i <= blocks.len(),
            rtf@ == blocs_rtf(blocks@.take(i as int)),
        decreases blocks.len() - i,
    {
        let ghost avant = rtf@;
        match &blocks[i] {
            Block::Heading(level, inlines) => {
                let taille = ecrire_taille(*level);
                rtf.append("\\fs");
                rtf.append(taille.as_str());
                rtf.append("\\b ");
                let s = runs_rtf_de(inlines, true);
                rtf.append(s.as_str());
                rtf.append("\\b0\\fs22\\par");
            },
            Block::Paragraph(inlines) => {
                let s = runs_rtf_de(inlines, false);
                rtf.append(s.as_str());
                rtf.append("\\par");
            },
        }
        rtf.append("\n");
        assert(rtf@ =~= avant + bloc_rtf(blocks@[i as int]));
        assert(blocks@.take(i + 1).drop_last() =~= blocks@.take(i as int));
        assert(blocks@.take(i + 1).last() == blocks@[i as int]);
        i += 1;
    }
    assert(blocks@.take(blocks.len() as int) =~= blocks@);
    rtf
}

} // verus!
