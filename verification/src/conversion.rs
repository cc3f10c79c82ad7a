use vstd::prelude::*;
use crate::chemin::{avec_extension, chemin_avec_extension};
use crate::blocs::{blocs_docx, blocs_odt, blocs_rtf, Block};
use crate::doc_texte::{html_de_texte, html_vers_texte, texte_de_html, texte_vers_html};
use crate::ecriture::{
    archive_docx, archive_epub, archive_odt, corps_docx_simple, corps_odt_simple, ecrire_docx_riche,
    ecrire_docx_simple, ecrire_epub_simple, ecrire_odt_riche, ecrire_odt_simple, ecrire_page_html, ecrire_rtf_riche,
    ecrire_rtf_simple, entete_rtf, lignes_rtf, page_html, styles_odt, vues_entrees, EntreeArchive,
};
use crate::markdown::{blocs_md, html_de_markdown, html_vers_md, markdown_de_html, md_vers_blocs, md_vers_html, vues_blocs};
use crate::mise_en_page::{lignes_texte, pages_texte, texte_vers_pages, vues_pages};
use crate::fichiers::{entree_zip, membre_zip, message_zip};
use crate::doc::{
    FormatEntree, FormatSortie, format_entree, format_sortie, detecter_format_entree,
    detecter_format_sortie,
};

verus! {

broadcast use vstd::string::group_string_axioms;

/// How the text of the input document is obtained.
#[derive(Debug, Clone, Copy, PartialEq, Eq, Structural)]
pub enum Source {
    /// The file read as UTF-8 text.
    Texte,
    /// The text runs of `word/document.xml` in the DOCX archive.
    Docx,
    /// The paragraphs of `content.xml` in the ODT archive.
    Odt,
    /// The text that the PDF pages hold.
    Pdf,
}

/// What is done to the text between reading and writing.
#[derive(Debug, Clone, Copy, PartialEq, Eq, Structural)]
pub enum Traitement {
    Aucun,
    /// Markdown rendered to HTML, then the HTML flattened to text.
    MarkdownVersTexte,
    /// HTML flattened to text.
    HtmlVersTexte,
    /// Markdown rendered to HTML and wrapped in a complete HTML page.
    MarkdownVersPage,
    /// Plain text turned into HTML paragraphs.
    TexteVersHtml,
    /// HTML turned back into Markdown.
    HtmlVersMarkdown,
    /// Markdown parsed into formatted blocks (headings, bold, italic).
    MarkdownVersBlocs,
}

/// What is written.
#[derive(Debug, Clone, Copy, PartialEq, Eq, Structural)]
pub enum Cible {
    /// A PDF laid out from the text.
    Pdf,
    /// The text itself.
    Fichier,
    DocxRiche,
    OdtRiche,
    RtfRiche,
    DocxSimple,
    OdtSimple,
    RtfSimple,
    Epub,
}

/// How a document is converted: read, transform, write; or copied as it is
/// when no route joins the two formats.
#[derive(Debug, Clone, Copy, PartialEq, Eq, Structural)]
pub enum PlanConversion {
    Chaine { source: Source, traitement: Traitement, cible: Cible },
    Copie,
}

pub open spec fn chaine(s: Source, t: Traitement, c: Cible) -> PlanConversion {
    PlanConversion::Chaine { source: s, traitement: t, cible: c }
}

/// Formats read as plain text.
pub open spec fn texte_brut(f: FormatEntree) -> bool {
    f == FormatEntree::Txt || f == FormatEntree::Log || f == FormatEntree::Csv
        || f == FormatEntree::Json || f == FormatEntree::Yaml
}

/// Word documents and their templates.
pub open spec fn mot(f: FormatEntree) -> bool {
    f == FormatEntree::Docx || f == FormatEntree::Dotx
}

/// The text of any input, for the simple writers (DOCX, ODT, RTF): HTML is
/// flattened, office and PDF documents are read by their own readers, any
/// other file is taken as text.
pub open spec fn lecture_simple(fe: Option<FormatEntree>) -> (Source, Traitement) {
    match fe {
        Some(FormatEntree::Html) => (Source::Texte, Traitement::HtmlVersTexte),
        Some(FormatEntree::Docx) | Some(FormatEntree::Dotx) => (Source::Docx, Traitement::Aucun),
        Some(FormatEntree::Odt) => (Source::Odt, Traitement::Aucun),
        Some(FormatEntree::Pdf) => (Source::Pdf, Traitement::Aucun),
        _ => (Source::Texte, Traitement::Aucun),
    }
}

/// The conversion route between two formats.
pub open spec fn plan_de(fe: Option<FormatEntree>, fs: Option<FormatSortie>) -> PlanConversion {
    match (fe, fs) {
        (Some(e), Some(FormatSortie::Pdf)) =>
            if e == FormatEntree::Md { chaine(Source::Texte, Traitement::MarkdownVersTexte, Cible::Pdf) }
            else if e == FormatEntree::Html { chaine(Source::Texte, Traitement::HtmlVersTexte, Cible::Pdf) }
            else if texte_brut(e) { chaine(Source::Texte, Traitement::Aucun, Cible::Pdf) }
            else if mot(e) { chaine(Source::Docx, Traitement::Aucun, Cible::Pdf) }
            else if e == FormatEntree::Odt { chaine(Source::Odt, Traitement::Aucun, Cible::Pdf) }
            else { PlanConversion::Copie },
        (Some(e), Some(FormatSortie::Html)) =>
            if e == FormatEntree::Md { chaine(Source::Texte, Traitement::MarkdownVersPage, Cible::Fichier) }
            else if texte_brut(e) { chaine(Source::Texte, Traitement::TexteVersHtml, Cible::Fichier) }
            else if mot(e) { chaine(Source::Docx, Traitement::TexteVersHtml, Cible::Fichier) }
            else if e == FormatEntree::Odt { chaine(Source::Odt, Traitement::TexteVersHtml, Cible::Fichier) }
            else if e == FormatEntree::Pdf { chaine(Source::Pdf, Traitement::TexteVersHtml, Cible::Fichier) }
            else { PlanConversion::Copie },
        (Some(e), Some(FormatSortie::Md)) =>
            if e == FormatEntree::Html { chaine(Source::Texte, Traitement::HtmlVersMarkdown, Cible::Fichier) }
            else if mot(e) { chaine(Source::Docx, Traitement::Aucun, Cible::Fichier) }
            else if e == FormatEntree::Odt { chaine(Source::Odt, Traitement::Aucun, Cible::Fichier) }
            else if e == FormatEntree::Pdf { chaine(Source::Pdf, Traitement::Aucun, Cible::Fichier) }
            else { PlanConversion::Copie },
        (Some(e), Some(FormatSortie::Plain)) =>
            if e == FormatEntree::Html { chaine(Source::Texte, Traitement::HtmlVersTexte, Cible::Fichier) }
            else if e == FormatEntree::Md { chaine(Source::Texte, Traitement::MarkdownVersTexte, Cible::Fichier) }
            else if mot(e) { chaine(Source::Docx, Traitement::Aucun, Cible::Fichier) }
            else if e == FormatEntree::Odt { chaine(Source::Odt, Traitement::Aucun, Cible::Fichier) }
            else if e == FormatEntree::Pdf { chaine(Source::Pdf, Traitement::Aucun, Cible::Fichier) }
            else { PlanConversion::Copie },
        (_, Some(FormatSortie::Docx)) =>
            if fe == Some(FormatEntree::Md) { chaine(Source::Texte, Traitement::MarkdownVersBlocs, Cible::DocxRiche) }
            else { chaine(lecture_simple(fe).0, lecture_simple(fe).1, Cible::DocxSimple) },
        (_, Some(FormatSortie::Odt)) =>
            if fe == Some(FormatEntree::Md) { chaine(Source::Texte, Traitement::MarkdownVersBlocs, Cible::OdtRiche) }
            else { chaine(lecture_simple(fe).0, lecture_simple(fe).1, Cible::OdtSimple) },
        (_, Some(FormatSortie::Rtf)) =>
            if fe == Some(FormatEntree::Md) { chaine(Source::Texte, Traitement::MarkdownVersBlocs, Cible::RtfRiche) }
            else { chaine(lecture_simple(fe).0, lecture_simple(fe).1, Cible::RtfSimple) },
        (_, Some(FormatSortie::Epub)) =>
            if fe == Some(FormatEntree::Md) { chaine(Source::Texte, Traitement::MarkdownVersTexte, Cible::Epub) }
            else { chaine(lecture_simple(fe).0, lecture_simple(fe).1, Cible::Epub) },
        _ => PlanConversion::Copie,
    }
}

fn lecture_simple_de(fe: Option<FormatEntree>) -> (r: (Source, Traitement))
    ensures
        r == lecture_simple(fe),
{
    match fe {
        Some(FormatEntree::Html) => (Source::Texte, Traitement::HtmlVersTexte),
        Some(FormatEntree::Docx) | Some(FormatEntree::Dotx) => (Source::Docx, Traitement::Aucun),
        Some(FormatEntree::Odt) => (Source::Odt, Traitement::Aucun),
        Some(FormatEntree::Pdf) => (Source::Pdf, Traitement::Aucun),
        _ => (Source::Texte, Traitement::Aucun),
    }
}

fn par_texte(fe: Option<FormatEntree>, md: Traitement, cible: Cible, simple: Cible) -> (r: PlanConversion)
    ensures
        r == (if fe == Some(FormatEntree::Md) { chaine(Source::Texte, md, cible) }
            else { chaine(lecture_simple(fe).0, lecture_simple(fe).1, simple) }),
{
    match fe {
        Some(FormatEntree::Md) => PlanConversion::Chaine { source: Source::Texte, traitement: md, cible },
        _ => {
            let (s, t) = lecture_simple_de(fe);
            PlanConversion::Chaine { source: s, traitement: t, cible: simple }
        },
    }
}

/// The conversion route between two formats.
pub fn plan_conversion(fe: Option<FormatEntree>, fs: Option<FormatSortie>) -> (r: PlanConversion)
    ensures
        r == plan_de(fe, fs),
{
    let ch = |s: Source, t: Traitement, c: Cible| -> (p: PlanConversion)
        ensures p == chaine(s, t, c)
        { PlanConversion::Chaine { source: s, traitement: t, cible: c } };
    match (fe, fs) {
        (Some(e), Some(FormatSortie::Pdf)) => match e {
            FormatEntree::Md => ch(Source::Texte, Traitement::MarkdownVersTexte, Cible::Pdf),
            FormatEntree::Html => ch(Source::Texte, Traitement::HtmlVersTexte, Cible::Pdf),
            FormatEntree::Txt | FormatEntree::Log | FormatEntree::Csv | FormatEntree::Json
                | FormatEntree::Yaml => ch(Source::Texte, Traitement::Aucun, Cible::Pdf),
            FormatEntree::Docx | FormatEntree::Dotx => ch(Source::Docx, Traitement::Aucun, Cible::Pdf),
            FormatEntree::Odt => ch(Source::Odt, Traitement::Aucun, Cible::Pdf),
            _ => PlanConversion::Copie,
        },
        (Some(e), Some(FormatSortie::Html)) => match e {
            FormatEntree::Md => ch(Source::Texte, Traitement::MarkdownVersPage, Cible::Fichier),
            FormatEntree::Txt | FormatEntree::Log | FormatEntree::Csv | FormatEntree::Json
                | FormatEntree::Yaml => ch(Source::Texte, Traitement::TexteVersHtml, Cible::Fichier),
            FormatEntree::Docx | FormatEntree::Dotx => ch(Source::Docx, Traitement::TexteVersHtml, Cible::Fichier),
            FormatEntree::Odt => ch(Source::Odt, Traitement::TexteVersHtml, Cible::Fichier),
            FormatEntree::Pdf => ch(Source::Pdf, Traitement::TexteVersHtml, Cible::Fichier),
            _ => PlanConversion::Copie,
        },
        (Some(e), Some(FormatSortie::Md)) => match e {
            FormatEntree::Html => ch(Source::Texte, Traitement::HtmlVersMarkdown, Cible::Fichier),
            FormatEntree::Docx | FormatEntree::Dotx => ch(Source::Docx, Traitement::Aucun, Cible::Fichier),
            FormatEntree::Odt => ch(Source::Odt, Traitement::Aucun, Cible::Fichier),
            FormatEntree::Pdf => ch(Source::Pdf, Traitement::Aucun, Cible::Fichier),
            _ => PlanConversion::Copie,
        },
        (Some(e), Some(FormatSortie::Plain)) => match e {
            FormatEntree::Html => ch(Source::Texte, Traitement::HtmlVersTexte, Cible::Fichier),
            FormatEntree::Md => ch(Source::Texte, Traitement::MarkdownVersTexte, Cible::Fichier),
            FormatEntree::Docx | FormatEntree::Dotx => ch(Source::Docx, Traitement::Aucun, Cible::Fichier),
            FormatEntree::Odt => ch(Source::Odt, Traitement::Aucun, Cible::Fichier),
            FormatEntree::Pdf => ch(Source::Pdf, Traitement::Aucun, Cible::Fichier),
            _ => PlanConversion::Copie,
        },
        (_, Some(FormatSortie::Docx)) =>
            par_texte(fe, Traitement::MarkdownVersBlocs, Cible::DocxRiche, Cible::DocxSimple),
        (_, Some(FormatSortie::Odt)) =>
            par_texte(fe, Traitement::MarkdownVersBlocs, Cible::OdtRiche, Cible::OdtSimple),
        (_, Some(FormatSortie::Rtf)) =>
            par_texte(fe, Traitement::MarkdownVersBlocs, Cible::RtfRiche, Cible::RtfSimple),
        (_, Some(FormatSortie::Epub)) =>
            par_texte(fe, Traitement::MarkdownVersTexte, Cible::Epub, Cible::Epub),
        _ => PlanConversion::Copie,
    }
}

/// The route of a conversion between two paths, the formats being read
/// from their extensions.
pub open spec fn plan_chemins(input: Seq<char>, output: Seq<char>) -> PlanConversion {
    plan_de(format_entree(input), format_sortie(output))
}

/// Converts `input` into `output`: the route, from the formats that the
/// extensions of the two paths name. The formats handed in are not
/// consulted: the paths decide.
pub fn convertir_avec_formats(
    input: &str,
    output: &str,
    _format_entree: Option<FormatEntree>,
    _format_sortie: Option<FormatSortie>,
) -> (r: PlanConversion)
    ensures
        r == plan_chemins(input@, output@),
{
    plan_conversion(detecter_format_entree(input), detecter_format_sortie(output))
}

/// CSV conversion: the route between the two paths.
pub fn convertir_csv(input: &str, output: &str, _fmt: FormatSortie) -> (r: PlanConversion)
    ensures
        r == plan_chemins(input@, output@),
{
    plan_conversion(detecter_format_entree(input), detecter_format_sortie(output))
}

/// Log file conversion: the route between the two paths.
pub fn traiter_log(input: &str, output: &str) -> (r: PlanConversion)
    ensures
        r == plan_chemins(input@, output@),
{
    plan_conversion(detecter_format_entree(input), detecter_format_sortie(output))
}

/// YAML conversion: the route between the two paths.
pub fn convertir_yaml(input: &str, output: &str, _fmt: FormatSortie) -> (r: PlanConversion)
    ensures
        r == plan_chemins(input@, output@),
{
    plan_conversion(detecter_format_entree(input), detecter_format_sortie(output))
}

/// Typst conversion: the route between the two paths.
pub fn convertir_typst(input: &str, output: &str, _fmt: FormatSortie) -> (r: PlanConversion)
    ensures
        r == plan_chemins(input@, output@),
{
    plan_conversion(detecter_format_entree(input), detecter_format_sortie(output))
}

/// PDF conversion: the route between the two paths.
pub fn convertir_pdf(input: &str, output: &str, _fmt: FormatSortie) -> (r: PlanConversion)
    ensures
        r == plan_chemins(input@, output@),
{
    plan_conversion(detecter_format_entree(input), detecter_format_sortie(output))
}

/// How the text to extract from a document is read: office and PDF files by
/// their readers, HTML flattened, Markdown rendered then flattened, any other
/// file taken as text.
pub open spec fn lecture_extraction(fe: Option<FormatEntree>) -> (Source, Traitement) {
    match fe {
        Some(FormatEntree::Docx) | Some(FormatEntree::Dotx) => (Source::Docx, Traitement::Aucun),
        Some(FormatEntree::Odt) => (Source::Odt, Traitement::Aucun),
        Some(FormatEntree::Html) => (Source::Texte, Traitement::HtmlVersTexte),
        Some(FormatEntree::Md) => (Source::Texte, Traitement::MarkdownVersTexte),
        Some(FormatEntree::Pdf) => (Source::Pdf, Traitement::Aucun),
        _ => (Source::Texte, Traitement::Aucun),
    }
}

/// Text extraction from a document: how its text is read, by the format
/// that the extension of its path names.
pub fn extraire_texte(input: &str) -> (r: (Source, Traitement))
    ensures
        r == lecture_extraction(format_entree(input@)),
{
    match detecter_format_entree(input) {
        Some(FormatEntree::Docx) | Some(FormatEntree::Dotx) => (Source::Docx, Traitement::Aucun),
        Some(FormatEntree::Odt) => (Source::Odt, Traitement::Aucun),
        Some(FormatEntree::Html) => (Source::Texte, Traitement::HtmlVersTexte),
        Some(FormatEntree::Md) => (Source::Texte, Traitement::MarkdownVersTexte),
        Some(FormatEntree::Pdf) => (Source::Pdf, Traitement::Aucun),
        _ => (Source::Texte, Traitement::Aucun),
    }
}

/// Conversion of a document to PDF beside it: the PDF's path (the input's
/// with the extension `pdf`) and the route.
pub fn convertir_vers_pdf(input: &str, _format_entree: Option<FormatEntree>) -> (r: (String, PlanConversion))
    ensures
        r.0@ == avec_extension(input@, seq!['p', 'd', 'f']),
        r.1 == plan_chemins(input@, avec_extension(input@, seq!['p', 'd', 'f'])),
{
    let sortie = chemin_avec_extension(input, &['p', 'd', 'f']);
    let plan = plan_conversion(detecter_format_entree(input), detecter_format_sortie(sortie.as_str()));
    (sortie, plan)
}

// ───────────────────────── converting the text read ─────────────────────────

/// What a conversion produces: the pages of text of a PDF, a text file, or
/// the files of an archive.
pub enum Produit {
    Pdf(Vec<Vec<String>>),
    Texte(String),
    Archive(Vec<EntreeArchive>),
}

pub enum VueProduit {
    Pdf(Seq<Seq<Seq<char>>>),
    Texte(Seq<char>),
    Archive(Seq<(Seq<char>, Seq<char>, bool)>),
}

pub open spec fn vue_produit(p: Produit) -> VueProduit {
    match p {
        Produit::Pdf(v) => VueProduit::Pdf(vues_pages(v@)),
        Produit::Texte(t) => VueProduit::Texte(t@),
        Produit::Archive(a) => VueProduit::Archive(vues_entrees(a@)),
    }
}

/// The text after the treatment (the blocks treatment leaves it as it is).
pub open spec fn texte_traite(t: Seq<char>, tr: Traitement) -> Seq<char> {
    match tr {
        Traitement::Aucun => t,
        Traitement::MarkdownVersTexte => texte_de_html(html_de_markdown(t)),
        Traitement::HtmlVersTexte => texte_de_html(t),
        Traitement::MarkdownVersPage => page_html(html_de_markdown(t)),
        Traitement::TexteVersHtml => html_de_texte(t),
        Traitement::HtmlVersMarkdown => markdown_de_html(t),
        Traitement::MarkdownVersBlocs => t,
    }
}

/// What is written of a treated text for a target that takes text.
pub open spec fn produit_texte(x: Seq<char>, c: Cible) -> Option<VueProduit> {
    match c {
        Cible::Pdf => Some(VueProduit::Pdf(pages_texte(x))),
        Cible::Fichier => Some(VueProduit::Texte(x)),
        Cible::DocxSimple => Some(VueProduit::Archive(archive_docx(corps_docx_simple(x)))),
        Cible::OdtSimple => Some(VueProduit::Archive(archive_odt(corps_odt_simple(x), Seq::empty()))),
        Cible::RtfSimple => Some(VueProduit::Texte(entete_rtf() + lignes_rtf(lignes_texte(x)) + "}"@)),
        Cible::Epub => Some(VueProduit::Archive(archive_epub(x))),
        _ => None,
    }
}

/// What is written of formatted blocks for a rich target.
pub open spec fn produit_riche(b: Seq<Block>, c: Cible) -> VueProduit {
    match c {
        Cible::DocxRiche => VueProduit::Archive(archive_docx(blocs_docx(b))),
        Cible::OdtRiche => VueProduit::Archive(archive_odt(blocs_odt(b), styles_odt())),
        _ => VueProduit::Texte(entete_rtf() + "\n"@ + blocs_rtf(b) + "}"@),
    }
}

pub open spec fn cible_riche(c: Cible) -> bool {
    c == Cible::DocxRiche || c == Cible::OdtRiche || c == Cible::RtfRiche
}

fn traiter(t: &str, tr: Traitement) -> (r: String)
    ensures
        r@ == texte_traite(t@, tr),
{
    match tr {
        Traitement::Aucun | Traitement::MarkdownVersBlocs => String::from_str(t),
        Traitement::MarkdownVersTexte => html_vers_texte(md_vers_html(t).as_str()),
        Traitement::HtmlVersTexte => html_vers_texte(t),
        Traitement::MarkdownVersPage => ecrire_page_html(md_vers_html(t).as_str()),
        Traitement::TexteVersHtml => texte_vers_html(t),
        Traitement::HtmlVersMarkdown => html_vers_md(t),
    }
}

/// The conversion of the text read from a document (the heart of
/// `convertir`): the treatment, then what the target writes. A rich target
/// writes the formatted blocks of the Markdown read; a PDF gets the pages of
/// the treated text.
pub fn convertir_contenu(lu: &str, traitement: Traitement, cible: Cible) -> (r: Result<Produit, String>)
    ensures
        cible_riche(cible) ==> (r matches Ok(p) && exists|b: Seq<Block>| vues_blocs(b) == blocs_md(lu@)
            && vue_produit(p) == produit_riche(b, cible)),
        !cible_riche(cible) ==> match produit_texte(texte_traite(lu@, traitement), cible) {
            Some(v) => (r matches Ok(p) && vue_produit(p) == v),
            None => r is Err,
        },
{
    match cible {
        Cible::DocxRiche => {
            let b = md_vers_blocs(lu);
            Ok(Produit::Archive(ecrire_docx_riche(&b)))
        },
        Cible::OdtRiche => {
            let b = md_vers_blocs(lu);
            Ok(Produit::Archive(ecrire_odt_riche(&b)))
        },
        Cible::RtfRiche => {
            let b = md_vers_blocs(lu);
            Ok(Produit::Texte(ecrire_rtf_riche(&b)))
        },
        _ => {
            let x = traiter(lu, traitement);
            match cible {
                Cible::Pdf => Ok(Produit::Pdf(texte_vers_pages(x.as_str()))),
                Cible::Fichier => Ok(Produit::Texte(x)),
                Cible::DocxSimple => Ok(Produit::Archive(ecrire_docx_simple(x.as_str()))),
                Cible::OdtSimple => Ok(Produit::Archive(ecrire_odt_simple(x.as_str()))),
                Cible::RtfSimple => Ok(Produit::Texte(ecrire_rtf_simple(x.as_str()))),
                _ => Ok(Produit::Archive(ecrire_epub_simple(x.as_str()))),
            }
        },
    }
}

/// The text of a DOCX's `word/document.xml` (`lire_docx_texte`, once the
/// archive is read): its `w:t` runs.
pub fn texte_docx_xml(xml: &str) -> (r: Result<String, String>)
    ensures
        match crate::xml::evenements_xml(xml@) {
            Some(evs) => r is Ok && r->Ok_0@ == crate::xml::texte_xml(evs, seq!["w:t"@]),
            None => r is Err,
        },
{
    let balises: [&str; 1] = ["w:t"];
    assert(crate::xml::vues_str(balises@) =~= seq!["w:t"@]);
    crate::xml::extraire_texte_xml(xml, &balises)
}

/// The text of an ODT's `content.xml` (`lire_odt_texte`, once the archive
/// is read): its paragraphs, headings and spans.
pub fn texte_odt_xml(xml: &str) -> (r: Result<String, String>)
    ensures
        match crate::xml::evenements_xml(xml@) {
            Some(evs) => r is Ok && r->Ok_0@ == crate::xml::texte_xml(evs, seq!["text:p"@, "text:h"@, "text:span"@]),
            None => r is Err,
        },
{
    let balises: [&str; 3] = ["text:p", "text:h", "text:span"];
    assert(crate::xml::vues_str(balises@) =~= seq!["text:p"@, "text:h"@, "text:span"@]);
    crate::xml::extraire_texte_xml(xml, &balises)
}

/// The text of a DOCX document from the bytes of its archive
/// (`lire_docx_texte`): its `word/document.xml` member, then its `w:t` runs.
pub fn texte_docx(archive: &[u8]) -> (r: Result<String, String>)
    ensures
        match entree_zip(archive@, "word/document.xml"@) {
            None => r matches Err(m) && message_zip(m@, "DOCX"@, "word/document.xml"@),
            Some(x) => match crate::xml::evenements_xml(x) {
                Some(evs) => r is Ok && r->Ok_0@ == crate::xml::texte_xml(evs, seq!["w:t"@]),
                None => r is Err,
            },
        },
{
    let xml = membre_zip(archive, "word/document.xml", "DOCX")?;
    texte_docx_xml(xml.as_str())
}

/// The text of an ODT document from the bytes of its archive
/// (`lire_odt_texte`): its `content.xml` member, then its paragraphs,
/// headings and spans.
pub fn texte_odt(archive: &[u8]) -> (r: Result<String, String>)
    ensures
        match entree_zip(archive@, "content.xml"@) {
            None => r matches Err(m) && message_zip(m@, "ODT"@, "content.xml"@),
            Some(x) => match crate::xml::evenements_xml(x) {
                Some(evs) => r is Ok && r->Ok_0@ == crate::xml::texte_xml(evs, seq!["text:p"@, "text:h"@, "text:span"@]),
                None => r is Err,
            },
        },
{
    let xml = membre_zip(archive, "content.xml", "ODT")?;
    texte_odt_xml(xml.as_str())
}

} // verus!
