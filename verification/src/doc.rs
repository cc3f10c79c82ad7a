use vstd::prelude::*;
use vstd::string::StringExecFns;
use crate::chemin::{extension_chemin, extension_de};
use crate::texte::{ascii_minuscule, egal, est_ascii, minuscules_texte, vers_minuscules};

verus! {

broadcast use vstd::string::group_string_axioms;

/// The document formats that can be read.
#[derive(Debug, Clone, Copy, PartialEq, Eq, Structural)]
pub enum FormatEntree {
    Docx, Csv, Dotx, Json, Log, Md, Odt, Typst, Yaml, Html, Tex, Rst, Pdf, Txt,
}

/// The document formats that can be written.
#[derive(Debug, Clone, Copy, PartialEq, Eq, Structural)]
pub enum FormatSortie {
    Docx, Html, Md, Odt, Tex, Plain, Pdf, Rtf, Epub,
}

/// The input format that a lowercased extension names.
pub open spec fn format_entree_ext(e: Seq<char>) -> Option<FormatEntree> {
    if e == seq!['d', 'o', 'c', 'x'] { Some(FormatEntree::Docx) }
    else if e == seq!['d', 'o', 't', 'x'] { Some(FormatEntree::Dotx) }
    else if e == seq!['c', 's', 'v'] { Some(FormatEntree::Csv) }
    else if e == seq!['j', 's', 'o', 'n'] { Some(FormatEntree::Json) }
    else if e == seq!['l', 'o', 'g'] { Some(FormatEntree::Log) }
    else if e == seq!['m', 'd'] || e == seq!['m', 'a', 'r', 'k', 'd', 'o', 'w', 'n'] { Some(FormatEntree::Md) }
    else if e == seq!['o', 'd', 't'] { Some(FormatEntree::Odt) }
    else if e == seq!['t', 'y', 'p', 's', 't'] || e == seq!['t', 'y', 'p'] { Some(FormatEntree::Typst) }
    else if e == seq!['y', 'a', 'm', 'l'] || e == seq!['y', 'm', 'l'] { Some(FormatEntree::Yaml) }
    else if e == seq!['h', 't', 'm', 'l'] || e == seq!['h', 't', 'm'] { Some(FormatEntree::Html) }
    else if e == seq!['t', 'e', 'x'] { Some(FormatEntree::Tex) }
    else if e == seq!['r', 's', 't'] { Some(FormatEntree::Rst) }
    else if e == seq!['p', 'd', 'f'] { Some(FormatEntree::Pdf) }
    else if e == seq!['t', 'x', 't'] || e == seq!['t', 'e', 'x', 't'] || e == seq!['n', 'f', 'o'] { Some(FormatEntree::Txt) }
    else { None }
}

/// The output format that a lowercased extension names.
pub open spec fn format_sortie_ext(e: Seq<char>) -> Option<FormatSortie> {
    if e == seq!['d', 'o', 'c', 'x'] { Some(FormatSortie::Docx) }
    else if e == seq!['h', 't', 'm', 'l'] || e == seq!['h', 't', 'm'] { Some(FormatSortie::Html) }
    else if e == seq!['m', 'd'] || e == seq!['m', 'a', 'r', 'k', 'd', 'o', 'w', 'n'] { Some(FormatSortie::Md) }
    else if e == seq!['o', 'd', 't'] { Some(FormatSortie::Odt) }
    else if e == seq!['t', 'e', 'x'] { Some(FormatSortie::Tex) }
    else if e == seq!['t', 'x', 't'] { Some(FormatSortie::Plain) }
    else if e == seq!['r', 't', 'f'] { Some(FormatSortie::Rtf) }
    else if e == seq!['e', 'p', 'u', 'b'] { Some(FormatSortie::Epub) }
    else if e == seq!['p', 'd', 'f'] { Some(FormatSortie::Pdf) }
    else { None }
}

/// The input format of a path, from its extension in any letter case.
pub open spec fn format_entree(p: Seq<char>) -> Option<FormatEntree> {
    match extension_chemin(p) {
        Some(e) => format_entree_ext(minuscules_texte(e)),
        None => None,
    }
}

/// The output format of a path, from its extension in any letter case.
pub open spec fn format_sortie(p: Seq<char>) -> Option<FormatSortie> {
    match extension_chemin(p) {
        Some(e) => format_sortie_ext(minuscules_texte(e)),
        None => None,
    }
}

fn format_entree_de_ext(e: &[char]) -> (r: Option<FormatEntree>)
    ensures
        r == format_entree_ext(e@),
{
    if egal(e, &['d', 'o', 'c', 'x']) { Some(FormatEntree::Docx) }
    else if egal(e, &['d', 'o', 't', 'x']) { Some(FormatEntree::Dotx) }
    else if egal(e, &['c', 's', 'v']) { Some(FormatEntree::Csv) }
    else if egal(e, &['j', 's', 'o', 'n']) { Some(FormatEntree::Json) }
    else if egal(e, &['l', 'o', 'g']) { Some(FormatEntree::Log) }
    else if egal(e, &['m', 'd']) || egal(e, &['m', 'a', 'r', 'k', 'd', 'o', 'w', 'n']) { Some(FormatEntree::Md) }
    else if egal(e, &['o', 'd', 't']) { Some(FormatEntree::Odt) }
    else if egal(e, &['t', 'y', 'p', 's', 't']) || egal(e, &['t', 'y', 'p']) { Some(FormatEntree::Typst) }
    else if egal(e, &['y', 'a', 'm', 'l']) || egal(e, &['y', 'm', 'l']) { Some(FormatEntree::Yaml) }
    else if egal(e, &['h', 't', 'm', 'l']) || egal(e, &['h', 't', 'm']) { Some(FormatEntree::Html) }
    else if egal(e, &['t', 'e', 'x']) { Some(FormatEntree::Tex) }
    else if egal(e, &['r', 's', 't']) { Some(FormatEntree::Rst) }
    else if egal(e, &['p', 'd', 'f']) { Some(FormatEntree::Pdf) }
    else if egal(e, &['t', 'x', 't']) || egal(e, &['t', 'e', 'x', 't']) || egal(e, &['n', 'f', 'o']) { Some(FormatEntree::Txt) }
    else { None }
}

fn format_sortie_de_ext(e: &[char]) -> (r: Option<FormatSortie>)
    ensures
        r == format_sortie_ext(e@),
{
    if egal(e, &['d', 'o', 'c', 'x']) { Some(FormatSortie::Docx) }
    else if egal(e, &['h', 't', 'm', 'l']) || egal(e, &['h', 't', 'm']) { Some(FormatSortie::Html) }
    else if egal(e, &['m', 'd']) || egal(e, &['m', 'a', 'r', 'k', 'd', 'o', 'w', 'n']) { Some(FormatSortie::Md) }
    else if egal(e, &['o', 'd', 't']) { Some(FormatSortie::Odt) }
    else if egal(e, &['t', 'e', 'x']) { Some(FormatSortie::Tex) }
    else if egal(e, &['t', 'x', 't']) { Some(FormatSortie::Plain) }
    else if egal(e, &['r', 't', 'f']) { Some(FormatSortie::Rtf) }
    else if egal(e, &['e', 'p', 'u', 'b']) { Some(FormatSortie::Epub) }
    else if egal(e, &['p', 'd', 'f']) { Some(FormatSortie::Pdf) }
    else { None }
}

/// The format of a document to read, from the extension of its path.
pub fn detecter_format_entree(path: &str) -> (r: Option<FormatEntree>)
    ensures
        r == format_entree(path@),
        extension_chemin(path@) matches Some(e)
            ==> (est_ascii(e) ==> r == format_entree_ext(e.map_values(|c: char| ascii_minuscule(c)))),
{
    match extension_de(path) {
        Some(e) => format_entree_de_ext(&vers_minuscules(&e)),
        None => None,
    }
}

/// The format of a document to write, from the extension of its path.
pub fn detecter_format_sortie(output: &str) -> (r: Option<FormatSortie>)
    ensures
        r == format_sortie(output@),
        extension_chemin(output@) matches Some(e)
            ==> (est_ascii(e) ==> r == format_sortie_ext(e.map_values(|c: char| ascii_minuscule(c)))),
{
    match extension_de(output) {
        Some(e) => format_sortie_de_ext(&vers_minuscules(&e)),
        None => None,
    }
}

/// Whether a path names a PDF (extension `pdf` in any ASCII letter case).
pub open spec fn est_pdf_spec(p: Seq<char>) -> bool {
    match extension_chemin(p) {
        Some(e) => e.len() == 3 && (e[0] == 'p' || e[0] == 'P') && (e[1] == 'd' || e[1] == 'D')
            && (e[2] == 'f' || e[2] == 'F'),
        None => false,
    }
}

pub fn est_pdf(path: &str) -> (r: bool)
    ensures
        r == est_pdf_spec(path@),
{
    match extension_de(path) {
        Some(e) => e.len() == 3 && (e[0] == 'p' || e[0] == 'P') && (e[1] == 'd' || e[1] == 'D')
            && (e[2] == 'f' || e[2] == 'F'),
        None => false,
    }
}

/// How an operation on PDF pages treats a document: a PDF directly, any
/// other document through a PDF in the temporary folder, which is then
/// copied to the output, or converted back when the output's format is
/// known and is not PDF.
pub enum PlanOperation {
    Direct,
    ViaPdf { pdf_entree: String, pdf_sortie: String, recopier: bool },
}

/// The temporary PDF of a document: `oxytools_tmp_<stem>.pdf`.
pub open spec fn pdf_temporaire(stem: Seq<char>) -> Seq<char> {
    "oxytools_tmp_"@ + stem + ".pdf"@
}

/// What the operation writes before converting back: `oxytools_tmp_<stem>_out.pdf`.
pub open spec fn pdf_temporaire_sortie(stem: Seq<char>) -> Seq<char> {
    "oxytools_tmp_"@ + stem + "_out.pdf"@
}

/// The plan of `appliquer_operation_doc` for an input, an output and the
/// temporary folder.
pub fn appliquer_operation_doc(input: &str, output: &str, dossier_temp: &str, sep: char) -> (r: PlanOperation)
    ensures
        est_pdf_spec(input@) ==> r is Direct,
        !est_pdf_spec(input@) ==> (r matches PlanOperation::ViaPdf { pdf_entree, pdf_sortie, recopier }
            && pdf_entree@ == crate::chemin::jointure(dossier_temp@,
                pdf_temporaire(crate::chemin::radical(crate::chemin::nom_fichier(input@))), sep)
            && pdf_sortie@ == crate::chemin::jointure(dossier_temp@,
                pdf_temporaire_sortie(crate::chemin::radical(crate::chemin::nom_fichier(input@))), sep)
            && recopier == (format_sortie(output@) is None || format_sortie(output@) == Some(FormatSortie::Pdf))),
{
    if est_pdf(input) {
        return PlanOperation::Direct;
    }
    let stem = crate::texte::chaine(&crate::chemin::radical_de(input));
    let mut a = String::from_str("oxytools_tmp_");
    a.append(stem.as_str());
    let mut b = a.clone();
    a.append(".pdf");
    b.append("_out.pdf");
    let recopier = match detecter_format_sortie(output) {
        None => true,
        Some(FormatSortie::Pdf) => true,
        Some(_) => false,
    };
    PlanOperation::ViaPdf {
        pdf_entree: crate::chemin::joindre_chemin(dossier_temp, a.as_str(), sep),
        pdf_sortie: crate::chemin::joindre_chemin(dossier_temp, b.as_str(), sep),
        recopier,
    }
}


/// The files the PDF operation reads and writes: the input and the output
/// for a PDF, the two temporary PDFs otherwise (never the output).
pub fn chemins_operation(plan: &PlanOperation, input: &str, output: &str) -> (r: (String, String))
    ensures
        match plan {
            PlanOperation::Direct => r.0@ == input@ && r.1@ == output@,
            PlanOperation::ViaPdf { pdf_entree, pdf_sortie, .. } => r.0@ == pdf_entree@ && r.1@ == pdf_sortie@,
        },
{
    match plan {
        PlanOperation::Direct => (String::from_str(input), String::from_str(output)),
        PlanOperation::ViaPdf { pdf_entree, pdf_sortie, .. } => (pdf_entree.clone(), pdf_sortie.clone()),
    }
}

/// What follows the PDF operation, which runs once.
pub enum Etape {
    /// Done: this is the result of `appliquer_operation_doc`.
    Terminee(Result<(), String>),
    /// The operation's PDF is copied to the output, then removed.
    Recopier { de: String, vers: String },
    /// The operation's PDF is converted back into the output, then removed.
    Reconvertir { de: String, vers: String },
}

/// After the PDF operation ran and gave `resultat`: the temporary files to
/// remove at once, and the next step. A direct operation's result is the
/// result. Through temporary PDFs, the input PDF goes; a failure removes
/// the operation's PDF too and is the result, the output not being written;
/// a success copies or converts the operation's PDF into the output.
pub fn apres_operation(plan: &PlanOperation, output: &str, resultat: Result<(), String>) -> (r: (Vec<String>, Etape))
    ensures
        match plan {
            PlanOperation::Direct => r.0.len() == 0 && r.1 == Etape::Terminee(resultat),
            PlanOperation::ViaPdf { pdf_entree, pdf_sortie, recopier } => match resultat {
                Err(e) => r.0.len() == 2 && r.0@[0]@ == pdf_entree@ && r.0@[1]@ == pdf_sortie@
                    && r.1 == Etape::Terminee(Err(e)),
                Ok(()) => r.0.len() == 1 && r.0@[0]@ == pdf_entree@ && if *recopier {
                    r.1 matches Etape::Recopier { de, vers } && de@ == pdf_sortie@ && vers@ == output@
                } else {
                    r.1 matches Etape::Reconvertir { de, vers } && de@ == pdf_sortie@ && vers@ == output@
                },
            },
        },
{
    match plan {
        PlanOperation::Direct => (Vec::new(), Etape::Terminee(resultat)),
        PlanOperation::ViaPdf { pdf_entree, pdf_sortie, recopier } => match resultat {
            Err(e) => (vec![pdf_entree.clone(), pdf_sortie.clone()], Etape::Terminee(Err(e))),
            Ok(()) => {
                let suite = if *recopier {
                    Etape::Recopier { de: pdf_sortie.clone(), vers: String::from_str(output) }
                } else {
                    Etape::Reconvertir { de: pdf_sortie.clone(), vers: String::from_str(output) }
                };
                (vec![pdf_entree.clone()], suite)
            },
        },
    }
}

/// The output format comes from the extension alone, in any letter case:
/// `docx` is DOCX, `html` or `htm` HTML, `md` or `markdown` Markdown, `odt`
/// ODT, `tex` LaTeX, `txt` plain text, `rtf` RTF, `epub` EPUB, `pdf` PDF,
/// and each format is given by its own extensions only.
pub proof fn loi_format_sortie(p: Seq<char>, e: Seq<char>)
    requires
        extension_chemin(p) == Some(e),
        est_ascii(e),
    ensures
        format_sortie(p) == Some(FormatSortie::Docx)
            <==> e.map_values(|c: char| ascii_minuscule(c)) == seq!['d', 'o', 'c', 'x'],
        format_sortie(p) == Some(FormatSortie::Html)
            <==> e.map_values(|c: char| ascii_minuscule(c)) == seq!['h', 't', 'm', 'l']
                || e.map_values(|c: char| ascii_minuscule(c)) == seq!['h', 't', 'm'],
        format_sortie(p) == Some(FormatSortie::Md)
            <==> e.map_values(|c: char| ascii_minuscule(c)) == seq!['m', 'd']
                || e.map_values(|c: char| ascii_minuscule(c)) == seq!['m', 'a', 'r', 'k', 'd', 'o', 'w', 'n'],
        format_sortie(p) == Some(FormatSortie::Odt)
            <==> e.map_values(|c: char| ascii_minuscule(c)) == seq!['o', 'd', 't'],
        format_sortie(p) == Some(FormatSortie::Tex)
            <==> e.map_values(|c: char| ascii_minuscule(c)) == seq!['t', 'e', 'x'],
        format_sortie(p) == Some(FormatSortie::Plain)
            <==> e.map_values(|c: char| ascii_minuscule(c)) == seq!['t', 'x', 't'],
        format_sortie(p) == Some(FormatSortie::Rtf)
            <==> e.map_values(|c: char| ascii_minuscule(c)) == seq!['r', 't', 'f'],
        format_sortie(p) == Some(FormatSortie::Epub)
            <==> e.map_values(|c: char| ascii_minuscule(c)) == seq!['e', 'p', 'u', 'b'],
        format_sortie(p) == Some(FormatSortie::Pdf)
            <==> e.map_values(|c: char| ascii_minuscule(c)) == seq!['p', 'd', 'f'],
{
    let x = e.map_values(|c: char| ascii_minuscule(c));
    assert(format_sortie(p) == format_sortie_ext(x));
    if x.len() == 3 {
        assert(seq!['o', 'd', 't'][0] == 'o');
        assert(seq!['t', 'e', 'x'][0] == 't' && seq!['t', 'e', 'x'][1] == 'e');
        assert(seq!['t', 'x', 't'][0] == 't' && seq!['t', 'x', 't'][1] == 'x');
        assert(seq!['r', 't', 'f'][0] == 'r');
        assert(seq!['p', 'd', 'f'][0] == 'p');
        assert(seq!['h', 't', 'm'][0] == 'h');
    }
    if x.len() == 4 {
        assert(seq!['d', 'o', 'c', 'x'][0] == 'd');
        assert(seq!['h', 't', 'm', 'l'][0] == 'h');
        assert(seq!['e', 'p', 'u', 'b'][0] == 'e');
    }
}

/// The input format comes from the extension alone, in any letter case,
/// each format from its own extensions only: `docx`, `dotx`, `csv`, `json`,
/// `log`, `md`/`markdown`, `odt`, `typst`/`typ`, `yaml`/`yml`,
/// `html`/`htm`, `tex`, `rst`, `pdf`, and `txt`/`text`/`nfo` for text.
pub proof fn loi_format_entree(p: Seq<char>, e: Seq<char>)
    requires
        extension_chemin(p) == Some(e),
        est_ascii(e),
    ensures
        format_entree(p) == Some(FormatEntree::Docx)
            <==> e.map_values(|c: char| ascii_minuscule(c)) == seq!['d', 'o', 'c', 'x'],
        format_entree(p) == Some(FormatEntree::Dotx)
            <==> e.map_values(|c: char| ascii_minuscule(c)) == seq!['d', 'o', 't', 'x'],
        format_entree(p) == Some(FormatEntree::Csv)
            <==> e.map_values(|c: char| ascii_minuscule(c)) == seq!['c', 's', 'v'],
        format_entree(p) == Some(FormatEntree::Json)
            <==> e.map_values(|c: char| ascii_minuscule(c)) == seq!['j', 's', 'o', 'n'],
        format_entree(p) == Some(FormatEntree::Log)
            <==> e.map_values(|c: char| ascii_minuscule(c)) == seq!['l', 'o', 'g'],
        format_entree(p) == Some(FormatEntree::Md)
            <==> e.map_values(|c: char| ascii_minuscule(c)) == seq!['m', 'd']
                || e.map_values(|c: char| ascii_minuscule(c)) == seq!['m', 'a', 'r', 'k', 'd', 'o', 'w', 'n'],
        format_entree(p) == Some(FormatEntree::Odt)
            <==> e.map_values(|c: char| ascii_minuscule(c)) == seq!['o', 'd', 't'],
        format_entree(p) == Some(FormatEntree::Typst)
            <==> e.map_values(|c: char| ascii_minuscule(c)) == seq!['t', 'y', 'p', 's', 't']
                || e.map_values(|c: char| ascii_minuscule(c)) == seq!['t', 'y', 'p'],
        format_entree(p) == Some(FormatEntree::Yaml)
            <==> e.map_values(|c: char| ascii_minuscule(c)) == seq!['y', 'a', 'm', 'l']
                || e.map_values(|c: char| ascii_minuscule(c)) == seq!['y', 'm', 'l'],
        format_entree(p) == Some(FormatEntree::Html)
            <==> e.map_values(|c: char| ascii_minuscule(c)) == seq!['h', 't', 'm', 'l']
                || e.map_values(|c: char| ascii_minuscule(c)) == seq!['h', 't', 'm'],
        format_entree(p) == Some(FormatEntree::Tex)
            <==> e.map_values(|c: char| ascii_minuscule(c)) == seq!['t', 'e', 'x'],
        format_entree(p) == Some(FormatEntree::Rst)
            <==> e.map_values(|c: char| ascii_minuscule(c)) == seq!['r', 's', 't'],
        format_entree(p) == Some(FormatEntree::Pdf)
            <==> e.map_values(|c: char| ascii_minuscule(c)) == seq!['p', 'd', 'f'],
        format_entree(p) == Some(FormatEntree::Txt)
            <==> e.map_values(|c: char| ascii_minuscule(c)) == seq!['t', 'x', 't']
                || e.map_values(|c: char| ascii_minuscule(c)) == seq!['t', 'e', 'x', 't']
                || e.map_values(|c: char| ascii_minuscule(c)) == seq!['n', 'f', 'o'],
{
    let x = e.map_values(|c: char| ascii_minuscule(c));
    assert(format_entree(p) == format_entree_ext(x));
    if x.len() == 3 {
        assert(seq!['c', 's', 'v'][0] == 'c' && seq!['c', 's', 'v'][1] == 's' && seq!['c', 's', 'v'][2] == 'v');
        assert(seq!['l', 'o', 'g'][0] == 'l' && seq!['l', 'o', 'g'][1] == 'o' && seq!['l', 'o', 'g'][2] == 'g');
        assert(seq!['o', 'd', 't'][0] == 'o' && seq!['o', 'd', 't'][1] == 'd' && seq!['o', 'd', 't'][2] == 't');
        assert(seq!['t', 'y', 'p'][0] == 't' && seq!['t', 'y', 'p'][1] == 'y' && seq!['t', 'y', 'p'][2] == 'p');
        assert(seq!['y', 'm', 'l'][0] == 'y' && seq!['y', 'm', 'l'][1] == 'm' && seq!['y', 'm', 'l'][2] == 'l');
        assert(seq!['h', 't', 'm'][0] == 'h' && seq!['h', 't', 'm'][1] == 't' && seq!['h', 't', 'm'][2] == 'm');
        assert(seq!['t', 'e', 'x'][0] == 't' && seq!['t', 'e', 'x'][1] == 'e' && seq!['t', 'e', 'x'][2] == 'x');
        assert(seq!['r', 's', 't'][0] == 'r' && seq!['r', 's', 't'][1] == 's' && seq!['r', 's', 't'][2] == 't');
        assert(seq!['p', 'd', 'f'][0] == 'p' && seq!['p', 'd', 'f'][1] == 'd' && seq!['p', 'd', 'f'][2] == 'f');
        assert(seq!['t', 'x', 't'][0] == 't' && seq!['t', 'x', 't'][1] == 'x' && seq!['t', 'x', 't'][2] == 't');
        assert(seq!['n', 'f', 'o'][0] == 'n' && seq!['n', 'f', 'o'][1] == 'f' && seq!['n', 'f', 'o'][2] == 'o');
    }
    if x.len() == 4 {
        assert(seq!['d', 'o', 'c', 'x'][0] == 'd' && seq!['d', 'o', 'c', 'x'][1] == 'o' && seq!['d', 'o', 'c', 'x'][2] == 'c' && seq!['d', 'o', 'c', 'x'][3] == 'x');
        assert(seq!['d', 'o', 't', 'x'][0] == 'd' && seq!['d', 'o', 't', 'x'][1] == 'o' && seq!['d', 'o', 't', 'x'][2] == 't' && seq!['d', 'o', 't', 'x'][3] == 'x');
        assert(seq!['j', 's', 'o', 'n'][0] == 'j' && seq!['j', 's', 'o', 'n'][1] == 's' && seq!['j', 's', 'o', 'n'][2] == 'o' && seq!['j', 's', 'o', 'n'][3] == 'n');
        assert(seq!['y', 'a', 'm', 'l'][0] == 'y' && seq!['y', 'a', 'm', 'l'][1] == 'a' && seq!['y', 'a', 'm', 'l'][2] == 'm' && seq!['y', 'a', 'm', 'l'][3] == 'l');
        assert(seq!['h', 't', 'm', 'l'][0] == 'h' && seq!['h', 't', 'm', 'l'][1] == 't' && seq!['h', 't', 'm', 'l'][2] == 'm' && seq!['h', 't', 'm', 'l'][3] == 'l');
        assert(seq!['t', 'e', 'x', 't'][0] == 't' && seq!['t', 'e', 'x', 't'][1] == 'e' && seq!['t', 'e', 'x', 't'][2] == 'x' && seq!['t', 'e', 'x', 't'][3] == 't');
    }
}

} // verus!
