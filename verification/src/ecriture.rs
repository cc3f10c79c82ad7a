use vstd::prelude::*;
use vstd::string::StringExecFns;
use crate::blocs::{blocs_docx, blocs_odt, blocs_rtf, blocs_vers_docx_xml, blocs_vers_odt_xml, blocs_vers_rtf, Block};
use crate::doc_texte::{echappe_rtf, echappe_xml, rtf_escape, xml_escape};
use crate::mise_en_page::{lignes, lignes_texte};

verus! {

broadcast use vstd::string::group_string_axioms;

/// A file of an archive (DOCX, ODT, EPUB): its name, its text, and whether
/// it is compressed (else stored).
pub struct EntreeArchive {
    pub nom: String,
    pub contenu: String,
    pub compresse: bool,
}

pub open spec fn vue_entree(e: EntreeArchive) -> (Seq<char>, Seq<char>, bool) {
    (e.nom@, e.contenu@, e.compresse)
}

pub open spec fn vues_entrees(v: Seq<EntreeArchive>) -> Seq<(Seq<char>, Seq<char>, bool)> {
    v.map_values(|e: EntreeArchive| vue_entree(e))
}

/// Each line escaped for XML between `avant` and `apres`.
pub open spec fn balisees(ls: Seq<Seq<char>>, avant: Seq<char>, apres: Seq<char>) -> Seq<char>
    decreases ls.len(),
{
    if ls.len() == 0 { Seq::empty() } else { balisees(ls.drop_last(), avant, apres) + avant + echappe_xml(ls.last()) + apres }
}

fn ecrire_balisees(texte: &str, avant: &str, apres: &str) -> (r: String)
    ensures
        r@ == balisees(lignes_texte(texte@), avant@, apres@),
{
    let ls = lignes(texte);
    let ghost vl = crate::texte::vues_chaines(ls@);
    let mut r = String::new();
    let mut i: usize = 0;
    assert(vl.take(0) =~= Seq::<Seq<char>>::empty());
    while i < ls.len()
        invariant
            i <= ls.len(),
            vl == crate::texte::vues_chaines(ls@),
            r@ == balisees(vl.take(i as int), avant@, apres@),
        decreases ls.len() - i,
    {
        assert(vl.take(i + 1).drop_last() =~= vl.take(i as int));
        assert(vl.take(i + 1).last() == ls@[i as int]@);
        let e = xml_escape(ls[i].as_str());
        r.append(avant);
        r.append(e.as_str());
        r.append(apres);
        i += 1;
    }
    assert(vl.take(ls.len() as int) =~= vl);
    r
}

// ───────────────────────── DOCX ─────────────────────────

pub open spec fn types_docx() -> Seq<char> {
    r#"<?xml version="1.0" encoding="UTF-8" standalone="yes"?>
<Types xmlns="http://schemas.openxmlformats.org/package/2006/content-types">
  <Default Extension="rels" ContentType="application/vnd.openxmlformats-package.relationships+xml"/>
  <Default Extension="xml" ContentType="application/xml"/>
  <Override PartName="/word/document.xml" ContentType="application/vnd.openxmlformats-officedocument.wordprocessingml.document.main+xml"/>
</Types>"#@
}

pub open spec fn relations_docx() -> Seq<char> {
    r#"<?xml version="1.0" encoding="UTF-8" standalone="yes"?>
<Relationships xmlns="http://schemas.openxmlformats.org/package/2006/relationships">
  <Relationship Id="rId1" Type="http://schemas.openxmlformats.org/officeDocument/2006/relationships/officeDocument" Target="word/document.xml"/>
</Relationships>"#@
}

pub open spec fn relations_document_docx() -> Seq<char> {
    r#"<?xml version="1.0" encoding="UTF-8" standalone="yes"?>
<Relationships xmlns="http://schemas.openxmlformats.org/package/2006/relationships">
</Relationships>"#@
}

/// `word/document.xml`: the body between the document's opening and the
/// A4 section properties.
pub open spec fn document_docx(corps: Seq<char>) -> Seq<char> {
    r#"<?xml version="1.0" encoding="UTF-8" standalone="yes"?>
<w:document xmlns:w="http://schemas.openxmlformats.org/wordprocessingml/2006/main">
  <w:body>"#@
        + corps
        + "\n    <w:sectPr>\n      <w:pgSz w:w=\"11906\" w:h=\"16838\"/>\n      <w:pgMar w:top=\"1417\" w:right=\"1417\" w:bottom=\"1417\" w:left=\"1417\" w:header=\"708\" w:footer=\"708\" w:gutter=\"0\"/>\n    </w:sectPr>"@
        + "\n  </w:body>\n</w:document>"@
}

/// The files of a DOCX with the given body, all compressed.
pub open spec fn archive_docx(corps: Seq<char>) -> Seq<(Seq<char>, Seq<char>, bool)> {
    seq![
        ("[Content_Types].xml"@, types_docx(), true),
        ("_rels/.rels"@, relations_docx(), true),
        ("word/_rels/document.xml.rels"@, relations_document_docx(), true),
        ("word/document.xml"@, document_docx(corps), true),
    ]
}

fn entree(nom: &str, contenu: String, compresse: bool) -> (r: EntreeArchive)
    ensures
        vue_entree(r) == (nom@, contenu@, compresse),
{
    EntreeArchive { nom: String::from_str(nom), contenu, compresse }
}

fn ecrire_archive_docx(corps: &str) -> (r: Vec<EntreeArchive>)
    ensures
        vues_entrees(r@) == archive_docx(corps@),
{
    let mut doc = String::from_str(r#"<?xml version="1.0" encoding="UTF-8" standalone="yes"?>
<w:document xmlns:w="http://schemas.openxmlformats.org/wordprocessingml/2006/main">
  <w:body>"#);
    doc.append(corps);
    doc.append("\n    <w:sectPr>\n      <w:pgSz w:w=\"11906\" w:h=\"16838\"/>\n      <w:pgMar w:top=\"1417\" w:right=\"1417\" w:bottom=\"1417\" w:left=\"1417\" w:header=\"708\" w:footer=\"708\" w:gutter=\"0\"/>\n    </w:sectPr>");
    doc.append("\n  </w:body>\n</w:document>");
    let r = vec![
        entree("[Content_Types].xml", String::from_str(r#"<?xml version="1.0" encoding="UTF-8" standalone="yes"?>
<Types xmlns="http://schemas.openxmlformats.org/package/2006/content-types">
  <Default Extension="rels" ContentType="application/vnd.openxmlformats-package.relationships+xml"/>
  <Default Extension="xml" ContentType="application/xml"/>
  <Override PartName="/word/document.xml" ContentType="application/vnd.openxmlformats-officedocument.wordprocessingml.document.main+xml"/>
</Types>"#), true),
        entree("_rels/.rels", String::from_str(r#"<?xml version="1.0" encoding="UTF-8" standalone="yes"?>
<Relationships xmlns="http://schemas.openxmlformats.org/package/2006/relationships">
  <Relationship Id="rId1" Type="http://schemas.openxmlformats.org/officeDocument/2006/relationships/officeDocument" Target="word/document.xml"/>
</Relationships>"#), true),
        entree("word/_rels/document.xml.rels", String::from_str(r#"<?xml version="1.0" encoding="UTF-8" standalone="yes"?>
<Relationships xmlns="http://schemas.openxmlformats.org/package/2006/relationships">
</Relationships>"#), true),
        entree("word/document.xml", doc, true),
    ];
    assert(vues_entrees(r@) =~= archive_docx(corps@));
    r
}

pub open spec fn corps_docx_simple(texte: Seq<char>) -> Seq<char> {
    balisees(lignes_texte(texte), "\n    <w:p><w:r><w:t xml:space=\"preserve\">"@, "</w:t></w:r></w:p>"@)
}

/// A minimal DOCX of a text, one paragraph per line (`ecrire_docx_simple`):
/// the files of the archive.
pub fn ecrire_docx_simple(texte: &str) -> (r: Vec<EntreeArchive>)
    ensures
        vues_entrees(r@) == archive_docx(corps_docx_simple(texte@)),
{
    let corps = ecrire_balisees(texte, "\n    <w:p><w:r><w:t xml:space=\"preserve\">", "</w:t></w:r></w:p>");
    ecrire_archive_docx(corps.as_str())
}

/// A DOCX of formatted blocks (`ecrire_docx_riche`): the files of the
/// archive.
pub fn ecrire_docx_riche(blocks: &Vec<Block>) -> (r: Vec<EntreeArchive>)
    ensures
        vues_entrees(r@) == archive_docx(blocs_docx(blocks@)),
{
    let corps = blocs_vers_docx_xml(blocks);
    ecrire_archive_docx(corps.as_str())
}

// ───────────────────────── ODT ─────────────────────────

pub open spec fn manifeste_odt() -> Seq<char> {
    r#"<?xml version="1.0" encoding="UTF-8"?>
<manifest:manifest xmlns:manifest="urn:oasis:names:tc:opendocument:xmlns:manifest:1.0" manifest:version="1.2">
  <manifest:file-entry manifest:full-path="/" manifest:version="1.2" manifest:media-type="application/vnd.oasis.opendocument.text"/>
  <manifest:file-entry manifest:full-path="content.xml" manifest:media-type="text/xml"/>
</manifest:manifest>"#@
}

pub open spec fn entete_contenu_odt() -> Seq<char> {
    "<?xml version=\"1.0\" encoding=\"UTF-8\"?>\n<office:document-content xmlns:office=\"urn:oasis:names:tc:opendocument:xmlns:office:1.0\" xmlns:text=\"urn:oasis:names:tc:opendocument:xmlns:text:1.0\" xmlns:style=\"urn:oasis:names:tc:opendocument:xmlns:style:1.0\" xmlns:fo=\"urn:oasis:names:tc:opendocument:xmlns:xsl-fo-compatible:1.0\" office:version=\"1.2\">"@
}

/// `content.xml`: the automatic styles, if any, then the body.
pub open spec fn contenu_odt(corps: Seq<char>, styles: Seq<char>) -> Seq<char> {
    entete_contenu_odt()
        + (if styles.len() > 0 {
            "\n  <office:automatic-styles>"@ + styles + "\n  </office:automatic-styles>"@
        } else {
            Seq::empty()
        })
        + "\n  <office:body>\n    <office:text>"@
        + corps
        + "\n    </office:text>\n  </office:body>\n</office:document-content>"@
}

/// The files of an ODT: the stored `mimetype` first, then the manifest and
/// the content, compressed.
pub open spec fn archive_odt(corps: Seq<char>, styles: Seq<char>) -> Seq<(Seq<char>, Seq<char>, bool)> {
    seq![
        ("mimetype"@, "application/vnd.oasis.opendocument.text"@, false),
        ("META-INF/manifest.xml"@, manifeste_odt(), true),
        ("content.xml"@, contenu_odt(corps, styles), true),
    ]
}

fn ecrire_archive_odt(corps: &str, styles: &str) -> (r: Vec<EntreeArchive>)
    ensures
        vues_entrees(r@) == archive_odt(corps@, styles@),
{
    let mut c = String::from_str("<?xml version=\"1.0\" encoding=\"UTF-8\"?>\n<office:document-content xmlns:office=\"urn:oasis:names:tc:opendocument:xmlns:office:1.0\" xmlns:text=\"urn:oasis:names:tc:opendocument:xmlns:text:1.0\" xmlns:style=\"urn:oasis:names:tc:opendocument:xmlns:style:1.0\" xmlns:fo=\"urn:oasis:names:tc:opendocument:xmlns:xsl-fo-compatible:1.0\" office:version=\"1.2\">");
    let ghost d = c@;
    if styles.unicode_len() > 0 {
        c.append("\n  <office:automatic-styles>");
        c.append(styles);
        c.append("\n  </office:automatic-styles>");
    }
    assert(c@ =~= d + (if styles@.len() > 0 {
        "\n  <office:automatic-styles>"@ + styles@ + "\n  </office:automatic-styles>"@
    } else {
        Seq::empty()
    }));
    c.append("\n  <office:body>\n    <office:text>");
    c.append(corps);
    c.append("\n    </office:text>\n  </office:body>\n</office:document-content>");
    let r = vec![
        entree("mimetype", String::from_str("application/vnd.oasis.opendocument.text"), false),
        entree("META-INF/manifest.xml", String::from_str(r#"<?xml version="1.0" encoding="UTF-8"?>
<manifest:manifest xmlns:manifest="urn:oasis:names:tc:opendocument:xmlns:manifest:1.0" manifest:version="1.2">
  <manifest:file-entry manifest:full-path="/" manifest:version="1.2" manifest:media-type="application/vnd.oasis.opendocument.text"/>
  <manifest:file-entry manifest:full-path="content.xml" manifest:media-type="text/xml"/>
</manifest:manifest>"#), true),
        entree("content.xml", c, true),
    ];
    assert(vues_entrees(r@) =~= archive_odt(corps@, styles@));
    r
}

pub open spec fn corps_odt_simple(texte: Seq<char>) -> Seq<char> {
    balisees(lignes_texte(texte), "\n      <text:p>"@, "</text:p>"@)
}

/// A minimal ODT of a text, one paragraph per line (`ecrire_odt_simple`).
pub fn ecrire_odt_simple(texte: &str) -> (r: Vec<EntreeArchive>)
    ensures
        vues_entrees(r@) == archive_odt(corps_odt_simple(texte@), Seq::empty()),
{
    let corps = ecrire_balisees(texte, "\n      <text:p>", "</text:p>");
    let vide = String::new();
    ecrire_archive_odt(corps.as_str(), vide.as_str())
}

/// The text styles of the formatted runs.
pub open spec fn styles_odt() -> Seq<char> {
    r#"
    <style:style style:name="OxyBold" style:family="text"><style:text-properties fo:font-weight="bold"/></style:style>
    <style:style style:name="OxyItalic" style:family="text"><style:text-properties fo:font-style="italic"/></style:style>
    <style:style style:name="OxyBoldItalic" style:family="text"><style:text-properties fo:font-weight="bold" fo:font-style="italic"/></style:style>"#@
}

/// An ODT of formatted blocks, with the styles of bold and italic runs
/// (`ecrire_odt_riche`).
pub fn ecrire_odt_riche(blocks: &Vec<Block>) -> (r: Vec<EntreeArchive>)
    ensures
        vues_entrees(r@) == archive_odt(blocs_odt(blocks@), styles_odt()),
{
    let corps = blocs_vers_odt_xml(blocks);
    ecrire_archive_odt(corps.as_str(), r#"
    <style:style style:name="OxyBold" style:family="text"><style:text-properties fo:font-weight="bold"/></style:style>
    <style:style style:name="OxyItalic" style:family="text"><style:text-properties fo:font-style="italic"/></style:style>
    <style:style style:name="OxyBoldItalic" style:family="text"><style:text-properties fo:font-weight="bold" fo:font-style="italic"/></style:style>"#)
}

// ───────────────────────── RTF ─────────────────────────

pub open spec fn entete_rtf() -> Seq<char> {
    "{\\rtf1\\ansi\\deff0{\\fonttbl{\\f0 Calibri;}}\\f0\\fs22"@
}

/// Each line on a line of its own, escaped, ending the paragraph.
pub open spec fn lignes_rtf(ls: Seq<Seq<char>>) -> Seq<char>
    decreases ls.len(),
{
    if ls.len() == 0 { Seq::empty() } else { lignes_rtf(ls.drop_last()) + "\n"@ + echappe_rtf(ls.last()) + "\\par"@ }
}

/// A minimal RTF of a text (`ecrire_rtf_simple`).
pub fn ecrire_rtf_simple(texte: &str) -> (r: String)
    ensures
        r@ == entete_rtf() + lignes_rtf(lignes_texte(texte@)) + "}"@,
{
    let ls = lignes(texte);
    let ghost vl = crate::texte::vues_chaines(ls@);
    let mut r = String::from_str("{\\rtf1\\ansi\\deff0{\\fonttbl{\\f0 Calibri;}}\\f0\\fs22");
    let mut i: usize = 0;
    assert(vl.take(0) =~= Seq::<Seq<char>>::empty());
    assert(r@ =~= entete_rtf() + lignes_rtf(vl.take(0)));
    while i < ls.len()
        invariant
            i <= ls.len(),
            vl == crate::texte::vues_chaines(ls@),
            r@ == entete_rtf() + lignes_rtf(vl.take(i as int)),
        decreases ls.len() - i,
    {
        assert(vl.take(i + 1).drop_last() =~= vl.take(i as int));
        assert(vl.take(i + 1).last() == ls@[i as int]@);
        let e = rtf_escape(ls[i].as_str());
        let ghost avant = r@;
        r.append("\n");
        r.append(e.as_str());
        r.append("\\par");
        i += 1;
        assert(r@ =~= entete_rtf() + lignes_rtf(vl.take(i as int)));
    }
    assert(vl.take(ls.len() as int) =~= vl);
    r.append("}");
    r
}

/// An RTF of formatted blocks (`ecrire_rtf_riche`).
pub fn ecrire_rtf_riche(blocks: &Vec<Block>) -> (r: String)
    ensures
        r@ == entete_rtf() + "\n"@ + blocs_rtf(blocks@) + "}"@,
{
    let mut r = String::from_str("{\\rtf1\\ansi\\deff0{\\fonttbl{\\f0 Calibri;}}\\f0\\fs22");
    r.append("\n");
    r.append(blocs_vers_rtf(blocks).as_str());
    r.append("}");
    r
}

// ───────────────────────── EPUB ─────────────────────────

pub open spec fn conteneur_epub() -> Seq<char> {
    r#"<?xml version="1.0" encoding="UTF-8"?>
<container version="1.0" xmlns="urn:oasis:names:tc:opendocument:xmlns:container">
  <rootfiles>
    <rootfile full-path="OEBPS/content.opf" media-type="application/oebps-package+xml"/>
  </rootfiles>
</container>"#@
}

pub open spec fn paquet_epub() -> Seq<char> {
    r#"<?xml version="1.0" encoding="UTF-8"?>
<package xmlns="http://www.idpf.org/2007/opf" version="3.0" unique-identifier="bookid">
  <metadata xmlns:dc="http://purl.org/dc/elements/1.1/">
    <dc:identifier id="bookid">urn:oxytools:generated</dc:identifier>
    <dc:title>Document</dc:title>
    <dc:language>fr</dc:language>
    <meta property="dcterms:modified">2024-01-01T00:00:00Z</meta>
  </metadata>
  <manifest>
    <item id="content" href="content.xhtml" media-type="application/xhtml+xml"/>
    <item id="nav" href="nav.xhtml" media-type="application/xhtml+xml" properties="nav"/>
  </manifest>
  <spine>
    <itemref idref="content"/>
  </spine>
</package>"#@
}

pub open spec fn navigation_epub() -> Seq<char> {
    r#"<?xml version="1.0" encoding="UTF-8"?>
<!DOCTYPE html>
<html xmlns="http://www.w3.org/1999/xhtml" xmlns:epub="http://www.idpf.org/2007/ops">
<head><title>Navigation</title></head>
<body>
  <nav epub:type="toc" id="toc">
    <ol><li><a href="content.xhtml">Document</a></li></ol>
  </nav>
</body>
</html>"#@
}

/// The chapter: one paragraph per line of the text, escaped.
pub open spec fn chapitre_epub(texte: Seq<char>) -> Seq<char> {
    "<?xml version=\"1.0\" encoding=\"UTF-8\"?>\n<!DOCTYPE html>\n<html xmlns=\"http://www.w3.org/1999/xhtml\">\n<head><title>Document</title><meta charset=\"utf-8\"/></head>\n<body>"@
        + balisees(lignes_texte(texte), "\n  <p>"@, "</p>"@)
        + "\n</body>\n</html>"@
}

/// The files of an EPUB with one chapter: the stored `mimetype` first.
pub open spec fn archive_epub(texte: Seq<char>) -> Seq<(Seq<char>, Seq<char>, bool)> {
    seq![
        ("mimetype"@, "application/epub+zip"@, false),
        ("META-INF/container.xml"@, conteneur_epub(), true),
        ("OEBPS/content.opf"@, paquet_epub(), true),
        ("OEBPS/nav.xhtml"@, navigation_epub(), true),
        ("OEBPS/content.xhtml"@, chapitre_epub(texte), true),
    ]
}

/// A minimal EPUB of a text, one chapter (`ecrire_epub_simple`): the files
/// of the archive.
pub fn ecrire_epub_simple(texte: &str) -> (r: Vec<EntreeArchive>)
    ensures
        vues_entrees(r@) == archive_epub(texte@),
{
    let mut x = String::from_str("<?xml version=\"1.0\" encoding=\"UTF-8\"?>\n<!DOCTYPE html>\n<html xmlns=\"http://www.w3.org/1999/xhtml\">\n<head><title>Document</title><meta charset=\"utf-8\"/></head>\n<body>");
    let p = ecrire_balisees(texte, "\n  <p>", "</p>");
    x.append(p.as_str());
    x.append("\n</body>\n</html>");
    let r = vec![
        entree("mimetype", String::from_str("application/epub+zip"), false),
        entree("META-INF/container.xml", String::from_str(r#"<?xml version="1.0" encoding="UTF-8"?>
<container version="1.0" xmlns="urn:oasis:names:tc:opendocument:xmlns:container">
  <rootfiles>
    <rootfile full-path="OEBPS/content.opf" media-type="application/oebps-package+xml"/>
  </rootfiles>
</container>"#), true),
        entree("OEBPS/content.opf", String::from_str(r#"<?xml version="1.0" encoding="UTF-8"?>
<package xmlns="http://www.idpf.org/2007/opf" version="3.0" unique-identifier="bookid">
  <metadata xmlns:dc="http://purl.org/dc/elements/1.1/">
    <dc:identifier id="bookid">urn:oxytools:generated</dc:identifier>
    <dc:title>Document</dc:title>
    <dc:language>fr</dc:language>
    <meta property="dcterms:modified">2024-01-01T00:00:00Z</meta>
  </metadata>
  <manifest>
    <item id="content" href="content.xhtml" media-type="application/xhtml+xml"/>
    <item id="nav" href="nav.xhtml" media-type="application/xhtml+xml" properties="nav"/>
  </manifest>
  <spine>
    <itemref idref="content"/>
  </spine>
</package>"#), true),
        entree("OEBPS/nav.xhtml", String::from_str(r#"<?xml version="1.0" encoding="UTF-8"?>
<!DOCTYPE html>
<html xmlns="http://www.w3.org/1999/xhtml" xmlns:epub="http://www.idpf.org/2007/ops">
<head><title>Navigation</title></head>
<body>
  <nav epub:type="toc" id="toc">
    <ol><li><a href="content.xhtml">Document</a></li></ol>
  </nav>
</body>
</html>"#), true),
        entree("OEBPS/content.xhtml", x, true),
    ];
    assert(vues_entrees(r@) =~= archive_epub(texte@));
    r
}

// ───────────────────────── HTML ─────────────────────────

/// A complete HTML page around rendered Markdown.
pub open spec fn page_html(html: Seq<char>) -> Seq<char> {
    "<!DOCTYPE html>\n<html><head><meta charset=\"utf-8\"></head><body>\n"@ + html + "\n</body></html>"@
}

pub fn ecrire_page_html(html: &str) -> (r: String)
    ensures
        r@ == page_html(html@),
{
    let mut r = String::from_str("<!DOCTYPE html>\n<html><head><meta charset=\"utf-8\"></head><body>\n");
    r.append(html);
    r.append("\n</body></html>");
    r
}

} // verus!
