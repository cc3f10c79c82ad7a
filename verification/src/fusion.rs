use vstd::prelude::*;
use vstd::string::StringExecFns;
use crate::fichiers::{EchecPdf, commence};

verus! {

broadcast use vstd::string::group_string_axioms;

/// The number of a PDF object and its generation.
pub type IdObjet = (u32, u16);

/// What the merge does with an object of the documents, by its `/Type`.
#[derive(Debug, Clone, Copy, PartialEq, Eq, Structural)]
pub enum GenreObjet {
    /// A `/Catalog`.
    Catalogue,
    /// A `/Pages` node that is a dictionary.
    NoeudPages,
    /// A `/Page`, `/Outlines` or `/Outline`, or a `/Pages` that is not a
    /// dictionary: left out of the copy.
    Omis,
    /// Anything else: copied as it is.
    Autre,
}

/// How the objects of the renumbered documents make the merged one.
pub struct PlanFusion {
    /// Where the merged catalog goes: the number of the first catalog.
    pub catalogue: IdObjet,
    /// The catalog whose entries it takes: the last one.
    pub contenu_catalogue: IdObjet,
    /// Where the merged page tree goes: the first `/Pages` node.
    pub noeud_pages: IdObjet,
    /// The `/Pages` nodes whose dictionaries make it, in order: each one's
    /// dictionary is extended (`lopdf::Dictionary::extend`) with what the
    /// earlier ones made.
    pub noeuds_pages: Vec<IdObjet>,
    /// The objects copied as they are, in order.
    pub autres: Vec<IdObjet>,
    /// The pages, in order: the kids of the merged tree, each with the
    /// tree as its parent.
    pub pages: Vec<IdObjet>,
    /// The `/Count` of the merged tree.
    pub nombre_pages: u32,
}

/// The ids of the objects of a kind, in order.
pub open spec fn ids_de(objets: Seq<(IdObjet, GenreObjet)>, g: GenreObjet) -> Seq<IdObjet>
    decreases objets.len(),
{
    if objets.len() == 0 {
        Seq::empty()
    } else {
        let r = ids_de(objets.drop_last(), g);
        if objets.last().1 == g { r.push(objets.last().0) } else { r }
    }
}

/// The plan of a merged document: the first catalog's number with the last
/// catalog's entries, the first `/Pages` node's number with the entries of
/// all of them, every other object kept, every page a kid.
pub open spec fn plan_valide(objets: Seq<(IdObjet, GenreObjet)>, pages: Seq<IdObjet>, p: PlanFusion) -> bool
{
    let cat = ids_de(objets, GenreObjet::Catalogue);
    let noeuds = ids_de(objets, GenreObjet::NoeudPages);
    &&& p.catalogue == cat[0]
    &&& p.contenu_catalogue == cat.last()
    &&& p.noeud_pages == noeuds[0]
    &&& p.noeuds_pages@ == noeuds
    &&& p.autres@ == ids_de(objets, GenreObjet::Autre)
    &&& p.pages@ == pages
    &&& p.nombre_pages == pages.len() as u32
}

fn ids_du_genre(objets: &Vec<(IdObjet, GenreObjet)>, g: GenreObjet) -> (r: Vec<IdObjet>)
    ensures
        r@ == ids_de(objets@, g),
{
    let mut r: Vec<IdObjet> = Vec::new();
    let mut i: usize = 0;
    assert(objets@.take(0) =~= Seq::<(IdObjet, GenreObjet)>::empty());
    while i < objets.len()
        invariant
            i <= objets.len(),
            r@ == ids_de(objets@.take(i as int), g),
        decreases objets.len() - i,
    {
        assert(objets@.take(i + 1).drop_last() =~= objets@.take(i as int));
        assert(objets@.take(i + 1).last() == objets@[i as int]);
        if objets[i].1 == g {
            r.push(objets[i].0);
        }
        i += 1;
    }
    assert(objets@.take(objets.len() as int) =~= objets@);
    r
}

/// Merge (`pdf_merge`), once the documents are loaded and renumbered so
/// that their objects do not overlap: from every object, in order of its
/// number, with its kind, and the pages, in order, the plan of the merged
/// document. The first catalog and the first `/Pages` node give their
/// numbers to the merged ones; the page tree takes all the pages.
pub fn pdf_merge(nombre_fichiers: usize, objets: &Vec<(IdObjet, GenreObjet)>, pages: &Vec<IdObjet>)
    -> (r: Result<PlanFusion, String>)
    ensures
        nombre_fichiers == 0 ==> (r matches Err(m) && m@ == "Aucun fichier à fusionner"@),
        nombre_fichiers > 0 && ids_de(objets@, GenreObjet::NoeudPages).len() == 0
            ==> (r matches Err(m) && m@ == "Nœud Pages introuvable"@),
        nombre_fichiers > 0 && ids_de(objets@, GenreObjet::NoeudPages).len() > 0
            && ids_de(objets@, GenreObjet::Catalogue).len() == 0
            ==> (r matches Err(m) && m@ == "Catalogue introuvable"@),
        nombre_fichiers > 0 && ids_de(objets@, GenreObjet::NoeudPages).len() > 0
            && ids_de(objets@, GenreObjet::Catalogue).len() > 0
            ==> (r matches Ok(p) && plan_valide(objets@, pages@, p)),
{
    if nombre_fichiers == 0 {
        return Err(String::from_str("Aucun fichier à fusionner"));
    }
    let noeuds = ids_du_genre(objets, GenreObjet::NoeudPages);
    if noeuds.len() == 0 {
        return Err(String::from_str("Nœud Pages introuvable"));
    }
    let cat = ids_du_genre(objets, GenreObjet::Catalogue);
    if cat.len() == 0 {
        return Err(String::from_str("Catalogue introuvable"));
    }
    let mut kids: Vec<IdObjet> = Vec::new();
    let mut i: usize = 0;
    while i < pages.len()
        invariant
            i <= pages.len(),
            kids@ == pages@.take(i as int),
        decreases pages.len() - i,
    {
        kids.push(pages[i]);
        assert(pages@.take(i + 1) =~= pages@.take(i as int).push(pages@[i as int]));
        i += 1;
    }
    assert(pages@.take(pages.len() as int) =~= pages@);
    let nombre_pages = pages.len() as u32;
    Ok(PlanFusion {
        catalogue: cat[0],
        contenu_catalogue: cat[cat.len() - 1],
        noeud_pages: noeuds[0],
        noeuds_pages: noeuds,
        autres: ids_du_genre(objets, GenreObjet::Autre),
        pages: kids,
        nombre_pages,
    })
}


// ───────────────────────── The merge over the bytes of the files (lopdf) ─────────────────────────

/// An object of a loaded PDF as the merge reads it: its id, its `/Type`
/// name when it has one, and whether it is a dictionary.
pub type ObjetLu = (IdObjet, Option<Vec<u8>>, bool);

/// The view of an `ObjetLu`.
pub type VueObjet = (IdObjet, Option<Seq<u8>>, bool);

pub open spec fn vue_objet(o: ObjetLu) -> VueObjet {
    (o.0, match o.1 { Some(t) => Some(t@), None => None }, o.2)
}

/// What lopdf reads of the bytes of a PDF loaded (`Document::load_mem`) and
/// renumbered from an object number (`renumber_objects_with`): every object
/// in the order of its id, the pages in the order of the page tree
/// (`get_pages`), and the greatest object number (`max_id`). The `/Type`
/// of an object is that of its dictionary or of its stream's dictionary,
/// as lopdf's `Object::type_name` reads it (`Dictionary::get_type`); `None` when
/// lopdf cannot load the bytes.
pub uninterp spec fn objets_pdf(octets: Seq<u8>, premier: u32) -> Option<(Seq<VueObjet>, Seq<IdObjet>, u32)>;

/// A step of the making of a merged document.
pub enum EtapeFusion {
    /// The bytes of a PDF loaded and renumbered from an object number, its
    /// objects added to those loaded before (an object of an id already
    /// loaded replaces it).
    Charge(Seq<u8>, u32),
    /// A loaded object copied as it is under its id.
    Copie(IdObjet),
    /// A loaded page copied under its id with the page tree as `/Parent`.
    Page(IdObjet, IdObjet),
    /// A loaded `/Pages` dictionary merged into the page tree: a copy of
    /// it, extended with the tree made so far (`Dictionary::extend`),
    /// becomes the tree.
    Noeud(IdObjet),
    /// The page tree set under its id, with its `/Count` and its `/Kids`.
    Arbre(IdObjet, u32, Seq<IdObjet>),
    /// A loaded catalog copied under an id, with the page tree as `/Pages`
    /// and without `/Outlines`.
    Catalogue(IdObjet, IdObjet, IdObjet),
    /// The catalog named as the `/Root` of the trailer.
    Racine(IdObjet),
}

/// lopdf's document: its objects by id, its trailer.
#[verifier::external_type_specification]
#[verifier::external_body]
pub struct ExDocumentPdf(lopdf::Document);

/// lopdf's dictionary.
#[verifier::external_type_specification]
#[verifier::external_body]
pub struct ExDictionnairePdf(lopdf::Dictionary);

/// A merged document being made: a lopdf document that holds the objects
/// loaded from the files, the page tree made so far, and the new lopdf
/// document. What the contracts know of it is the steps taken, named by
/// `etapes_fusion`.
pub struct FusionEnCours {
    charges: lopdf::Document,
    arbre: lopdf::Dictionary,
    doc: lopdf::Document,
}

/// The steps taken so far in the making of a merged document.
pub uninterp spec fn etapes_fusion(f: FusionEnCours) -> Seq<EtapeFusion>;

/// The bytes that lopdf saves of the document made by these steps, its
/// maximum id set to its number of objects, its objects renumbered from 1
/// and its streams compressed (`renumber_objects`, `compress`, `save_to`);
/// `None` when lopdf cannot save it.
pub uninterp spec fn pdf_assemble(etapes: Seq<EtapeFusion>) -> Option<Seq<u8>>;

/// The last object of a list with this id.
pub open spec fn trouve(s: Seq<VueObjet>, id: IdObjet) -> Option<VueObjet>
    decreases s.len(),
{
    if s.len() == 0 {
        None
    } else if s.last().0 == id {
        Some(s.last())
    } else {
        trouve(s.drop_last(), id)
    }
}

/// The object of this id among those loaded by the steps: that of the last
/// file loaded that has one.
pub open spec fn dans_pool(e: Seq<EtapeFusion>, id: IdObjet) -> Option<VueObjet>
    decreases e.len(),
{
    if e.len() == 0 {
        None
    } else {
        let avant = dans_pool(e.drop_last(), id);
        match e.last() {
            EtapeFusion::Charge(o, p) => match objets_pdf(o, p) {
                Some(x) => match trouve(x.0, id) {
                    Some(v) => Some(v),
                    None => avant,
                },
                None => avant,
            },
            _ => avant,
        }
    }
}

/// Whether the object of this id among those loaded is a dictionary.
pub open spec fn dict_charge(e: Seq<EtapeFusion>, id: IdObjet) -> bool {
    dans_pool(e, id) matches Some(v) && v.2
}

/// A merged document with nothing in it yet (`Document::with_version("1.5")`).
#[verifier::external_body]
fn fusion_vide() -> (r: FusionEnCours)
    ensures
        etapes_fusion(r) == Seq::<EtapeFusion>::empty(),
{
    FusionEnCours {
        charges: lopdf::Document::new(),
        arbre: lopdf::Dictionary::new(),
        doc: lopdf::Document::with_version("1.5"),
    }
}

/// Loads the bytes of a PDF (`Document::load_mem`), renumbers its objects
/// from `premier` (`renumber_objects_with`) and adds them to those loaded;
/// gives what `objets_pdf` names. As the source of `renumber_objects_with`
/// shows, the object numbers then run from `premier` up, one per object,
/// and `max_id` is the last of them; the objects come in the order of their
/// ids (a `BTreeMap`); `max_id` is `premier - 1` when there is none.
/// Numbers past `u32::MAX` (four billion objects) are not considered.
#[verifier::external_body]
fn charger_source(f: &mut FusionEnCours, octets: &[u8], premier: u32)
    -> (r: Result<(Vec<ObjetLu>, Vec<IdObjet>, u32), EchecPdf>)
    requires
        premier >= 1,
    ensures
        match objets_pdf(octets@, premier) {
            Some(x) => r matches Ok(v) && v.0@.map_values(|o: ObjetLu| vue_objet(o)) == x.0 && v.1@ == x.1
                && v.2 == x.2 && etapes_fusion(*final(f)) == etapes_fusion(*old(f)).push(EtapeFusion::Charge(octets@, premier)),
            None => r is Err && etapes_fusion(*final(f)) == etapes_fusion(*old(f)),
        },
        r matches Ok(v) ==> forall|i: int, j: int| 0 <= i < j < v.0.len() ==> (#[trigger] v.0@[i]).0.0 < (#[trigger] v.0@[j]).0.0,
        r matches Ok(v) ==> forall|i: int| 0 <= i < v.0.len() ==> premier <= (#[trigger] v.0@[i]).0.0 <= v.2,
        r matches Ok(v) ==> v.2 + 1 >= premier,
{
    let mut d = lopdf::Document::load_mem(octets).map_err(|e| EchecPdf::Chargement(e.to_string()))?;
    d.renumber_objects_with(premier);
    let objets = d.objects.iter().map(|(i, o)| {
        let t = o.as_dict().or(o.as_stream().map(|s| &s.dict)).and_then(|d| d.get_type()).ok();
        (*i, t.map(|t| t.to_vec()), o.as_dict().is_ok())
    }).collect();
    let pages = d.get_pages().into_values().collect();
    let max = d.max_id;
    f.charges.objects.extend(d.objects);
    Ok((objets, pages, max))
}

/// Copies a loaded object as it is under its id.
#[verifier::external_body]
fn copier_objet(f: &mut FusionEnCours, id: IdObjet)
    requires
        dans_pool(etapes_fusion(*old(f)), id) is Some,
    ensures
        etapes_fusion(*final(f)) == etapes_fusion(*old(f)).push(EtapeFusion::Copie(id)),
{
    let o = f.charges.objects[&id].clone();
    f.doc.objects.insert(id, o);
}

/// Copies a loaded page under its id, with `/Parent` set to the page tree.
#[verifier::external_body]
fn placer_page(f: &mut FusionEnCours, id: IdObjet, parent: IdObjet)
    requires
        dict_charge(etapes_fusion(*old(f)), id),
    ensures
        etapes_fusion(*final(f)) == etapes_fusion(*old(f)).push(EtapeFusion::Page(id, parent)),
{
    if let Ok(d) = f.charges.objects[&id].as_dict() {
        let mut d = d.clone();
        d.set("Parent", parent);
        f.doc.objects.insert(id, lopdf::Object::Dictionary(d));
    }
}

/// Merges a loaded `/Pages` dictionary into the page tree: a copy of it,
/// extended with the tree made so far, becomes the tree.
#[verifier::external_body]
fn etendre_arbre(f: &mut FusionEnCours, id: IdObjet)
    requires
        dict_charge(etapes_fusion(*old(f)), id),
    ensures
        etapes_fusion(*final(f)) == etapes_fusion(*old(f)).push(EtapeFusion::Noeud(id)),
{
    if let Ok(d) = f.charges.objects[&id].as_dict() {
        let mut d = d.clone();
        d.extend(&f.arbre);
        f.arbre = d;
    }
}

/// Sets the page tree under its id, with its `/Count` and its `/Kids`.
#[verifier::external_body]
fn fermer_arbre(f: &mut FusionEnCours, id: IdObjet, nombre: u32, kids: &Vec<IdObjet>)
    ensures
        etapes_fusion(*final(f)) == etapes_fusion(*old(f)).push(EtapeFusion::Arbre(id, nombre, kids@)),
{
    let mut d = f.arbre.clone();
    d.set("Count", nombre);
    d.set("Kids", kids.iter().map(|k| lopdf::Object::Reference(*k)).collect::<Vec<_>>());
    f.doc.objects.insert(id, lopdf::Object::Dictionary(d));
}

/// Copies a loaded catalog under an id, with `/Pages` set to the page tree
/// and `/Outlines` removed.
#[verifier::external_body]
fn placer_catalogue(f: &mut FusionEnCours, source: IdObjet, id: IdObjet, pages: IdObjet)
    requires
        dict_charge(etapes_fusion(*old(f)), source),
    ensures
        etapes_fusion(*final(f)) == etapes_fusion(*old(f)).push(EtapeFusion::Catalogue(source, id, pages)),
{
    if let Ok(d) = f.charges.objects[&source].as_dict() {
        let mut d = d.clone();
        d.set("Pages", pages);
        d.remove(b"Outlines");
        f.doc.objects.insert(id, lopdf::Object::Dictionary(d));
    }
}

/// Names the catalog as the `/Root` of the trailer.
#[verifier::external_body]
fn fixer_racine(f: &mut FusionEnCours, id: IdObjet)
    ensures
        etapes_fusion(*final(f)) == etapes_fusion(*old(f)).push(EtapeFusion::Racine(id)),
{
    f.doc.trailer.set("Root", id);
}

/// Finishes the merged document (its maximum id set to its number of
/// objects, `renumber_objects`, `compress`) and saves it (`save_to`).
#[verifier::external_body]
fn finir_fusion(f: FusionEnCours) -> (r: Result<Vec<u8>, EchecPdf>)
    ensures
        match pdf_assemble(etapes_fusion(f)) {
            Some(b) => r matches Ok(v) && v@ == b,
            None => r is Err,
        },
{
    let mut doc = f.doc;
    doc.max_id = doc.objects.len() as u32;
    doc.renumber_objects();
    doc.compress();
    let mut v = Vec::new();
    doc.save_to(&mut v).map_err(|e| EchecPdf::Sauvegarde(e.to_string()))?;
    Ok(v)
}

// ───────────────────────── What the merge reads of the files ─────────────────────────

/// `/Catalog`, `/Pages`, `/Page`, `/Outlines` and `/Outline`, as bytes.
pub open spec fn nom_catalog() -> Seq<u8> { seq![67u8, 97, 116, 97, 108, 111, 103] }
pub open spec fn nom_pages() -> Seq<u8> { seq![80u8, 97, 103, 101, 115] }
pub open spec fn nom_page() -> Seq<u8> { seq![80u8, 97, 103, 101] }
pub open spec fn nom_outlines() -> Seq<u8> { seq![79u8, 117, 116, 108, 105, 110, 101, 115] }
pub open spec fn nom_outline() -> Seq<u8> { seq![79u8, 117, 116, 108, 105, 110, 101] }

/// The kind of an object read, by its `/Type` (none is as `""`).
pub open spec fn genre_de(o: VueObjet) -> GenreObjet {
    match o.1 {
        Some(t) => if t == nom_catalog() {
            GenreObjet::Catalogue
        } else if t == nom_pages() {
            if o.2 { GenreObjet::NoeudPages } else { GenreObjet::Omis }
        } else if t == nom_page() || t == nom_outlines() || t == nom_outline() {
            GenreObjet::Omis
        } else {
            GenreObjet::Autre
        },
        None => GenreObjet::Autre,
    }
}

fn egal_octets(t: &Vec<u8>, n: &[u8]) -> (r: bool)
    ensures
        r == (t@ == n@),
{
    if t.len() != n.len() {
        return false;
    }
    let mut i: usize = 0;
    while i < t.len()
        invariant
            i <= t.len(),
            t.len() == n.len(),
            forall|k: int| 0 <= k < i ==> t@[k] == n@[k],
        decreases t.len() - i,
    {
        if t[i] != n[i] {
            return false;
        }
        i += 1;
    }
    assert(t@ =~= n@);
    true
}

/// The kind of an object read (see `genre_de`).
pub fn genre(o: &ObjetLu) -> (g: GenreObjet)
    ensures
        g == genre_de(vue_objet(*o)),
{
    match &o.1 {
        None => GenreObjet::Autre,
        Some(t) => {
            let catalog: [u8; 7] = [67u8, 97, 116, 97, 108, 111, 103];
            let pages: [u8; 5] = [80u8, 97, 103, 101, 115];
            let page: [u8; 4] = [80u8, 97, 103, 101];
            let outlines: [u8; 8] = [79u8, 117, 116, 108, 105, 110, 101, 115];
            let outline: [u8; 7] = [79u8, 117, 116, 108, 105, 110, 101];
            assert(catalog@ =~= nom_catalog());
            assert(pages@ =~= nom_pages());
            assert(page@ =~= nom_page());
            assert(outlines@ =~= nom_outlines());
            assert(outline@ =~= nom_outline());
            if egal_octets(t, &catalog) {
                GenreObjet::Catalogue
            } else if egal_octets(t, &pages) {
                if o.2 { GenreObjet::NoeudPages } else { GenreObjet::Omis }
            } else if egal_octets(t, &page) || egal_octets(t, &outlines) || egal_octets(t, &outline) {
                GenreObjet::Omis
            } else {
                GenreObjet::Autre
            }
        },
    }
}

/// Whether an id comes before another: by number, then by generation.
pub open spec fn avant(a: IdObjet, b: IdObjet) -> bool {
    a.0 < b.0 || (a.0 == b.0 && a.1 < b.1)
}

/// An id added to a list in order without repeats: before the first id
/// that does not come before it, unless that one is the same.
pub open spec fn inserer_id(s: Seq<IdObjet>, x: IdObjet) -> Seq<IdObjet>
    decreases s.len(),
{
    if s.len() == 0 {
        seq![x]
    } else if s[0] == x {
        s
    } else if avant(x, s[0]) {
        seq![x] + s
    } else {
        seq![s[0]] + inserer_id(s.drop_first(), x)
    }
}

/// Ids added one after the other to a list in order (the keys of a
/// `BTreeMap` that they are inserted into).
pub open spec fn ajouter_ids(s: Seq<IdObjet>, xs: Seq<IdObjet>) -> Seq<IdObjet>
    decreases xs.len(),
{
    if xs.len() == 0 {
        s
    } else {
        inserer_id(ajouter_ids(s, xs.drop_last()), xs.last())
    }
}

proof fn lemma_inserer(s: Seq<IdObjet>, x: IdObjet, i: int)
    requires
        0 <= i <= s.len(),
        forall|k: int| 0 <= k < i ==> avant(#[trigger] s[k], x),
    ensures
        inserer_id(s, x) == s.take(i) + inserer_id(s.skip(i), x),
    decreases i,
{
    if i == 0 {
        assert(s.skip(0) =~= s);
        assert(s.take(0) + inserer_id(s, x) =~= inserer_id(s, x));
    } else {
        let t = s.drop_first();
        assert forall|k: int| 0 <= k < i - 1 implies avant(#[trigger] t[k], x) by {
            assert(t[k] == s[k + 1]);
        }
        lemma_inserer(t, x, i - 1);
        assert(avant(s[0], x));
        assert(t.skip(i - 1) =~= s.skip(i));
        assert(s.take(i) =~= seq![s[0]] + t.take(i - 1));
        assert(seq![s[0]] + (t.take(i - 1) + inserer_id(s.skip(i), x))
            =~= (seq![s[0]] + t.take(i - 1)) + inserer_id(s.skip(i), x));
    }
}

fn avant_exec(a: IdObjet, b: IdObjet) -> (r: bool)
    ensures
        r == avant(a, b),
{
    a.0 < b.0 || (a.0 == b.0 && a.1 < b.1)
}

fn inserer_trie(v: &mut Vec<IdObjet>, x: IdObjet)
    ensures
        final(v)@ == inserer_id(old(v)@, x),
{
    let mut i: usize = 0;
    while i < v.len() && avant_exec(v[i], x)
        invariant
            i <= v.len(),
            v@ == old(v)@,
            forall|k: int| 0 <= k < i ==> avant(#[trigger] v@[k], x),
        decreases v.len() - i,
    {
        i += 1;
    }
    proof {
        lemma_inserer(v@, x, i as int);
    }
    if i < v.len() && v[i].0 == x.0 && v[i].1 == x.1 {
        assert(v@.skip(i as int)[0] == x);
        assert(v@.take(i as int) + v@.skip(i as int) =~= v@);
    } else {
        let ghost s = v@;
        proof {
            if (i as int) < s.len() {
                assert(s.skip(i as int)[0] == s[i as int]);
                assert(!avant(s[i as int], x));
                assert(s[i as int] != x);
                assert(avant(x, s[i as int]));
            } else {
                assert(s.skip(i as int) =~= Seq::<IdObjet>::empty());
            }
        }
        v.insert(i, x);
        assert(v@ =~= s.take(i as int) + (seq![x] + s.skip(i as int)));
    }
}

/// Whether the last object of a list with this id is a dictionary.
pub open spec fn dict_lu(s: Seq<VueObjet>, id: IdObjet) -> bool {
    trouve(s, id) matches Some(v) && v.2
}

pub open spec fn vues_objets(s: Seq<ObjetLu>) -> Seq<VueObjet> {
    s.map_values(|o: ObjetLu| vue_objet(o))
}

fn est_dict_lu(objets: &Vec<ObjetLu>, id: IdObjet) -> (r: bool)
    ensures
        r == dict_lu(vues_objets(objets@), id),
{
    let ghost s = vues_objets(objets@);
    let mut i: usize = objets.len();
    assert(s.take(i as int) =~= s);
    while i > 0
        invariant
            i <= objets.len(),
            s == vues_objets(objets@),
            trouve(s, id) == trouve(s.take(i as int), id),
        decreases i,
    {
        assert(s.take(i as int).drop_last() =~= s.take(i - 1));
        assert(s.take(i as int).last() == vue_objet(objets@[i - 1]));
        if objets[i - 1].0.0 == id.0 && objets[i - 1].0.1 == id.1 {
            return objets[i - 1].2;
        }
        i -= 1;
    }
    assert(s.take(0) =~= Seq::<VueObjet>::empty());
    false
}

/// What the merge has read of its files, loaded one after the other with
/// their objects numbered from 1 on, each file from the number after the
/// last one of the file before: how many were read, whether all were
/// (a file that lopdf cannot load, or whose greatest object number is
/// `u32::MAX`, stops the reading), the next object number, the objects
/// read in order, the pages in order of their ids without repeats (as the
/// keys of a `BTreeMap`) and the loading steps.
pub struct Lues {
    pub n: nat,
    pub ok: bool,
    pub premier: u32,
    pub objets: Seq<VueObjet>,
    pub pages: Seq<IdObjet>,
    pub etapes: Seq<EtapeFusion>,
}

pub open spec fn lues(docs: Seq<Seq<u8>>) -> Lues
    decreases docs.len(),
{
    if docs.len() == 0 {
        Lues { n: 0, ok: true, premier: 1, objets: Seq::empty(), pages: Seq::empty(), etapes: Seq::empty() }
    } else {
        let l = lues(docs.drop_last());
        let echec = Lues { n: l.n, ok: false, premier: l.premier, objets: l.objets, pages: l.pages, etapes: l.etapes };
        if !l.ok {
            l
        } else {
            match objets_pdf(docs.last(), l.premier) {
                Some(x) => if x.2 < u32::MAX {
                    Lues {
                        n: l.n + 1,
                        ok: true,
                        premier: (x.2 + 1) as u32,
                        objets: l.objets + x.0,
                        pages: ajouter_ids(l.pages, x.1),
                        etapes: l.etapes.push(EtapeFusion::Charge(docs.last(), l.premier)),
                    }
                } else {
                    echec
                },
                None => echec,
            }
        }
    }
}

/// The bytes of the files given with their names.
pub open spec fn octets_des(fichiers: Seq<(String, Vec<u8>)>) -> Seq<Seq<u8>> {
    fichiers.map_values(|f: (String, Vec<u8>)| f.1@)
}

/// The ids of objects read, with their kinds.
pub open spec fn genres_de(objets: Seq<VueObjet>) -> Seq<(IdObjet, GenreObjet)> {
    objets.map_values(|o: VueObjet| (o.0, genre_de(o)))
}

/// The pages copied with the page tree as parent: those that are
/// dictionaries, in order.
pub open spec fn pages_placees(objets: Seq<VueObjet>, pages: Seq<IdObjet>, arbre: IdObjet) -> Seq<EtapeFusion>
    decreases pages.len(),
{
    if pages.len() == 0 {
        Seq::empty()
    } else {
        let r = pages_placees(objets, pages.drop_last(), arbre);
        if dict_lu(objets, pages.last()) { r.push(EtapeFusion::Page(pages.last(), arbre)) } else { r }
    }
}

/// The steps that make the merged document of what was read (see
/// `plan_valide`): the files loaded; every object of no other kind copied;
/// every page that is a dictionary copied under the first `/Pages` node;
/// the `/Pages` dictionaries merged in order into the page tree, which goes
/// under the first one's id with every page as a kid; the last catalog, if
/// a dictionary, copied under the first one's id; the first catalog the
/// root.
pub open spec fn etapes_de(l: Lues) -> Seq<EtapeFusion> {
    let g = genres_de(l.objets);
    let cat = ids_de(g, GenreObjet::Catalogue);
    let noeuds = ids_de(g, GenreObjet::NoeudPages);
    let catalogue = if dict_lu(l.objets, cat.last()) {
        seq![EtapeFusion::Catalogue(cat.last(), cat[0], noeuds[0])]
    } else {
        Seq::empty()
    };
    l.etapes
        + ids_de(g, GenreObjet::Autre).map_values(|id: IdObjet| EtapeFusion::Copie(id))
        + pages_placees(l.objets, l.pages, noeuds[0])
        + noeuds.map_values(|id: IdObjet| EtapeFusion::Noeud(id))
        + seq![EtapeFusion::Arbre(noeuds[0], l.pages.len() as u32, l.pages)]
        + catalogue
        + seq![EtapeFusion::Racine(cat[0])]
}

proof fn lemma_trouve_concat(a: Seq<VueObjet>, b: Seq<VueObjet>, id: IdObjet)
    ensures
        trouve(a + b, id) == (match trouve(b, id) { Some(v) => Some(v), None => trouve(a, id) }),
    decreases b.len(),
{
    if b.len() == 0 {
        assert(a + b =~= a);
    } else {
        assert((a + b).drop_last() =~= a + b.drop_last());
        assert((a + b).last() == b.last());
        lemma_trouve_concat(a, b.drop_last(), id);
    }
}

proof fn lemma_trouve_unique(s: Seq<VueObjet>, j: int)
    requires
        0 <= j < s.len(),
        forall|a: int, b: int| 0 <= a < b < s.len() ==> (#[trigger] s[a]).0.0 < (#[trigger] s[b]).0.0,
    ensures
        trouve(s, s[j].0) == Some(s[j]),
    decreases s.len(),
{
    if j < s.len() - 1 {
        assert(s[j].0.0 < s[s.len() - 1].0.0);
        lemma_trouve_unique(s.drop_last(), j);
    }
}

proof fn lemma_ids_de(s: Seq<(IdObjet, GenreObjet)>, g: GenreObjet, k: int)
    requires
        0 <= k < ids_de(s, g).len(),
    ensures
        exists|j: int| 0 <= j < s.len() && s[j] == (ids_de(s, g)[k], g),
    decreases s.len(),
{
    let r = ids_de(s.drop_last(), g);
    if k < r.len() {
        lemma_ids_de(s.drop_last(), g, k);
        let j = choose|j: int| 0 <= j < s.drop_last().len() && s.drop_last()[j] == (r[k], g);
        assert(s[j] == s.drop_last()[j]);
    } else {
        assert(s[s.len() - 1] == (ids_de(s, g)[k], g));
    }
}

proof fn lemma_pool_pas_charge(e: Seq<EtapeFusion>, x: EtapeFusion)
    requires
        !(x is Charge),
    ensures
        forall|id: IdObjet| #[trigger] dans_pool(e.push(x), id) == dans_pool(e, id),
{
    assert(e.push(x).drop_last() =~= e);
}

/// An id of a kind among the objects read: the object of that id is that
/// one, and a `/Pages` node is a dictionary.
proof fn lemma_id_lu(objets: Seq<VueObjet>, g: GenreObjet, k: int)
    requires
        0 <= k < ids_de(genres_de(objets), g).len(),
        forall|a: int, b: int| 0 <= a < b < objets.len() ==> (#[trigger] objets[a]).0.0 < (#[trigger] objets[b]).0.0,
    ensures
        trouve(objets, ids_de(genres_de(objets), g)[k]) is Some,
        g == GenreObjet::NoeudPages ==> dict_lu(objets, ids_de(genres_de(objets), g)[k]),
{
    let gs = genres_de(objets);
    lemma_ids_de(gs, g, k);
    let j = choose|j: int| 0 <= j < gs.len() && gs[j] == (ids_de(gs, g)[k], g);
    assert(gs[j] == (objets[j].0, genre_de(objets[j])));
    lemma_trouve_unique(objets, j);
}

proof fn lemma_lues_stable(d: Seq<Seq<u8>>, k: int)
    requires
        0 <= k <= d.len(),
        !lues(d.take(k)).ok,
    ensures
        lues(d) == lues(d.take(k)),
    decreases d.len(),
{
    if d.len() > k {
        assert(d.drop_last().take(k) =~= d.take(k));
        lemma_lues_stable(d.drop_last(), k);
    } else {
        assert(d.take(k) =~= d);
    }
}

/// The reading stopped at the file `i`: what the merge answers.
proof fn lemma_echec_chargement(d: Seq<Seq<u8>>, i: int, m: Seq<char>, nom: Seq<char>, t: Seq<char>)
    requires
        0 <= i < d.len(),
        !lues(d.take(i + 1)).ok,
        lues(d.take(i + 1)).n == i,
        m == "Erreur chargement "@ + nom + " : "@ + t,
    ensures
        !lues(d).ok,
        lues(d).n == i,
        commence(m, "Erreur chargement "@ + nom + " : "@),
{
    lemma_lues_stable(d, i + 1);
    let p = "Erreur chargement "@ + nom + " : "@;
    assert(m =~= p + t);
    assert(m.take(p.len() as int) =~= p);
}

fn message_chargement(nom: &String, e: &str) -> (r: String)
    ensures
        r@ == "Erreur chargement "@ + nom@ + " : "@ + e@,
{
    let mut m = String::from_str("Erreur chargement ");
    m.append(nom.as_str());
    m.append(" : ");
    m.append(e);
    m
}

/// Merges PDF files (`pdf_merge`), given with their names, into the bytes
/// of one document: each file is loaded by lopdf and renumbered after the
/// one before (`objets_pdf`); from all their objects, in the order of their
/// ids, and their pages, `pdf_merge` makes the plan; the document is made
/// by the steps of `etapes_de` and saved by lopdf (`pdf_assemble`). No file
/// gives `Aucun fichier à fusionner`; a file that cannot be read gives
/// `Erreur chargement <its name> : ...`; the plan's errors are
/// `pdf_merge`'s; a failure to save is `Erreur sauvegarde : ...`.
pub fn fusionner_pdf(fichiers: &Vec<(String, Vec<u8>)>) -> (r: Result<Vec<u8>, String>)
    ensures
        fichiers.len() == 0 ==> (r matches Err(m) && m@ == "Aucun fichier à fusionner"@),
        fichiers.len() > 0 && !lues(octets_des(fichiers@)).ok ==> (r matches Err(m) && commence(m@,
            "Erreur chargement "@ + fichiers@[lues(octets_des(fichiers@)).n as int].0@ + " : "@)),
        fichiers.len() > 0 && lues(octets_des(fichiers@)).ok
            && ids_de(genres_de(lues(octets_des(fichiers@)).objets), GenreObjet::NoeudPages).len() == 0
            ==> (r matches Err(m) && m@ == "Nœud Pages introuvable"@),
        fichiers.len() > 0 && lues(octets_des(fichiers@)).ok
            && ids_de(genres_de(lues(octets_des(fichiers@)).objets), GenreObjet::NoeudPages).len() > 0
            && ids_de(genres_de(lues(octets_des(fichiers@)).objets), GenreObjet::Catalogue).len() == 0
            ==> (r matches Err(m) && m@ == "Catalogue introuvable"@),
        fichiers.len() > 0 && lues(octets_des(fichiers@)).ok
            && ids_de(genres_de(lues(octets_des(fichiers@)).objets), GenreObjet::NoeudPages).len() > 0
            && ids_de(genres_de(lues(octets_des(fichiers@)).objets), GenreObjet::Catalogue).len() > 0
            ==> match pdf_assemble(etapes_de(lues(octets_des(fichiers@)))) {
                Some(b) => r matches Ok(v) && v@ == b,
                None => r matches Err(m) && commence(m@, "Erreur sauvegarde : "@),
            },
{
    if fichiers.len() == 0 {
        return Err(String::from_str("Aucun fichier à fusionner"));
    }
    let ghost vd = octets_des(fichiers@);
    let mut f = fusion_vide();
    let mut premier: u32 = 1;
    let mut lus: Vec<ObjetLu> = Vec::new();
    let mut genres: Vec<(IdObjet, GenreObjet)> = Vec::new();
    let mut pages: Vec<IdObjet> = Vec::new();
    let mut i: usize = 0;
    assert(vd.take(0) =~= Seq::<Seq<u8>>::empty());
    while i < fichiers.len()
        invariant
            i <= fichiers.len(),
            vd == octets_des(fichiers@),
            lues(vd.take(i as int)).ok,
            lues(vd.take(i as int)).n == i,
            premier == lues(vd.take(i as int)).premier,
            premier >= 1,
            vues_objets(lus@) == lues(vd.take(i as int)).objets,
            genres@ == genres_de(lues(vd.take(i as int)).objets),
            pages@ == lues(vd.take(i as int)).pages,
            etapes_fusion(f) == lues(vd.take(i as int)).etapes,
            forall|id: IdObjet| #[trigger] dans_pool(etapes_fusion(f), id) == trouve(vues_objets(lus@), id),
            forall|a: int, b: int| 0 <= a < b < lus.len() ==> (#[trigger] lus@[a]).0.0 < (#[trigger] lus@[b]).0.0,
            forall|a: int| 0 <= a < lus.len() ==> (#[trigger] lus@[a]).0.0 < premier,
        decreases fichiers.len() - i,
    {
        let ghost l = lues(vd.take(i as int));
        let ghost e0 = etapes_fusion(f);
        assert(vd.take(i + 1).drop_last() =~= vd.take(i as int));
        assert(vd.take(i + 1).last() == fichiers@[i as int].1@);
        let (nom, octets) = (&fichiers[i].0, &fichiers[i].1);
        let lu = charger_source(&mut f, octets.as_slice(), premier);
        let (mut objs, pgs, max) = match lu {
            Err(e) => {
                let t = crate::fichiers::texte_de_echec(e);
                let m = message_chargement(nom, t.as_str());
                proof { lemma_echec_chargement(vd, i as int, m@, nom@, t@); }
                return Err(m);
            },
            Ok(v) => v,
        };
        if max == u32::MAX {
            let m = message_chargement(nom, "trop d'objets");
            proof { lemma_echec_chargement(vd, i as int, m@, nom@, "trop d'objets"@); }
            return Err(m);
        }
        let ghost x = objets_pdf(octets@, premier)->0;
        let mut k: usize = 0;
        while k < objs.len()
            invariant
                k <= objs.len(),
                genres@ == genres_de(l.objets) + genres_de(vues_objets(objs@.take(k as int))),
            decreases objs.len() - k,
        {
            let g = genre(&objs[k]);
            genres.push((objs[k].0, g));
            assert(vues_objets(objs@.take(k + 1)) =~= vues_objets(objs@.take(k as int)).push(vue_objet(objs@[k as int])));
            assert(genres_de(vues_objets(objs@.take(k + 1))) =~= genres_de(vues_objets(objs@.take(k as int))).push((objs@[k as int].0, g)));
            k += 1;
        }
        assert(objs@.take(objs.len() as int) =~= objs@);
        let ghost avant_lus = lus@;
        let ghost nouveaux = objs@;
        lus.append(&mut objs);
        assert(vues_objets(lus@) =~= vues_objets(avant_lus) + x.0);
        assert(genres_de(vues_objets(avant_lus) + x.0) =~= genres_de(l.objets) + genres_de(x.0));
        let mut k: usize = 0;
        while k < pgs.len()
            invariant
                k <= pgs.len(),
                pages@ == ajouter_ids(l.pages, pgs@.take(k as int)),
            decreases pgs.len() - k,
        {
            assert(pgs@.take(k + 1).drop_last() =~= pgs@.take(k as int));
            inserer_trie(&mut pages, pgs[k]);
            k += 1;
        }
        assert(pgs@.take(pgs.len() as int) =~= pgs@);
        proof {
            assert forall|id: IdObjet| #[trigger] dans_pool(etapes_fusion(f), id) == trouve(vues_objets(lus@), id) by {
                let c = EtapeFusion::Charge(octets@, l.premier);
                assert(etapes_fusion(f) == e0.push(c));
                assert(e0.push(c).drop_last() =~= e0);
                assert(dans_pool(e0, id) == trouve(vues_objets(avant_lus), id));
                lemma_trouve_concat(vues_objets(avant_lus), x.0, id);
            }
            assert forall|a: int, b: int| 0 <= a < b < lus.len() implies (#[trigger] lus@[a]).0.0 < (#[trigger] lus@[b]).0.0 by {
                if b >= avant_lus.len() && a < avant_lus.len() {
                    assert(lus@[a] == avant_lus[a]);
                    assert(lus@[b] == nouveaux[b - avant_lus.len()]);
                } else if a >= avant_lus.len() {
                    assert(lus@[a] == nouveaux[a - avant_lus.len()]);
                    assert(lus@[b] == nouveaux[b - avant_lus.len()]);
                } else {
                    assert(lus@[a] == avant_lus[a]);
                    assert(lus@[b] == avant_lus[b]);
                }
            }
            assert forall|a: int| 0 <= a < lus.len() implies (#[trigger] lus@[a]).0.0 < max + 1 by {
                if a < avant_lus.len() {
                    assert(lus@[a] == avant_lus[a]);
                } else {
                    assert(lus@[a] == nouveaux[a - avant_lus.len()]);
                }
            }
        }
        premier = max + 1;
        i += 1;
    }
    let ghost l = lues(vd);
    assert(vd.take(fichiers.len() as int) =~= vd);
    let plan = match pdf_merge(fichiers.len(), &genres, &pages) {
        Ok(p) => p,
        Err(m) => return Err(m),
    };
    let ghost g = genres_de(l.objets);
    let ghost e1 = etapes_fusion(f);
    // the objects of no other kind
    let mut k: usize = 0;
    while k < plan.autres.len()
        invariant
            k <= plan.autres.len(),
            plan.autres@ == ids_de(g, GenreObjet::Autre),
            g == genres_de(vues_objets(lus@)),
            forall|a: int, b: int| 0 <= a < b < lus.len() ==> (#[trigger] lus@[a]).0.0 < (#[trigger] lus@[b]).0.0,
            etapes_fusion(f) == e1 + plan.autres@.take(k as int).map_values(|id: IdObjet| EtapeFusion::Copie(id)),
            forall|id: IdObjet| #[trigger] dans_pool(etapes_fusion(f), id) == trouve(vues_objets(lus@), id),
        decreases plan.autres.len() - k,
    {
        let id = plan.autres[k];
        proof {
            lemma_id_lu(vues_objets(lus@), GenreObjet::Autre, k as int);
            lemma_pool_pas_charge(etapes_fusion(f), EtapeFusion::Copie(id));
        }
        copier_objet(&mut f, id);
        assert(plan.autres@.take(k + 1).map_values(|id: IdObjet| EtapeFusion::Copie(id))
            =~= plan.autres@.take(k as int).map_values(|id: IdObjet| EtapeFusion::Copie(id)).push(EtapeFusion::Copie(id)));
        k += 1;
    }
    assert(plan.autres@.take(plan.autres.len() as int) =~= plan.autres@);
    // the pages, under the page tree
    let ghost e2 = etapes_fusion(f);
    let mut k: usize = 0;
    while k < plan.pages.len()
        invariant
            k <= plan.pages.len(),
            l.objets == vues_objets(lus@),
            etapes_fusion(f) == e2 + pages_placees(l.objets, plan.pages@.take(k as int), plan.noeud_pages),
            forall|id: IdObjet| #[trigger] dans_pool(etapes_fusion(f), id) == trouve(vues_objets(lus@), id),
        decreases plan.pages.len() - k,
    {
        let id = plan.pages[k];
        assert(plan.pages@.take(k + 1).drop_last() =~= plan.pages@.take(k as int));
        if est_dict_lu(&lus, id) {
            proof { lemma_pool_pas_charge(etapes_fusion(f), EtapeFusion::Page(id, plan.noeud_pages)); }
            placer_page(&mut f, id, plan.noeud_pages);
        }
        k += 1;
    }
    assert(plan.pages@.take(plan.pages.len() as int) =~= plan.pages@);
    // the page tree
    let ghost e3 = etapes_fusion(f);
    let mut k: usize = 0;
    while k < plan.noeuds_pages.len()
        invariant
            k <= plan.noeuds_pages.len(),
            plan.noeuds_pages@ == ids_de(g, GenreObjet::NoeudPages),
            g == genres_de(vues_objets(lus@)),
            forall|a: int, b: int| 0 <= a < b < lus.len() ==> (#[trigger] lus@[a]).0.0 < (#[trigger] lus@[b]).0.0,
            etapes_fusion(f) == e3 + plan.noeuds_pages@.take(k as int).map_values(|id: IdObjet| EtapeFusion::Noeud(id)),
            forall|id: IdObjet| #[trigger] dans_pool(etapes_fusion(f), id) == trouve(vues_objets(lus@), id),
        decreases plan.noeuds_pages.len() - k,
    {
        let id = plan.noeuds_pages[k];
        proof {
            lemma_id_lu(vues_objets(lus@), GenreObjet::NoeudPages, k as int);
            lemma_pool_pas_charge(etapes_fusion(f), EtapeFusion::Noeud(id));
        }
        etendre_arbre(&mut f, id);
        assert(plan.noeuds_pages@.take(k + 1).map_values(|id: IdObjet| EtapeFusion::Noeud(id))
            =~= plan.noeuds_pages@.take(k as int).map_values(|id: IdObjet| EtapeFusion::Noeud(id)).push(EtapeFusion::Noeud(id)));
        k += 1;
    }
    assert(plan.noeuds_pages@.take(plan.noeuds_pages.len() as int) =~= plan.noeuds_pages@);
    let ghost e4 = etapes_fusion(f);
    proof { lemma_pool_pas_charge(e4, EtapeFusion::Arbre(plan.noeud_pages, plan.nombre_pages, plan.pages@)); }
    fermer_arbre(&mut f, plan.noeud_pages, plan.nombre_pages, &plan.pages);
    let ghost e5 = etapes_fusion(f);
    if est_dict_lu(&lus, plan.contenu_catalogue) {
        placer_catalogue(&mut f, plan.contenu_catalogue, plan.catalogue, plan.noeud_pages);
    }
    let ghost e6 = etapes_fusion(f);
    fixer_racine(&mut f, plan.catalogue);
    assert(etapes_fusion(f) =~= etapes_de(l));
    match finir_fusion(f) {
        Ok(v) => Ok(v),
        Err(e) => Err(crate::fichiers::message("Erreur sauvegarde : ", crate::fichiers::texte_de_echec(e))),
    }
}

/// Whether ids are in order, without repeats.
pub open spec fn croissant(s: Seq<IdObjet>) -> bool {
    forall|i: int, j: int| 0 <= i < j < s.len() ==> avant(#[trigger] s[i], #[trigger] s[j])
}

proof fn lemma_inserer_id(s: Seq<IdObjet>, x: IdObjet)
    requires
        croissant(s),
    ensures
        croissant(inserer_id(s, x)),
        forall|y: IdObjet| #[trigger] inserer_id(s, x).contains(y) <==> s.contains(y) || y == x,
    decreases s.len(),
{
    let r = inserer_id(s, x);
    if s.len() == 0 {
        assert(r =~= seq![x]);
        assert forall|y: IdObjet| #[trigger] r.contains(y) <==> s.contains(y) || y == x by {
            if r.contains(y) {
                assert(r[0] == y);
            } else if y == x {
                assert(r[0] == x);
            }
        }
    } else if s[0] == x {
        assert forall|y: IdObjet| #[trigger] r.contains(y) <==> s.contains(y) || y == x by {
            if y == x {
                assert(s[0] == x);
            }
        }
    } else if avant(x, s[0]) {
        assert(r =~= seq![x] + s);
        assert forall|i: int, j: int| 0 <= i < j < r.len() implies avant(#[trigger] r[i], #[trigger] r[j]) by {
            if i == 0 {
                if j > 1 {
                    assert(avant(s[0], s[j - 1]));
                }
            } else {
                assert(r[i] == s[i - 1] && r[j] == s[j - 1]);
            }
        }
        assert forall|y: IdObjet| #[trigger] r.contains(y) <==> s.contains(y) || y == x by {
            if r.contains(y) {
                let k = choose|k: int| 0 <= k < r.len() && r[k] == y;
                if k > 0 {
                    assert(s[k - 1] == y);
                }
            }
            if s.contains(y) {
                let k = choose|k: int| 0 <= k < s.len() && s[k] == y;
                assert(r[k + 1] == y);
            }
            if y == x {
                assert(r[0] == x);
            }
        }
    } else {
        let u = s.drop_first();
        assert(croissant(u)) by {
            assert forall|i: int, j: int| 0 <= i < j < u.len() implies avant(#[trigger] u[i], #[trigger] u[j]) by {
                assert(u[i] == s[i + 1] && u[j] == s[j + 1]);
            }
        }
        lemma_inserer_id(u, x);
        let v = inserer_id(u, x);
        assert(r =~= seq![s[0]] + v);
        assert(avant(s[0], x));
        assert forall|i: int, j: int| 0 <= i < j < r.len() implies avant(#[trigger] r[i], #[trigger] r[j]) by {
            if i == 0 {
                assert(r[j] == v[j - 1]);
                assert(v.contains(v[j - 1]));
                if v[j - 1] != x {
                    let k = choose|k: int| 0 <= k < u.len() && u[k] == v[j - 1];
                    assert(s[k + 1] == u[k]);
                    assert(avant(s[0], s[k + 1]));
                }
            } else {
                assert(r[i] == v[i - 1] && r[j] == v[j - 1]);
            }
        }
        assert forall|y: IdObjet| #[trigger] r.contains(y) <==> s.contains(y) || y == x by {
            if r.contains(y) {
                let k = choose|k: int| 0 <= k < r.len() && r[k] == y;
                if k > 0 {
                    assert(v[k - 1] == y);
                    assert(v.contains(y));
                    if u.contains(y) {
                        let m = choose|m: int| 0 <= m < u.len() && u[m] == y;
                        assert(s[m + 1] == y);
                    }
                } else {
                    assert(s[0] == y);
                }
            }
            if s.contains(y) {
                let k = choose|k: int| 0 <= k < s.len() && s[k] == y;
                if k == 0 {
                    assert(r[0] == y);
                } else {
                    assert(u[k - 1] == y);
                    assert(u.contains(y));
                    assert(v.contains(y));
                    let m = choose|m: int| 0 <= m < v.len() && v[m] == y;
                    assert(r[m + 1] == y);
                }
            }
            if y == x {
                assert(v.contains(x));
                let m = choose|m: int| 0 <= m < v.len() && v[m] == x;
                assert(r[m + 1] == x);
            }
        }
    }
}

/// The pages of the merged document: adding the pages of a file to those
/// of the files before keeps them in order without repeats, and the kids
/// are then every page of every file, each once.
pub proof fn loi_pages_fusionnees(s: Seq<IdObjet>, xs: Seq<IdObjet>)
    requires
        croissant(s),
    ensures
        croissant(ajouter_ids(s, xs)),
        forall|y: IdObjet| #[trigger] ajouter_ids(s, xs).contains(y) <==> s.contains(y) || xs.contains(y),
    decreases xs.len(),
{
    if xs.len() > 0 {
        loi_pages_fusionnees(s, xs.drop_last());
        lemma_inserer_id(ajouter_ids(s, xs.drop_last()), xs.last());
        assert forall|y: IdObjet| #[trigger] ajouter_ids(s, xs).contains(y) <==> s.contains(y) || xs.contains(y) by {
            if xs.drop_last().contains(y) {
                let k = choose|k: int| 0 <= k < xs.drop_last().len() && xs.drop_last()[k] == y;
                assert(xs[k] == y);
            }
            if xs.contains(y) && y != xs.last() {
                let k = choose|k: int| 0 <= k < xs.len() && xs[k] == y;
                assert(xs.drop_last()[k] == y);
            }
            if y == xs.last() {
                assert(xs[xs.len() - 1] == y);
            }
        }
    }
}

/// The pages of the files read are in order without repeats.
pub proof fn loi_pages_lues(docs: Seq<Seq<u8>>)
    ensures
        croissant(lues(docs).pages),
    decreases docs.len(),
{
    if docs.len() > 0 {
        loi_pages_lues(docs.drop_last());
        let l = lues(docs.drop_last());
        if l.ok {
            if let Some(x) = objets_pdf(docs.last(), l.premier) {
                loi_pages_fusionnees(l.pages, x.1);
            }
        }
    }
}

} // verus!
