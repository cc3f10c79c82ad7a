use vstd::prelude::*;
use vstd::string::StringExecFns;
use crate::texte::vues_chaines;

verus! {

broadcast use vstd::string::group_string_axioms;

/// The order of `String`s: lexicographic by code point (UTF-8 bytes compare
/// in the order of the code points they encode).
pub open spec fn lex_lt(a: Seq<char>, b: Seq<char>) -> bool
    decreases a.len(),
{
    if b.len() == 0 {
        false
    } else if a.len() == 0 {
        true
    } else if a[0] != b[0] {
        (a[0] as u32) < (b[0] as u32)
    } else {
        lex_lt(a.drop_first(), b.drop_first())
    }
}

/// A text added to a list after the texts that do not come after it.
pub open spec fn inserer_texte(t: Seq<Seq<char>>, x: Seq<char>) -> Seq<Seq<char>>
    decreases t.len(),
{
    if t.len() == 0 {
        seq![x]
    } else if lex_lt(x, t[0]) {
        seq![x] + t
    } else {
        seq![t[0]] + inserer_texte(t.drop_first(), x)
    }
}

/// Texts in order (`sort`: stable, equal texts kept in their order).
pub open spec fn trier_textes(s: Seq<Seq<char>>) -> Seq<Seq<char>>
    decreases s.len(),
{
    if s.len() == 0 {
        Seq::empty()
    } else {
        inserer_texte(trier_textes(s.drop_last()), s.last())
    }
}

/// Whether texts are in order.
pub open spec fn en_ordre(s: Seq<Seq<char>>) -> bool {
    forall|i: int, j: int| 0 <= i < j < s.len() ==> !lex_lt(#[trigger] s[j], #[trigger] s[i])
}

/// Texts one per line, each ended by a line feed (`writeln!`).
pub open spec fn lignes_texte(s: Seq<Seq<char>>) -> Seq<char>
    decreases s.len(),
{
    if s.len() == 0 {
        Seq::empty()
    } else {
        lignes_texte(s.drop_last()) + s.last() + seq!['\n']
    }
}

proof fn lemma_lex_total(a: Seq<char>, b: Seq<char>)
    ensures
        a != b ==> lex_lt(a, b) || lex_lt(b, a),
        !(lex_lt(a, b) && lex_lt(b, a)),
    decreases a.len(),
{
    if a.len() > 0 && b.len() > 0 && a[0] == b[0] {
        lemma_lex_total(a.drop_first(), b.drop_first());
        if a.drop_first() == b.drop_first() {
            assert(a =~= seq![a[0]] + a.drop_first());
            assert(b =~= seq![b[0]] + b.drop_first());
        }
    } else if a.len() == 0 && b.len() == 0 {
        assert(a =~= b);
    } else if a.len() > 0 && b.len() > 0 {
        vstd::utf8::char_u32_cast(a[0], a[0] as u32);
        vstd::utf8::char_u32_cast(b[0], b[0] as u32);
    }
}

proof fn lemma_lex_trans(a: Seq<char>, b: Seq<char>, c: Seq<char>)
    requires
        !lex_lt(b, a),
        !lex_lt(c, b),
    ensures
        !lex_lt(c, a),
    decreases a.len(),
{
    lemma_lex_total(a, b);
    lemma_lex_total(b, c);
    if a.len() > 0 && b.len() > 0 && c.len() > 0 && a[0] == b[0] && b[0] == c[0] {
        lemma_lex_trans(a.drop_first(), b.drop_first(), c.drop_first());
    }
}

proof fn lemma_inserer_texte(t: Seq<Seq<char>>, x: Seq<char>)
    requires
        en_ordre(t),
    ensures
        en_ordre(inserer_texte(t, x)),
        inserer_texte(t, x).to_multiset() == t.to_multiset().insert(x),
        forall|k: int| 0 <= k < inserer_texte(t, x).len() ==>
            (#[trigger] inserer_texte(t, x)[k] == x || t.contains(inserer_texte(t, x)[k])),
    decreases t.len(),
{
    broadcast use vstd::seq_lib::group_to_multiset_ensures;
    let r = inserer_texte(t, x);
    if t.len() == 0 {
        assert(seq![x] =~= Seq::<Seq<char>>::empty().push(x));
    } else if lex_lt(x, t[0]) {
        assert(r =~= seq![x] + t);
        vstd::seq_lib::lemma_multiset_commutative(seq![x], t);
        assert(seq![x] =~= Seq::<Seq<char>>::empty().push(x));
        assert forall|i: int, j: int| 0 <= i < j < r.len() implies !lex_lt(#[trigger] r[j], #[trigger] r[i]) by {
            if i == 0 {
                lemma_lex_total(x, t[0]);
                if j > 1 {
                    lemma_lex_trans(x, t[0], t[j - 1]);
                }
            } else {
                assert(r[i] == t[i - 1] && r[j] == t[j - 1]);
            }
        }
        assert forall|k: int| 0 <= k < r.len() implies (#[trigger] r[k] == x || t.contains(r[k])) by {
            if k > 0 {
                assert(r[k] == t[k - 1]);
            }
        }
    } else {
        let u = t.drop_first();
        assert(en_ordre(u)) by {
            assert forall|i: int, j: int| 0 <= i < j < u.len() implies !lex_lt(#[trigger] u[j], #[trigger] u[i]) by {
                assert(u[i] == t[i + 1] && u[j] == t[j + 1]);
            }
        }
        lemma_inserer_texte(u, x);
        let v = inserer_texte(u, x);
        assert(r =~= seq![t[0]] + v);
        assert(t =~= seq![t[0]] + u);
        vstd::seq_lib::lemma_multiset_commutative(seq![t[0]], v);
        vstd::seq_lib::lemma_multiset_commutative(seq![t[0]], u);
        assert(seq![t[0]] =~= Seq::<Seq<char>>::empty().push(t[0]));
        assert(v.to_multiset() =~= u.to_multiset().insert(x));
        assert(t.to_multiset().insert(x) =~= seq![t[0]].to_multiset().add(u.to_multiset().insert(x)));
        assert forall|k: int| 0 <= k < r.len() implies (#[trigger] r[k] == x || t.contains(r[k])) by {
            if k == 0 {
                assert(t[0] == t[0]);
            } else {
                assert(r[k] == v[k - 1]);
                if v[k - 1] != x {
                    let m = choose|m: int| 0 <= m < u.len() && u[m] == v[k - 1];
                    assert(t[m + 1] == u[m]);
                }
            }
        }
        assert forall|i: int, j: int| 0 <= i < j < r.len() implies !lex_lt(#[trigger] r[j], #[trigger] r[i]) by {
            if i == 0 {
                assert(r[j] == v[j - 1]);
                if v[j - 1] == x {
                    lemma_lex_total(x, t[0]);
                } else {
                    let m = choose|m: int| 0 <= m < u.len() && u[m] == v[j - 1];
                    assert(t[m + 1] == u[m]);
                }
            } else {
                assert(r[i] == v[i - 1] && r[j] == v[j - 1]);
            }
        }
    }
}

/// The texts sorted are in order and are the same texts.
pub proof fn lemma_trier_textes(s: Seq<Seq<char>>)
    ensures
        en_ordre(trier_textes(s)),
        trier_textes(s).to_multiset() == s.to_multiset(),
    decreases s.len(),
{
    broadcast use vstd::seq_lib::group_to_multiset_ensures;
    if s.len() > 0 {
        lemma_trier_textes(s.drop_last());
        lemma_inserer_texte(trier_textes(s.drop_last()), s.last());
        assert(s =~= s.drop_last().push(s.last()));
    } else {
        assert(trier_textes(s) =~= s);
    }
}

/// Whether a text comes before another (see `lex_lt`).
pub fn avant_texte(a: &str, b: &str) -> (r: bool)
    ensures
        r == lex_lt(a@, b@),
{
    let mut i: usize = 0;
    assert(a@.skip(0) =~= a@ && b@.skip(0) =~= b@);
    while i < a.unicode_len() && i < b.unicode_len()
        invariant
            i <= a@.len(),
            i <= b@.len(),
            lex_lt(a@, b@) == lex_lt(a@.skip(i as int), b@.skip(i as int)),
        decreases a@.len() - i,
    {
        let ca = a.get_char(i);
        let cb = b.get_char(i);
        assert(a@.skip(i as int)[0] == ca && b@.skip(i as int)[0] == cb);
        if ca != cb {
            return (ca as u32) < (cb as u32);
        }
        assert(a@.skip(i as int).drop_first() =~= a@.skip(i + 1));
        assert(b@.skip(i as int).drop_first() =~= b@.skip(i + 1));
        i += 1;
    }
    i < b.unicode_len()
}

proof fn lemma_inserer_prefixe(t: Seq<Seq<char>>, x: Seq<char>, i: int)
    requires
        0 <= i <= t.len(),
        forall|k: int| 0 <= k < i ==> !lex_lt(x, #[trigger] t[k]),
    ensures
        inserer_texte(t, x) == t.take(i) + inserer_texte(t.skip(i), x),
    decreases i,
{
    if i == 0 {
        assert(t.skip(0) =~= t);
        assert(t.take(0) + inserer_texte(t, x) =~= inserer_texte(t, x));
    } else {
        let u = t.drop_first();
        assert forall|k: int| 0 <= k < i - 1 implies !lex_lt(x, #[trigger] u[k]) by {
            assert(u[k] == t[k + 1]);
        }
        lemma_inserer_prefixe(u, x, i - 1);
        assert(!lex_lt(x, t[0]));
        assert(u.skip(i - 1) =~= t.skip(i));
        assert(t.take(i) =~= seq![t[0]] + u.take(i - 1));
        assert(seq![t[0]] + (u.take(i - 1) + inserer_texte(t.skip(i), x))
            =~= (seq![t[0]] + u.take(i - 1)) + inserer_texte(t.skip(i), x));
    }
}

fn inserer_en_ordre(v: &mut Vec<String>, x: String)
    ensures
        vues_chaines(final(v)@) == inserer_texte(vues_chaines(old(v)@), x@),
{
    let ghost t = vues_chaines(v@);
    let mut i: usize = 0;
    while i < v.len() && !avant_texte(x.as_str(), v[i].as_str())
        invariant
            i <= v.len(),
            t == vues_chaines(v@),
            v@ == old(v)@,
            forall|k: int| 0 <= k < i ==> !lex_lt(x@, #[trigger] t[k]),
        decreases v.len() - i,
    {
        i += 1;
    }
    proof {
        lemma_inserer_prefixe(t, x@, i as int);
        if (i as int) < t.len() {
            assert(t.skip(i as int)[0] == t[i as int]);
        } else {
            assert(t.skip(i as int) =~= Seq::<Seq<char>>::empty());
        }
    }
    v.insert(i, x);
    assert(vues_chaines(v@) =~= t.take(i as int) + (seq![x@] + t.skip(i as int)));
}

/// Paths sorted as `sort` sorts `String`s: in order, the same paths.
pub fn trier_chemins(chemins: &Vec<String>) -> (r: Vec<String>)
    ensures
        vues_chaines(r@) == trier_textes(vues_chaines(chemins@)),
        en_ordre(vues_chaines(r@)),
        vues_chaines(r@).to_multiset() == vues_chaines(chemins@).to_multiset(),
{
    let ghost s = vues_chaines(chemins@);
    let mut r: Vec<String> = Vec::new();
    let mut i: usize = 0;
    assert(s.take(0) =~= Seq::<Seq<char>>::empty());
    while i < chemins.len()
        invariant
            i <= chemins.len(),
            s == vues_chaines(chemins@),
            vues_chaines(r@) == trier_textes(s.take(i as int)),
        decreases chemins.len() - i,
    {
        assert(s.take(i + 1).drop_last() =~= s.take(i as int));
        inserer_en_ordre(&mut r, String::from_str(chemins[i].as_str()));
        i += 1;
    }
    assert(s.take(chemins.len() as int) =~= s);
    proof { lemma_trier_textes(s); }
    r
}

/// Texts one per line (see `lignes_texte`).
pub fn texte_lignes(lignes: &Vec<String>) -> (r: String)
    ensures
        r@ == lignes_texte(vues_chaines(lignes@)),
{
    let ghost s = vues_chaines(lignes@);
    let mut r = String::new();
    let mut i: usize = 0;
    assert(s.take(0) =~= Seq::<Seq<char>>::empty());
    while i < lignes.len()
        invariant
            i <= lignes.len(),
            s == vues_chaines(lignes@),
            r@ == lignes_texte(s.take(i as int)),
        decreases lignes.len() - i,
    {
        assert(s.take(i + 1).drop_last() =~= s.take(i as int));
        r.append(lignes[i].as_str());
        r.append("\n");
        proof { reveal_strlit("\n"); }
        i += 1;
    }
    assert(s.take(lignes.len() as int) =~= s);
    r
}

} // verus!
