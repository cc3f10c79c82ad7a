use vstd::prelude::*;
use vstd::string::StringExecFns;

verus! {

broadcast use vstd::string::group_string_axioms;

/// The audio formats the converter writes.
pub open spec fn formats_audio() -> Seq<Seq<char>> {
    seq!["mp3"@, "wav"@, "flac"@, "ogg"@, "aac"@]
}

/// The formats of `fs` other than `c`, in order.
pub open spec fn sauf(fs: Seq<Seq<char>>, c: Seq<char>) -> Seq<Seq<char>>
    decreases fs.len(),
{
    if fs.len() == 0 {
        fs
    } else if fs.last() == c {
        sauf(fs.drop_last(), c)
    } else {
        sauf(fs.drop_last(), c).push(fs.last())
    }
}

pub open spec fn vues_textes(v: Seq<&str>) -> Seq<Seq<char>> {
    v.map_values(|s: &str| s@)
}

fn meme(a: &str, b: &str) -> (r: bool)
    ensures
        r == (a@ == b@),
{
    let x = String::from_str(a);
    let y = String::from_str(b);
    x == y
}

/// The formats an audio file can be converted to: every format the
/// converter writes but the file's own, in the order `mp3`, `wav`, `flac`,
/// `ogg`, `aac`.
pub fn formats_compatibles(codec: &str) -> (r: Vec<&'static str>)
    ensures
        vues_textes(r@) == sauf(formats_audio(), codec@),
{
    let tous: [&'static str; 5] = ["mp3", "wav", "flac", "ogg", "aac"];
    let ghost fs = formats_audio();
    assert(vues_textes(tous@) =~= fs);
    let mut r: Vec<&'static str> = Vec::new();
    let mut i: usize = 0;
    assert(fs.take(0) =~= Seq::<Seq<char>>::empty());
    while i < 5
        invariant
            i <= 5,
            fs == formats_audio(),
            vues_textes(tous@) == fs,
            vues_textes(r@) == sauf(fs.take(i as int), codec@),
        decreases 5 - i,
    {
        let f = tous[i];
        assert(f@ == fs[i as int]);
        let ghost avant = vues_textes(r@);
        assert(fs.take(i + 1).drop_last() =~= fs.take(i as int));
        assert(fs.take(i + 1).last() == fs[i as int]);
        if !meme(f, codec) {
            r.push(f);
            assert(vues_textes(r@) =~= avant.push(f@));
        }
        i += 1;
    }
    assert(fs.take(5) =~= fs);
    r
}

} // verus!
