use vstd::prelude::*;
use vstd::string::StringExecFns;
use crate::texte::{contient_chaine, est_mot, vues_chaines, caracteres};

verus! {

broadcast use vstd::string::group_string_axioms;

/// The hardware accelerations, in the order in which "auto" tries them.
pub open spec fn accels_materielles() -> Seq<Seq<char>> {
    seq!["nvenc"@, "qsv"@, "amf"@, "videotoolbox"@]
}

pub fn accel_materielles() -> (r: Vec<&'static str>)
    ensures
        r@.map_values(|s: &str| s@) == accels_materielles(),
{
    let r = vec!["nvenc", "qsv", "amf", "videotoolbox"];
    assert(r@.map_values(|s: &str| s@) =~= accels_materielles());
    r
}

/// The ffmpeg encoder for a codec and an acceleration; VP9 has only its
/// software encoder.
pub open spec fn encodeur(codec: Seq<char>, accel: Seq<char>) -> Option<Seq<char>> {
    if codec == "h264"@ {
        if accel == "software"@ { Some("libx264"@) } else { Some("h264_"@ + accel) }
    } else if codec == "hevc"@ {
        if accel == "software"@ { Some("libx265"@) } else { Some("hevc_"@ + accel) }
    } else if codec == "av1"@ {
        if accel == "software"@ { Some("libsvtav1"@) } else { Some("av1_"@ + accel) }
    } else if codec == "vp9"@ {
        if accel == "software"@ { Some("libvpx-vp9"@) } else { None }
    } else {
        None
    }
}

/// The ffmpeg encoder name for a codec and an acceleration.
pub fn nom_encodeur(codec: &str, accel: &str) -> (r: Option<String>)
    ensures
        match r {
            Some(e) => encodeur(codec@, accel@) == Some(e@),
            None => encodeur(codec@, accel@) is None,
        },
{
    let logiciel = est_mot(accel, "software");
    let prefixe = if est_mot(codec, "h264") {
        if logiciel { return Some(String::from_str("libx264")); }
        "h264_"
    } else if est_mot(codec, "hevc") {
        if logiciel { return Some(String::from_str("libx265")); }
        "hevc_"
    } else if est_mot(codec, "av1") {
        if logiciel { return Some(String::from_str("libsvtav1")); }
        "av1_"
    } else if est_mot(codec, "vp9") {
        if logiciel { return Some(String::from_str("libvpx-vp9")); }
        return None;
    } else {
        return None;
    };
    let mut e = String::from_str(prefixe);
    e.append(accel);
    Some(e)
}

/// An acceleration is plausible when a real encode with it succeeded.
pub open spec fn plausible(accel: Seq<char>, fonctionnelles: Seq<Seq<char>>) -> bool {
    fonctionnelles.contains(accel)
}

/// Whether a hardware acceleration was found to work on this machine.
pub fn accel_plausible(accel: &str, fonctionnelles: &Vec<String>) -> (r: bool)
    ensures
        r == plausible(accel@, vues_chaines(fonctionnelles@)),
{
    let a = caracteres(accel);
    contient_chaine(fonctionnelles, &a)
}

/// Whether an acceleration gives, for a codec, an encoder that this ffmpeg has.
pub open spec fn accel_utilisable(codec: Seq<char>, accel: Seq<char>, dispo: Seq<Seq<char>>,
    fonctionnelles: Seq<Seq<char>>) -> bool
{
    &&& plausible(accel, fonctionnelles)
    &&& encodeur(codec, accel) is Some
    &&& dispo.contains(encodeur(codec, accel)->0)
}

/// The first of `accels` that is usable for the codec.
pub open spec fn premiere_utilisable(codec: Seq<char>, accels: Seq<Seq<char>>, dispo: Seq<Seq<char>>,
    fonctionnelles: Seq<Seq<char>>) -> Option<Seq<char>>
    decreases accels.len(),
{
    if accels.len() == 0 {
        None
    } else if accel_utilisable(codec, accels[0], dispo, fonctionnelles) {
        Some(accels[0])
    } else {
        premiere_utilisable(codec, accels.drop_first(), dispo, fonctionnelles)
    }
}

/// The encoder chosen for a codec and a requested acceleration, and whether
/// it is a hardware one: an explicit hardware request is honoured when usable,
/// "auto" takes the first usable hardware acceleration, and otherwise the
/// software encoder (libx264 for an unknown codec) is used.
pub open spec fn encodeur_resolu(codec: Seq<char>, demande: Seq<char>, dispo: Seq<Seq<char>>,
    fonctionnelles: Seq<Seq<char>>) -> (Seq<char>, bool)
{
    let logiciel = match encodeur(codec, "software"@) {
        Some(e) => e,
        None => "libx264"@,
    };
    if demande != "auto"@ && demande != "software"@ {
        if accel_utilisable(codec, demande, dispo, fonctionnelles) {
            (encodeur(codec, demande)->0, true)
        } else {
            (logiciel, false)
        }
    } else if demande == "auto"@ {
        match premiere_utilisable(codec, accels_materielles(), dispo, fonctionnelles) {
            Some(a) => (encodeur(codec, a)->0, true),
            None => (logiciel, false),
        }
    } else {
        (logiciel, false)
    }
}

fn utilisable(codec: &str, accel: &str, dispo: &Vec<String>, fonctionnelles: &Vec<String>) -> (r: Option<String>)
    ensures
        match r {
            Some(e) => accel_utilisable(codec@, accel@, vues_chaines(dispo@), vues_chaines(fonctionnelles@))
                && encodeur(codec@, accel@) == Some(e@),
            None => !accel_utilisable(codec@, accel@, vues_chaines(dispo@), vues_chaines(fonctionnelles@)),
        },
{
    if !accel_plausible(accel, fonctionnelles) {
        return None;
    }
    match nom_encodeur(codec, accel) {
        Some(e) => {
            let c = caracteres(e.as_str());
            if contient_chaine(dispo, &c) { Some(e) } else { None }
        },
        None => None,
    }
}

/// Resolves the ffmpeg encoder to use for a codec and a requested
/// acceleration (`"auto"`, `"software"` or a hardware name), given the video
/// encoders that this ffmpeg lists and the accelerations found to work.
pub fn resoudre_encodeur(codec: &str, accel_demande: &str, dispo: &Vec<String>,
    fonctionnelles: &Vec<String>) -> (r: (String, bool))
    ensures
        (r.0@, r.1) == encodeur_resolu(codec@, accel_demande@, vues_chaines(dispo@),
            vues_chaines(fonctionnelles@)),
{
    let auto = est_mot(accel_demande, "auto");
    let logiciel = est_mot(accel_demande, "software");
    if !auto && !logiciel {
        match utilisable(codec, accel_demande, dispo, fonctionnelles) {
            Some(e) => return (e, true),
            None => {},
        }
    } else if auto {
        let accels = accel_materielles();
        let mut i: usize = 0;
        let ghost liste = accels_materielles();
        assert(liste.skip(0) =~= liste);
        while i < accels.len()
            invariant
                i <= accels.len(),
                accel_demande@ == "auto"@,
                liste == accels_materielles(),
                accels@.map_values(|s: &str| s@) == liste,
                premiere_utilisable(codec@, liste, vues_chaines(dispo@), vues_chaines(fonctionnelles@))
                    == premiere_utilisable(codec@, liste.skip(i as int), vues_chaines(dispo@),
                    vues_chaines(fonctionnelles@)),
            decreases accels.len() - i,
        {
            assert(liste[i as int] == accels@[i as int]@);
            assert(liste.skip(i as int)[0] == liste[i as int]);
            assert(liste.skip(i as int).drop_first() =~= liste.skip(i + 1));
            match utilisable(codec, accels[i], dispo, fonctionnelles) {
                Some(e) => {
                    assert(liste.skip(i as int).len() > 0);
                    assert(premiere_utilisable(codec@, liste.skip(i as int), vues_chaines(dispo@),
                        vues_chaines(fonctionnelles@)) == Some(liste[i as int]));
                    return (e, true);
                },
                None => {},
            }
            i += 1;
        }
        assert(liste.skip(accels.len() as int) =~= Seq::<Seq<char>>::empty());
    }
    match nom_encodeur(codec, "software") {
        Some(e) => (e, false),
        None => (String::from_str("libx264"), false),
    }
}

} // verus!

verus! {

/// The accelerations of `accels` that are usable for the codec, in order.
pub open spec fn utilisables(codec: Seq<char>, accels: Seq<Seq<char>>, dispo: Seq<Seq<char>>,
    fonctionnelles: Seq<Seq<char>>) -> Seq<Seq<char>>
    decreases accels.len(),
{
    if accels.len() == 0 {
        Seq::empty()
    } else {
        let r = utilisables(codec, accels.drop_last(), dispo, fonctionnelles);
        if accel_utilisable(codec, accels.last(), dispo, fonctionnelles) { r.push(accels.last()) } else { r }
    }
}

pub open spec fn codecs_video() -> Seq<Seq<char>> {
    seq!["h264"@, "hevc"@, "av1"@, "vp9"@]
}

/// For a codec, "software" then every usable hardware acceleration.
pub open spec fn accels_du_codec(codec: Seq<char>, dispo: Seq<Seq<char>>, fonctionnelles: Seq<Seq<char>>)
    -> Seq<Seq<char>>
{
    seq!["software"@] + utilisables(codec, accels_materielles(), dispo, fonctionnelles)
}

fn accels_pour(codec: &'static str, dispo: &Vec<String>, fonctionnelles: &Vec<String>) -> (r: Vec<&'static str>)
    ensures
        r@.map_values(|s: &str| s@) == accels_du_codec(codec@, vues_chaines(dispo@), vues_chaines(fonctionnelles@)),
{
    let mut r: Vec<&'static str> = vec!["software"];
    let accels = accel_materielles();
    let ghost liste = accels_materielles();
    let mut i: usize = 0;
    assert(liste.take(0) =~= Seq::<Seq<char>>::empty());
    assert(r@.map_values(|s: &str| s@) =~= seq!["software"@] + Seq::<Seq<char>>::empty());
    while i < accels.len()
        invariant
            i <= accels.len(),
            liste == accels_materielles(),
            accels@.map_values(|s: &str| s@) == liste,
            r@.map_values(|s: &str| s@) == seq!["software"@] + utilisables(codec@, liste.take(i as int),
                vues_chaines(dispo@), vues_chaines(fonctionnelles@)),
        decreases accels.len() - i,
    {
        assert(liste[i as int] == accels@[i as int]@);
        assert(liste.take(i + 1).drop_last() =~= liste.take(i as int));
        assert(liste.take(i + 1).last() == liste[i as int]);
        let ghost avant = r@.map_values(|s: &str| s@);
        match utilisable(codec, accels[i], dispo, fonctionnelles) {
            Some(_) => {
                r.push(accels[i]);
                assert(r@.map_values(|s: &str| s@) =~= avant.push(liste[i as int]));
            },
            None => {},
        }
        i += 1;
    }
    assert(liste.take(accels.len() as int) =~= liste);
    r
}

/// For each codec (h264, hevc, av1, vp9), the accelerations that can really
/// be used with it here: "software", then each hardware one that works on
/// this machine and whose encoder this ffmpeg has.
pub fn codecs_et_accelerations_disponibles(dispo: &Vec<String>, fonctionnelles: &Vec<String>)
    -> (r: Vec<(&'static str, Vec<&'static str>)>)
    ensures
        r.len() == 4,
        forall|i: int| 0 <= i < 4 ==> (#[trigger] r@[i]).0@ == codecs_video()[i]
            && r@[i].1@.map_values(|s: &str| s@) == accels_du_codec(codecs_video()[i],
            vues_chaines(dispo@), vues_chaines(fonctionnelles@)),
{
    let mut resultat: Vec<(&'static str, Vec<&'static str>)> = Vec::new();
    let a = accels_pour("h264", dispo, fonctionnelles);
    resultat.push(("h264", a));
    let a = accels_pour("hevc", dispo, fonctionnelles);
    resultat.push(("hevc", a));
    let a = accels_pour("av1", dispo, fonctionnelles);
    resultat.push(("av1", a));
    let a = accels_pour("vp9", dispo, fonctionnelles);
    resultat.push(("vp9", a));
    resultat
}

// ───────────────────────── ffmpeg arguments ─────────────────────────

/// x264/x265 preset for a speed setting.
pub open spec fn preset(speed: u32) -> Seq<char> {
    if speed <= 1 { "slow"@ } else if speed <= 4 { "medium"@ } else if speed <= 6 { "fast"@ } else { "ultrafast"@ }
}

/// SVT-AV1 numeric preset for a speed setting.
pub open spec fn preset_svt(speed: u32) -> nat {
    if speed <= 1 { 4 } else if speed <= 4 { 7 } else if speed <= 6 { 10 } else { 12 }
}

/// The codec used when "auto" is asked: VP9 for a WebM output, H.264 otherwise.
pub open spec fn codec_effectif(codec: Seq<char>, sortie: Seq<char>) -> Seq<char> {
    let ext = match crate::chemin::extension_chemin(sortie) {
        Some(e) => crate::texte::minuscules_texte(e),
        None => Seq::empty(),
    };
    if codec == "auto"@ {
        if ext == "webm"@ { "vp9"@ } else { "h264"@ }
    } else {
        codec
    }
}

/// The encoder options after `-c:v <encoder>`: none for a hardware encoder,
/// the speed-derived ones for a software one.
pub open spec fn options_logicielles(codec: Seq<char>, speed: u32, threads: usize) -> Seq<Seq<char>> {
    if codec == "vp9"@ {
        seq!["-row-mt"@, "1"@, "-deadline"@, "realtime"@, "-threads"@, crate::texte::decimal(threads as nat),
            "-speed"@, crate::texte::decimal(speed as nat)]
    } else if codec == "hevc"@ {
        seq!["-preset"@, preset(speed)]
    } else if codec == "av1"@ {
        seq!["-preset"@, crate::texte::decimal(preset_svt(speed))]
    } else {
        seq!["-preset"@, preset(speed)]
    }
}

/// The ffmpeg arguments that convert `entree` into `sortie`.
pub open spec fn arguments_video(entree: Seq<char>, sortie: Seq<char>, copie_flux: bool, audio_seul: bool,
    speed: u32, codec: Seq<char>, accel: Seq<char>, dispo: Seq<Seq<char>>, fonctionnelles: Seq<Seq<char>>,
    threads: usize) -> Seq<Seq<char>>
{
    let debut = seq!["-nostdin"@, "-i"@, entree];
    let milieu = if copie_flux {
        if audio_seul { seq!["-vn"@, "-c:a"@, "copy"@] } else { seq!["-c"@, "copy"@] }
    } else if audio_seul {
        seq!["-vn"@]
    } else {
        let c = codec_effectif(codec, sortie);
        let (enc, materiel) = encodeur_resolu(c, accel, dispo, fonctionnelles);
        seq!["-c:v"@, enc] + if materiel { Seq::empty() } else { options_logicielles(c, speed, threads) }
    };
    debut + milieu + seq!["-y"@, sortie]
}

fn texte_decimal(n: u128) -> (r: String)
    ensures
        r@ == crate::texte::decimal(n as nat),
{
    crate::texte::chaine(&crate::texte::ecrire_decimal(n))
}

fn ajouter(v: &mut Vec<String>, s: &str)
    ensures
        vues_chaines(final(v)@) == vues_chaines(old(v)@).push(s@),
{
    let ghost a = vues_chaines(v@);
    v.push(String::from_str(s));
    assert(vues_chaines(v@) =~= a.push(s@));
}

fn ajouter_chaine(v: &mut Vec<String>, s: String)
    ensures
        vues_chaines(final(v)@) == vues_chaines(old(v)@).push(s@),
{
    let ghost a = vues_chaines(v@);
    v.push(s);
    assert(vues_chaines(v@) =~= a.push(s@));
}

fn codec_effectif_de(codec: &str, output: &str) -> (r: String)
    ensures
        r@ == codec_effectif(codec@, output@),
{
    if est_mot(codec, "auto") {
        let ext = match crate::chemin::extension_de(output) {
            Some(e) => crate::texte::vers_minuscules(&e),
            None => Vec::new(),
        };
        let w = caracteres("webm");
        if crate::texte::egal(&ext, &w) { String::from_str("vp9") } else { String::from_str("h264") }
    } else {
        String::from_str(codec)
    }
}

/// The arguments of the ffmpeg run that converts a video or changes its
/// container: stream copy, audio only, or a re-encode with the resolved
/// encoder and, for a software encoder, the options of the speed setting.
pub fn traiter_video(input: &str, output: &str, copie_flux: bool, est_audio_uniquement: bool,
    speed: u32, codec: &str, accel: &str, dispo: &Vec<String>, fonctionnelles: &Vec<String>, threads: usize)
    -> (r: Vec<String>)
    ensures
        vues_chaines(r@) == arguments_video(input@, output@, copie_flux, est_audio_uniquement, speed, codec@,
            accel@, vues_chaines(dispo@), vues_chaines(fonctionnelles@), threads),
{
    let mut args: Vec<String> = Vec::new();
    ajouter(&mut args, "-nostdin");
    ajouter(&mut args, "-i");
    ajouter(&mut args, input);
    let ghost debut = vues_chaines(args@);
    if copie_flux {
        if est_audio_uniquement {
            ajouter(&mut args, "-vn");
            ajouter(&mut args, "-c:a");
            ajouter(&mut args, "copy");
        } else {
            ajouter(&mut args, "-c");
            ajouter(&mut args, "copy");
        }
    } else if est_audio_uniquement {
        ajouter(&mut args, "-vn");
    } else {
        let c = codec_effectif_de(codec, output);
        let (enc, materiel) = resoudre_encodeur(c.as_str(), accel, dispo, fonctionnelles);
        ajouter(&mut args, "-c:v");
        ajouter_chaine(&mut args, enc);
        if !materiel {
            if est_mot(c.as_str(), "vp9") {
                ajouter(&mut args, "-row-mt");
                ajouter(&mut args, "1");
                ajouter(&mut args, "-deadline");
                ajouter(&mut args, "realtime");
                ajouter(&mut args, "-threads");
                ajouter_chaine(&mut args, texte_decimal(threads as u128));
                ajouter(&mut args, "-speed");
                ajouter_chaine(&mut args, texte_decimal(speed as u128));
            } else if est_mot(c.as_str(), "av1") && !est_mot(c.as_str(), "hevc") {
                let p: u128 = if speed <= 1 { 4 } else if speed <= 4 { 7 } else if speed <= 6 { 10 } else { 12 };
                ajouter(&mut args, "-preset");
                ajouter_chaine(&mut args, texte_decimal(p));
            } else {
                let p = if speed <= 1 { "slow" } else if speed <= 4 { "medium" } else if speed <= 6 { "fast" } else { "ultrafast" };
                ajouter(&mut args, "-preset");
                ajouter(&mut args, p);
            }
        }
    }
    ajouter(&mut args, "-y");
    ajouter(&mut args, output);
    assert(vues_chaines(args@) =~= arguments_video(input@, output@, copie_flux, est_audio_uniquement, speed,
        codec@, accel@, vues_chaines(dispo@), vues_chaines(fonctionnelles@), threads));
    args
}

proof fn lemma_noms_codecs()
    ensures
        "vp9"@ != "h264"@,
        "vp9"@ != "hevc"@,
        "vp9"@ != "av1"@,
        "vp9"@ != "auto"@,
        "webm"@ == seq!['w', 'e', 'b', 'm'],
        forall|i: int| 0 <= i < accels_materielles().len() ==> #[trigger] accels_materielles()[i] != "software"@,
{
    reveal_strlit("vp9");
    reveal_strlit("h264");
    reveal_strlit("hevc");
    reveal_strlit("av1");
    reveal_strlit("auto");
    reveal_strlit("webm");
    reveal_strlit("software");
    reveal_strlit("nvenc");
    reveal_strlit("qsv");
    reveal_strlit("amf");
    reveal_strlit("videotoolbox");
    assert("vp9"@.len() != "h264"@.len());
    assert("vp9"@.len() != "hevc"@.len());
    assert("vp9"@[0] != "av1"@[0]);
    assert("vp9"@.len() != "auto"@.len());
    assert("webm"@ =~= seq!['w', 'e', 'b', 'm']);
    assert forall|i: int| 0 <= i < accels_materielles().len() implies #[trigger] accels_materielles()[i] != "software"@ by {
        assert(accels_materielles()[i].len() != "software"@.len());
    }
}

proof fn lemma_vp9_sans_materiel(accels: Seq<Seq<char>>, dispo: Seq<Seq<char>>, fonctionnelles: Seq<Seq<char>>)
    requires
        forall|i: int| 0 <= i < accels.len() ==> #[trigger] accels[i] != "software"@,
    ensures
        premiere_utilisable("vp9"@, accels, dispo, fonctionnelles) is None,
    decreases accels.len(),
{
    lemma_noms_codecs();
    if accels.len() > 0 {
        assert(encodeur("vp9"@, accels[0]) is None);
        assert forall|i: int| 0 <= i < accels.drop_first().len() implies #[trigger] accels.drop_first()[i] != "software"@ by {
            assert(accels.drop_first()[i] == accels[i + 1]);
        }
        lemma_vp9_sans_materiel(accels.drop_first(), dispo, fonctionnelles);
    }
}

/// With codec `auto`, neither a stream copy nor audio only, an output whose
/// extension is `webm` in any letter case is encoded in VP9: the encoder
/// after `-c:v` is libvpx's VP9 one, whatever acceleration is asked (VP9
/// has no hardware encoder here), never an H.264 one.
pub proof fn loi_webm_en_vp9(entree: Seq<char>, sortie: Seq<char>, speed: u32, accel: Seq<char>,
    dispo: Seq<Seq<char>>, fonctionnelles: Seq<Seq<char>>, threads: usize, e: Seq<char>)
    requires
        crate::chemin::extension_chemin(sortie) == Some(e),
        crate::texte::est_ascii(e),
        e.map_values(|c: char| crate::texte::ascii_minuscule(c)) == seq!['w', 'e', 'b', 'm'],
    ensures
        arguments_video(entree, sortie, false, false, speed, "auto"@, accel, dispo, fonctionnelles, threads)[3] == "-c:v"@,
        arguments_video(entree, sortie, false, false, speed, "auto"@, accel, dispo, fonctionnelles, threads)[4] == "libvpx-vp9"@,
{
    lemma_noms_codecs();
    assert(codec_effectif("auto"@, sortie) == "vp9"@);
    lemma_vp9_sans_materiel(accels_materielles(), dispo, fonctionnelles);
    assert(encodeur("vp9"@, "software"@) == Some("libvpx-vp9"@));
    assert(!accel_utilisable("vp9"@, accel, dispo, fonctionnelles) || accel == "software"@);
    assert(encodeur_resolu("vp9"@, accel, dispo, fonctionnelles).0 == "libvpx-vp9"@);
}

/// With codec `auto`, neither a stream copy nor audio only, an output whose
/// extension is not `webm` in any letter case is encoded in H.264: the
/// encoder after `-c:v` is libx264 or a hardware H.264 one (`h264_<accel>`).
pub proof fn loi_auto_en_h264(entree: Seq<char>, sortie: Seq<char>, speed: u32, accel: Seq<char>,
    dispo: Seq<Seq<char>>, fonctionnelles: Seq<Seq<char>>, threads: usize)
    requires
        forall|e: Seq<char>| crate::chemin::extension_chemin(sortie) == Some(e) ==> crate::texte::est_ascii(e)
            && e.map_values(|c: char| crate::texte::ascii_minuscule(c)) != seq!['w', 'e', 'b', 'm'],
    ensures
        arguments_video(entree, sortie, false, false, speed, "auto"@, accel, dispo, fonctionnelles, threads)[3] == "-c:v"@,
        ({
            let enc = arguments_video(entree, sortie, false, false, speed, "auto"@, accel, dispo, fonctionnelles, threads)[4];
            enc == "libx264"@ || (enc.len() >= 5 && enc.take(5) == "h264_"@)
        }),
{
    lemma_noms_codecs();
    reveal_strlit("h264");
    reveal_strlit("h264_");
    reveal_strlit("software");
    reveal_strlit("auto");
    reveal_strlit("webm");
    match crate::chemin::extension_chemin(sortie) {
        Some(e) => {
            assert(crate::texte::est_ascii(e) && e.map_values(|c: char| crate::texte::ascii_minuscule(c)) != seq!['w', 'e', 'b', 'm']);
        },
        None => {
            assert(Seq::<char>::empty().len() != "webm"@.len());
        },
    }
    assert(codec_effectif("auto"@, sortie) == "h264"@);
    assert(encodeur("h264"@, "software"@) == Some("libx264"@));
    let r = encodeur_resolu("h264"@, accel, dispo, fonctionnelles);
    if r.0 != "libx264"@ {
        let a = if accel != "auto"@ && accel != "software"@ {
            accel
        } else {
            premiere_utilisable("h264"@, accels_materielles(), dispo, fonctionnelles)->0
        };
        assert(a != "software"@);
        assert(r.0 == "h264_"@ + a);
        assert(("h264_"@ + a).take(5) =~= "h264_"@);
    }
}

// ───────────────────────── what this ffmpeg can do ─────────────────────────

/// The video encoder that a line of `ffmpeg -encoders` names: on a line
/// that starts with `V` once its leading spaces are left out, the second
/// word.
pub open spec fn encodeur_de_ligne(l: Seq<char>) -> Option<Seq<char>> {
    let t = crate::texte::sans_espaces_debut(l);
    if t.len() > 0 && t[0] == 'V' && crate::texte::mots(t).len() >= 2 {
        Some(crate::texte::mots(t)[1])
    } else {
        None
    }
}

/// The encoders named by the lines, in order.
pub open spec fn encodeurs_listes(ls: Seq<Seq<char>>) -> Seq<Seq<char>>
    decreases ls.len(),
{
    if ls.len() == 0 {
        Seq::empty()
    } else {
        let r = encodeurs_listes(ls.drop_last());
        match encodeur_de_ligne(ls.last()) {
            Some(e) => r.push(e),
            None => r,
        }
    }
}

/// The video encoders compiled into this ffmpeg (`encodeurs_disponibles`),
/// read from what `ffmpeg -hide_banner -encoders` printed, in the order of
/// its lines.
pub fn encodeurs_disponibles(sortie: &str) -> (r: Vec<String>)
    ensures
        vues_chaines(r@) == encodeurs_listes(crate::mise_en_page::lignes_texte(sortie@)),
{
    let ls = crate::mise_en_page::lignes(sortie);
    let ghost vl = vues_chaines(ls@);
    let mut r: Vec<String> = Vec::new();
    let mut i: usize = 0;
    assert(vl.take(0) =~= Seq::<Seq<char>>::empty());
    while i < ls.len()
        invariant
            i <= ls.len(),
            vl == vues_chaines(ls@),
            vues_chaines(r@) == encodeurs_listes(vl.take(i as int)),
        decreases ls.len() - i,
    {
        assert(vl.take(i + 1).drop_last() =~= vl.take(i as int));
        assert(vl.take(i + 1).last() == ls@[i as int]@);
        let t = crate::texte::rogner_debut(&caracteres(ls[i].as_str()));
        if t.len() > 0 && t[0] == 'V' {
            let m = crate::texte::mots_de(&t);
            assert(crate::texte::vues(m@) == crate::texte::mots(t@));
            if m.len() >= 2 {
                assert(m@[1]@ == crate::texte::mots(t@)[1]);
                ajouter_chaine(&mut r, crate::texte::chaine(&m[1]));
            }
        }
        i += 1;
    }
    assert(vl.take(ls.len() as int) =~= vl);
    r
}

/// The encoder whose one-frame run tells whether a hardware acceleration
/// really works (`tester_encodeur_reel`): its H.264 encoder, when this
/// ffmpeg has it. Without one, the acceleration does not work.
pub fn encodeur_a_tester(accel: &str, dispo: &Vec<String>) -> (r: Option<String>)
    ensures
        match r {
            Some(e) => encodeur("h264"@, accel@) == Some(e@) && vues_chaines(dispo@).contains(e@),
            None => !(encodeur("h264"@, accel@) is Some && vues_chaines(dispo@).contains(encodeur("h264"@, accel@)->0)),
        },
{
    match nom_encodeur("h264", accel) {
        Some(e) => {
            let c = caracteres(e.as_str());
            if contient_chaine(dispo, &c) { Some(e) } else { None }
        },
        None => None,
    }
}

/// The arguments of that run: one black 64x64 frame encoded to nowhere.
pub fn arguments_test_encodeur(encodeur: &str) -> (r: Vec<String>)
    ensures
        vues_chaines(r@) == seq!["-hide_banner"@, "-loglevel"@, "error"@, "-f"@, "lavfi"@, "-i"@,
            "color=black:size=64x64"@, "-frames:v"@, "1"@, "-c:v"@, encodeur@, "-f"@, "null"@, "-"@],
{
    let mut r: Vec<String> = Vec::new();
    ajouter(&mut r, "-hide_banner");
    ajouter(&mut r, "-loglevel");
    ajouter(&mut r, "error");
    ajouter(&mut r, "-f");
    ajouter(&mut r, "lavfi");
    ajouter(&mut r, "-i");
    ajouter(&mut r, "color=black:size=64x64");
    ajouter(&mut r, "-frames:v");
    ajouter(&mut r, "1");
    ajouter(&mut r, "-c:v");
    ajouter(&mut r, encodeur);
    ajouter(&mut r, "-f");
    ajouter(&mut r, "null");
    ajouter(&mut r, "-");
    assert(vues_chaines(r@) =~= seq!["-hide_banner"@, "-loglevel"@, "error"@, "-f"@, "lavfi"@, "-i"@,
        "color=black:size=64x64"@, "-frames:v"@, "1"@, "-c:v"@, encodeur@, "-f"@, "null"@, "-"@]);
    r
}

/// The accelerations of `accels` whose test run succeeded, in order.
pub open spec fn reussies(accels: Seq<Seq<char>>, reussi: Seq<bool>) -> Seq<Seq<char>>
    decreases accels.len(),
{
    if accels.len() == 0 || reussi.len() == 0 {
        Seq::empty()
    } else {
        let r = reussies(accels.drop_last(), reussi.take(accels.len() - 1));
        if reussi.len() >= accels.len() && reussi[accels.len() - 1] { r.push(accels.last()) } else { r }
    }
}

/// The hardware accelerations that really work here
/// (`accels_fonctionnelles`): each of nvenc, qsv, amf, videotoolbox whose
/// test run succeeded (`reussi`, in that order).
pub fn accels_fonctionnelles(reussi: [bool; 4]) -> (r: Vec<String>)
    ensures
        vues_chaines(r@) == reussies(accels_materielles(), reussi@),
{
    let a = accel_materielles();
    let mut r: Vec<String> = Vec::new();
    let mut i: usize = 0;
    assert(accels_materielles().take(0) =~= Seq::<Seq<char>>::empty());
    while i < 4
        invariant
            i <= 4,
            a@.map_values(|s: &str| s@) == accels_materielles(),
            reussi@.len() == 4,
            vues_chaines(r@) == reussies(accels_materielles().take(i as int), reussi@.take(i as int)),
        decreases 4 - i,
    {
        let ghost acc = accels_materielles().take(i + 1);
        assert(acc.drop_last() =~= accels_materielles().take(i as int));
        assert(reussi@.take(i + 1).take(i as int) =~= reussi@.take(i as int));
        assert(accels_materielles().len() == 4);
        assert(a@.map_values(|s: &str| s@)[i as int] == a@[i as int]@);
        assert(acc.last() == a@[i as int]@);
        if reussi[i] {
            ajouter(&mut r, a[i]);
        }
        i += 1;
    }
    assert(accels_materielles().take(4) =~= accels_materielles());
    assert(reussi@.take(4) =~= reussi@);
    r
}

/// The audio codec of a file (`extraire_nom_codec`): what ffprobe printed,
/// trimmed.
pub fn extraire_nom_codec(sortie: &str) -> (r: String)
    ensures
        r@ == crate::texte::rogne(sortie@),
{
    crate::texte::chaine(&crate::texte::rogner(&caracteres(sortie)))
}

/// The ffprobe arguments that print the codec of the first audio stream.
pub fn arguments_nom_codec(input: &str) -> (r: Vec<String>)
    ensures
        vues_chaines(r@) == seq!["-v"@, "error"@, "-select_streams"@, "a:0"@, "-show_entries"@,
            "stream=codec_name"@, "-of"@, "default=noprint_wrappers=1:nokey=1"@, input@],
{
    let mut r: Vec<String> = Vec::new();
    ajouter(&mut r, "-v");
    ajouter(&mut r, "error");
    ajouter(&mut r, "-select_streams");
    ajouter(&mut r, "a:0");
    ajouter(&mut r, "-show_entries");
    ajouter(&mut r, "stream=codec_name");
    ajouter(&mut r, "-of");
    ajouter(&mut r, "default=noprint_wrappers=1:nokey=1");
    ajouter(&mut r, input);
    assert(vues_chaines(r@) =~= seq!["-v"@, "error"@, "-select_streams"@, "a:0"@, "-show_entries"@,
        "stream=codec_name"@, "-of"@, "default=noprint_wrappers=1:nokey=1"@, input@]);
    r
}

} // verus!
