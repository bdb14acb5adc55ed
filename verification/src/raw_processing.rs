//! Decisions taken while developing a RAW file: which Olympus look to apply,
//! how the linear-mode option is read, and which development steps run.
//! The pixel arithmetic itself works on floating-point values and is not
//! part of this module.

use vstd::prelude::*;
use crate::olympus_metadata::picture_mode_label;
use crate::text::{
    ascii_upper, chars_of, contains_chars, contains_run, is_ascii_alnum, keep_ascii_alnum,
    same_chars, to_ascii_upper,
};

verus! {

/// The camera-specific starting rendering applied before user edits.
#[derive(Clone, Copy, Debug, PartialEq, Eq, Structural)]
pub enum OlympusProfile {
    /// No camera-specific look.
    Neutral,
    Vivid,
    Natural,
    Muted,
    Portrait,
    IEnhance,
    Monochrome,
    Sepia,
}

/// The profile that the "auto" setting picks for a recorded Picture Mode.
pub open spec fn auto_profile(picture_mode: Option<u16>) -> OlympusProfile {
    match picture_mode {
        Some(mode) => if mode == 1 {
            OlympusProfile::Vivid
        } else if mode == 2 {
            OlympusProfile::Natural
        } else if mode == 3 {
            OlympusProfile::Muted
        } else if mode == 4 || mode == 6 {
            OlympusProfile::Portrait
        } else if mode == 5 {
            OlympusProfile::IEnhance
        } else if (12 <= mode && mode <= 14) || mode == 18 || mode == 256 {
            OlympusProfile::Monochrome
        } else if mode == 512 {
            OlympusProfile::Sepia
        } else {
            OlympusProfile::Natural
        },
        None => OlympusProfile::Natural,
    }
}

/// The "auto" setting reacts only to Picture Modes that have a name: a mode
/// without one falls back to Natural, as does a file without a Picture Mode.
pub proof fn lemma_auto_profile_needs_named_mode(picture_mode: Option<u16>)
    ensures
        auto_profile(picture_mode) != OlympusProfile::Natural ==> (picture_mode matches Some(
            mode,
        ) && picture_mode_label(mode) is Some),
{
}

/// The camera make in ASCII upper case.
pub open spec fn normalized_make(make: Seq<char>) -> Seq<char> {
    make.map_values(|c: char| ascii_upper(c))
}

/// The camera model in ASCII upper case, keeping only ASCII letters and digits.
pub open spec fn normalized_model(model: Seq<char>) -> Seq<char> {
    model.map_values(|c: char| ascii_upper(c)).filter(|c: char| is_ascii_alnum(c))
}

/// The camera is an Olympus OM-D E-M5 Mark II.
pub open spec fn is_em5_mark_ii(make: Seq<char>, model: Seq<char>) -> bool {
    &&& contains_run(normalized_make(make), "OLYMPUS"@)
    &&& (contains_run(normalized_model(model), "EM5MARKII"@) || contains_run(
        normalized_model(model),
        "EM5MKII"@,
    ))
}

/// The profile chosen for a profile setting, a camera and its recorded Picture Mode.
pub open spec fn profile_choice(
    profile: Seq<char>,
    make: Seq<char>,
    model: Seq<char>,
    picture_mode: Option<u16>,
) -> OlympusProfile {
    if profile == "neutral"@ {
        OlympusProfile::Neutral
    } else if !is_em5_mark_ii(make, model) {
        OlympusProfile::Neutral
    } else if profile == "auto"@ {
        auto_profile(picture_mode)
    } else if profile == "olympus_natural"@ {
        OlympusProfile::Natural
    } else if profile == "olympus_vivid"@ {
        OlympusProfile::Vivid
    } else if profile == "olympus_muted"@ {
        OlympusProfile::Muted
    } else if profile == "olympus_portrait"@ {
        OlympusProfile::Portrait
    } else if profile == "olympus_i_enhance"@ {
        OlympusProfile::IEnhance
    } else if profile == "olympus_monochrome"@ {
        OlympusProfile::Monochrome
    } else if profile == "olympus_sepia"@ {
        OlympusProfile::Sepia
    } else {
        OlympusProfile::Neutral
    }
}

/// Whether the characters of `text` are exactly those of `literal`.
fn is_text(text: &Vec<char>, literal: &str) -> (eq: bool)
    ensures
        eq == (text@ == literal@),
{
    same_chars(text, &chars_of(literal))
}

/// Chooses the Olympus look for a RAW file. Only the OM-D E-M5 Mark II gets
/// one; "neutral" always disables it, and "auto" follows the Picture Mode
/// recorded in the file, falling back to Natural.
pub fn resolve_olympus_profile(
    profile: &str,
    make: &str,
    model: &str,
    picture_mode: Option<u16>,
) -> (chosen: OlympusProfile)
    ensures
        chosen == profile_choice(profile@, make@, model@, picture_mode),
        profile@ == "neutral"@ ==> chosen == OlympusProfile::Neutral,
        !is_em5_mark_ii(make@, model@) ==> chosen == OlympusProfile::Neutral,
{
    let profile = chars_of(profile);
    if is_text(&profile, "neutral") {
        return OlympusProfile::Neutral;
    }
    let normalized_make = to_ascii_upper(&chars_of(make));
    let normalized_model = keep_ascii_alnum(&to_ascii_upper(&chars_of(model)));
    let is_em5_mark_ii = contains_chars(&normalized_make, &chars_of("OLYMPUS")) && (
    contains_chars(&normalized_model, &chars_of("EM5MARKII")) || contains_chars(
        &normalized_model,
        &chars_of("EM5MKII"),
    ));

    if !is_em5_mark_ii {
        return OlympusProfile::Neutral;
    }
    if is_text(&profile, "auto") {
        match picture_mode {
            Some(1) => OlympusProfile::Vivid,
            Some(2) => OlympusProfile::Natural,
            Some(3) => OlympusProfile::Muted,
            Some(4) | Some(6) => OlympusProfile::Portrait,
            Some(5) => OlympusProfile::IEnhance,
            Some(12..=14) | Some(18) | Some(256) => OlympusProfile::Monochrome,
            Some(512) => OlympusProfile::Sepia,
            _ => OlympusProfile::Natural,
        }
    } else if is_text(&profile, "olympus_natural") {
        OlympusProfile::Natural
    } else if is_text(&profile, "olympus_vivid") {
        OlympusProfile::Vivid
    } else if is_text(&profile, "olympus_muted") {
        OlympusProfile::Muted
    } else if is_text(&profile, "olympus_portrait") {
        OlympusProfile::Portrait
    } else if is_text(&profile, "olympus_i_enhance") {
        OlympusProfile::IEnhance
    } else if is_text(&profile, "olympus_monochrome") {
        OlympusProfile::Monochrome
    } else if is_text(&profile, "olympus_sepia") {
        OlympusProfile::Sepia
    } else {
        OlympusProfile::Neutral
    }
}


/// A step of the RAW development pipeline, in the order the developer runs them.
#[derive(Clone, Copy, Debug, PartialEq, Eq, Structural)]
pub enum DevelopStep {
    Rescale,
    Demosaic,
    FujiRotate,
    CropActiveArea,
    WhiteBalance,
    Calibrate,
    CropDefault,
    SRgb,
}

/// What the linear-mode setting asks for: `(apply_ungamma, apply_calibration)`.
pub open spec fn linear_mode_flags(linear_mode: Seq<char>) -> (bool, bool) {
    if linear_mode == "gamma"@ {
        (true, true)
    } else if linear_mode == "skip_calib"@ {
        (false, false)
    } else if linear_mode == "gamma_skip_calib"@ {
        (true, false)
    } else {
        (false, true)
    }
}

/// Reads the linear-mode setting as `(apply_ungamma, apply_calibration)`;
/// any unknown setting keeps calibration and applies no ungamma.
pub fn linear_mode_options(linear_mode: &str) -> (flags: (bool, bool))
    ensures
        flags == linear_mode_flags(linear_mode@),
{
    let mode = chars_of(linear_mode);
    if is_text(&mode, "gamma") {
        (true, true)
    } else if is_text(&mode, "skip_calib") {
        (false, false)
    } else if is_text(&mode, "gamma_skip_calib") {
        (true, false)
    } else {
        (false, true)
    }
}

/// How a RAW file is developed.
pub struct DevelopPlan {
    /// The file already holds linear RGB data, so there is no mosaic to undo.
    pub is_linear_format: bool,
    /// Linear data is taken to be sRGB-encoded and is converted to linear light.
    pub apply_ungamma: bool,
    /// Colour calibration stays in the pipeline for linear data.
    pub apply_calibration: bool,
    /// The fast (lower quality) demosaic algorithm is used.
    pub speed_demosaic: bool,
}

impl DevelopPlan {
    /// Whether the pipeline keeps `step`: the sRGB conversion never runs; for
    /// linear data demosaicing never runs and calibration runs only when asked.
    pub open spec fn keeps(self, step: DevelopStep) -> bool {
        match step {
            DevelopStep::SRgb => false,
            DevelopStep::Demosaic => !self.is_linear_format,
            DevelopStep::Calibrate => !self.is_linear_format || self.apply_calibration,
            _ => true,
        }
    }

    /// Whether the pipeline keeps `step`.
    pub fn keeps_step(&self, step: DevelopStep) -> (kept: bool)
        ensures
            kept == self.keeps(step),
    {
        match step {
            DevelopStep::SRgb => false,
            DevelopStep::Demosaic => !self.is_linear_format,
            DevelopStep::Calibrate => !self.is_linear_format || self.apply_calibration,
            _ => true,
        }
    }

    /// Whether developed values are converted from sRGB to linear light.
    pub fn ungamma_applies(&self) -> (ungamma: bool)
        ensures
            ungamma == (self.is_linear_format && self.apply_ungamma),
    {
        self.is_linear_format && self.apply_ungamma
    }
}

/// Plans the development of a RAW file from the linear-mode setting, whether
/// the file holds linear data, and whether a fast preview is wanted.
pub fn develop_plan(linear_mode: &str, is_linear_format: bool, fast_demosaic: bool) -> (plan:
    DevelopPlan)
    ensures
        plan.is_linear_format == is_linear_format,
        (plan.apply_ungamma, plan.apply_calibration) == linear_mode_flags(linear_mode@),
        plan.speed_demosaic == (!is_linear_format && fast_demosaic),
{
    let (apply_ungamma, apply_calibration) = linear_mode_options(linear_mode);
    DevelopPlan {
        is_linear_format,
        apply_ungamma,
        apply_calibration,
        speed_demosaic: !is_linear_format && fast_demosaic,
    }
}


// ---------------------------------------------------------------------------
// Laws
// ---------------------------------------------------------------------------

/// Only an Olympus OM-D E-M5 Mark II gets a look: whenever the chosen look is
/// not Neutral, the upper-cased make contains `OLYMPUS` and the upper-cased
/// model, stripped to ASCII letters and digits, contains `EM5MARKII` or
/// `EM5MKII`. Any other camera (an E-M10 Mark II, say) gets Neutral for every
/// setting and Picture Mode.
pub proof fn lemma_only_em5_mark_ii_gets_a_look(
    profile: Seq<char>,
    make: Seq<char>,
    model: Seq<char>,
    picture_mode: Option<u16>,
)
    ensures
        profile_choice(profile, make, model, picture_mode) != OlympusProfile::Neutral ==> {
            let upper_make = make.map_values(|c: char| ascii_upper(c));
            let model_key = model.map_values(|c: char| ascii_upper(c)).filter(
                |c: char| is_ascii_alnum(c),
            );
            &&& contains_run(upper_make, "OLYMPUS"@)
            &&& contains_run(model_key, "EM5MARKII"@) || contains_run(model_key, "EM5MKII"@)
        },
{
}

/// On an E-M5 Mark II the "auto" setting maps the recorded Picture Mode as
/// follows: Vivid exactly for 1, Muted exactly for 3, Portrait exactly for 4
/// and 6, i-Enhance exactly for 5, Monochrome exactly for 12 to 14, 18 and
/// 256, Sepia exactly for 512; every other mode, and a missing one, gives
/// Natural.
pub proof fn lemma_auto_setting_follows_picture_mode(
    make: Seq<char>,
    model: Seq<char>,
    picture_mode: Option<u16>,
)
    requires
        contains_run(make.map_values(|c: char| ascii_upper(c)), "OLYMPUS"@),
        contains_run(
            model.map_values(|c: char| ascii_upper(c)).filter(|c: char| is_ascii_alnum(c)),
            "EM5MARKII"@,
        ) || contains_run(
            model.map_values(|c: char| ascii_upper(c)).filter(|c: char| is_ascii_alnum(c)),
            "EM5MKII"@,
        ),
    ensures
        ({
            let look = profile_choice("auto"@, make, model, picture_mode);
            &&& (look == OlympusProfile::Vivid <==> picture_mode == Some(1u16))
            &&& (look == OlympusProfile::Muted <==> picture_mode == Some(3u16))
            &&& (look == OlympusProfile::Portrait <==> (picture_mode == Some(4u16)
                || picture_mode == Some(6u16)))
            &&& (look == OlympusProfile::IEnhance <==> picture_mode == Some(5u16))
            &&& (look == OlympusProfile::Monochrome <==> (picture_mode matches Some(mode) && (
            (12 <= mode && mode <= 14) || mode == 18 || mode == 256)))
            &&& (look == OlympusProfile::Sepia <==> picture_mode == Some(512u16))
            &&& (look == OlympusProfile::Natural || look == OlympusProfile::Vivid || look
                == OlympusProfile::Muted || look == OlympusProfile::Portrait || look
                == OlympusProfile::IEnhance || look == OlympusProfile::Monochrome || look
                == OlympusProfile::Sepia)
        }),
{
    reveal_strlit("auto");
    reveal_strlit("neutral");
    assert("auto"@.len() != "neutral"@.len());
    assert(is_em5_mark_ii(make, model));
}

/// On an E-M5 Mark II every setting other than "auto" ignores the recorded
/// Picture Mode: two files that differ only in their Picture Mode get the
/// same look.
pub proof fn lemma_explicit_setting_ignores_picture_mode(
    profile: Seq<char>,
    make: Seq<char>,
    model: Seq<char>,
    mode_a: Option<u16>,
    mode_b: Option<u16>,
)
    requires
        profile != "auto"@,
    ensures
        profile_choice(profile, make, model, mode_a) == profile_choice(profile, make, model, mode_b),
{
}

/// On an E-M5 Mark II each explicit setting picks its own look, whatever the
/// recorded Picture Mode: `olympus_natural` gives Natural, `olympus_vivid`
/// Vivid, `olympus_muted` Muted, `olympus_portrait` Portrait,
/// `olympus_i_enhance` i-Enhance, `olympus_monochrome` Monochrome and
/// `olympus_sepia` Sepia; "neutral" and any unknown setting give Neutral.
pub proof fn lemma_explicit_settings_pick_their_look(
    make: Seq<char>,
    model: Seq<char>,
    picture_mode: Option<u16>,
)
    requires
        contains_run(make.map_values(|c: char| ascii_upper(c)), "OLYMPUS"@),
        contains_run(
            model.map_values(|c: char| ascii_upper(c)).filter(|c: char| is_ascii_alnum(c)),
            "EM5MARKII"@,
        ) || contains_run(
            model.map_values(|c: char| ascii_upper(c)).filter(|c: char| is_ascii_alnum(c)),
            "EM5MKII"@,
        ),
    ensures
        profile_choice("olympus_natural"@, make, model, picture_mode) == OlympusProfile::Natural,
        profile_choice("olympus_vivid"@, make, model, picture_mode) == OlympusProfile::Vivid,
        profile_choice("olympus_muted"@, make, model, picture_mode) == OlympusProfile::Muted,
        profile_choice("olympus_portrait"@, make, model, picture_mode)
            == OlympusProfile::Portrait,
        profile_choice("olympus_i_enhance"@, make, model, picture_mode)
            == OlympusProfile::IEnhance,
        profile_choice("olympus_monochrome"@, make, model, picture_mode)
            == OlympusProfile::Monochrome,
        profile_choice("olympus_sepia"@, make, model, picture_mode) == OlympusProfile::Sepia,
        profile_choice("neutral"@, make, model, picture_mode) == OlympusProfile::Neutral,
{
    reveal_strlit("neutral");
    reveal_strlit("auto");
    reveal_strlit("olympus_natural");
    reveal_strlit("olympus_vivid");
    reveal_strlit("olympus_muted");
    reveal_strlit("olympus_portrait");
    reveal_strlit("olympus_i_enhance");
    reveal_strlit("olympus_monochrome");
    reveal_strlit("olympus_sepia");
    assert(is_em5_mark_ii(make, model));
    assert("neutral"@.len() == 7 && "auto"@.len() == 4 && "olympus_natural"@.len() == 15);
    assert("olympus_vivid"@.len() == 13 && "olympus_muted"@.len() == 13);
    assert("olympus_sepia"@.len() == 13 && "olympus_portrait"@.len() == 16);
    assert("olympus_i_enhance"@.len() == 17 && "olympus_monochrome"@.len() == 18);
    assert("olympus_vivid"@[8] != "olympus_muted"@[8]);
    assert("olympus_vivid"@[8] != "olympus_sepia"@[8]);
    assert("olympus_muted"@[8] != "olympus_sepia"@[8]);
}

/// For a file that is not linear-format every development step runs except
/// the sRGB conversion, whatever the linear-mode flags say.
pub proof fn lemma_mosaic_files_drop_only_srgb(plan: DevelopPlan, step: DevelopStep)
    requires
        !plan.is_linear_format,
    ensures
        plan.keeps(step) <==> step != DevelopStep::SRgb,
{
}

/// Rescale, FujiRotate, CropActiveArea, WhiteBalance and CropDefault run under
/// every plan; the sRGB conversion never runs; demosaicing runs exactly for
/// files that are not linear-format; calibration is dropped exactly for
/// linear-format files whose setting skips it.
pub proof fn lemma_steps_kept_by_plan(plan: DevelopPlan)
    ensures
        plan.keeps(DevelopStep::Rescale),
        plan.keeps(DevelopStep::FujiRotate),
        plan.keeps(DevelopStep::CropActiveArea),
        plan.keeps(DevelopStep::WhiteBalance),
        plan.keeps(DevelopStep::CropDefault),
        !plan.keeps(DevelopStep::SRgb),
        plan.keeps(DevelopStep::Demosaic) <==> !plan.is_linear_format,
        !plan.keeps(DevelopStep::Calibrate) <==> (plan.is_linear_format
            && !plan.apply_calibration),
{
}

/// The linear-mode setting applies ungamma exactly for "gamma" and
/// "gamma_skip_calib", and skips calibration exactly for "skip_calib" and
/// "gamma_skip_calib"; every other setting keeps calibration without ungamma.
pub proof fn lemma_linear_mode_settings(linear_mode: Seq<char>)
    ensures
        linear_mode_flags(linear_mode).0 <==> (linear_mode == "gamma"@ || linear_mode
            == "gamma_skip_calib"@),
        !linear_mode_flags(linear_mode).1 <==> (linear_mode == "skip_calib"@ || linear_mode
            == "gamma_skip_calib"@),
{
    reveal_strlit("gamma");
    reveal_strlit("skip_calib");
    reveal_strlit("gamma_skip_calib");
    assert("gamma"@.len() == 5 && "skip_calib"@.len() == 10 && "gamma_skip_calib"@.len() == 16);
}

/// The "auto" look agrees with the camera's name for the recorded Picture
/// Mode: Vivid exactly for the mode named "Vivid", Muted for "Muted",
/// Portrait for "Portrait" and "e-Portrait", i-Enhance for "i-Enhance",
/// Monochrome for "Monotone" and the "Monochrome Profile" modes, Sepia for
/// "Sepia", and Natural for every other mode.
pub proof fn lemma_auto_look_matches_mode_name(mode: u16)
    ensures
        ({
            let look = auto_profile(Some(mode));
            let name = picture_mode_label(mode);
            &&& (look == OlympusProfile::Vivid <==> name == Some("Vivid"@))
            &&& (look == OlympusProfile::Muted <==> name == Some("Muted"@))
            &&& (look == OlympusProfile::Portrait <==> (name == Some("Portrait"@) || name == Some(
                "e-Portrait"@,
            )))
            &&& (look == OlympusProfile::IEnhance <==> name == Some("i-Enhance"@))
            &&& (look == OlympusProfile::Sepia <==> name == Some("Sepia"@))
            &&& (look == OlympusProfile::Monochrome <==> (name == Some("Monotone"@) || (
            name matches Some(text) && "Monochrome Profile "@.is_prefix_of(text))))
            &&& (look == OlympusProfile::Natural || look == OlympusProfile::Vivid || look
                == OlympusProfile::Muted || look == OlympusProfile::Portrait || look
                == OlympusProfile::IEnhance || look == OlympusProfile::Monochrome || look
                == OlympusProfile::Sepia)
        }),
{
    crate::olympus_metadata::lemma_mode_names_distinct();
    reveal_strlit("Vivid");
    reveal_strlit("Muted");
    reveal_strlit("Portrait");
    reveal_strlit("e-Portrait");
    reveal_strlit("i-Enhance");
    reveal_strlit("Sepia");
    reveal_strlit("Monotone");
    reveal_strlit("Monochrome Profile ");
    reveal_strlit("Monochrome Profile 1");
    reveal_strlit("Monochrome Profile 2");
    reveal_strlit("Monochrome Profile 3");
    reveal_strlit("Monochrome Profile 4");
    reveal_strlit("Natural");
    reveal_strlit("Color Creator");
    reveal_strlit("Underwater");
    reveal_strlit("Color Profile 1");
    reveal_strlit("Color Profile 2");
    reveal_strlit("Color Profile 3");
    reveal_strlit("Art Mode");
    let name = picture_mode_label(mode);
    assert(picture_mode_label(1u16) == Some("Vivid"@));
    assert(picture_mode_label(3u16) == Some("Muted"@));
    assert(picture_mode_label(4u16) == Some("Portrait"@));
    assert(picture_mode_label(6u16) == Some("e-Portrait"@));
    assert(picture_mode_label(5u16) == Some("i-Enhance"@));
    assert(picture_mode_label(512u16) == Some("Sepia"@));
    assert(picture_mode_label(256u16) == Some("Monotone"@));
    let prefix = "Monochrome Profile "@;
    let monochrome_profile = name matches Some(text) && prefix.is_prefix_of(text);
    assert(monochrome_profile <==> (mode == 12 || mode == 13 || mode == 14 || mode == 18)) by {
        if mode == 12 || mode == 13 || mode == 14 || mode == 18 {
            let text = name->0;
            assert(text.subrange(0, 19) =~= prefix);
        }
        if monochrome_profile {
            let text = name->0;
            assert(text.len() >= 19);
            assert(text.subrange(0, 19) == prefix);
            assert(text.subrange(0, 19)[0] == text[0]);
            assert(text.subrange(0, 19)[1] == text[1]);
        }
    }
}

} // verus!
