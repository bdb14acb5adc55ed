use olympus_raw::raw_processing::{
    develop_plan, linear_mode_options, resolve_olympus_profile, DevelopStep, OlympusProfile,
};

const MAKE: &str = "OLYMPUS IMAGING CORP.";
const MODEL: &str = "E-M5MarkII";

const ALL_STEPS: [DevelopStep; 8] = [
    DevelopStep::Rescale,
    DevelopStep::Demosaic,
    DevelopStep::FujiRotate,
    DevelopStep::CropActiveArea,
    DevelopStep::WhiteBalance,
    DevelopStep::Calibrate,
    DevelopStep::CropDefault,
    DevelopStep::SRgb,
];

#[test]
fn neutral_profile_is_always_neutral() {
    assert_eq!(resolve_olympus_profile("neutral", MAKE, MODEL, Some(1)), OlympusProfile::Neutral);
    assert_eq!(resolve_olympus_profile("neutral", "Canon", "EOS R5", None), OlympusProfile::Neutral);
}

#[test]
fn other_cameras_get_no_profile() {
    assert_eq!(resolve_olympus_profile("auto", "Canon", "EOS R5", Some(1)), OlympusProfile::Neutral);
    assert_eq!(resolve_olympus_profile("olympus_vivid", MAKE, "E-M1MarkII", None), OlympusProfile::Neutral);
    assert_eq!(resolve_olympus_profile("olympus_vivid", "OM Digital", MODEL, None), OlympusProfile::Neutral);
}

#[test]
fn camera_names_are_normalized() {
    let models = ["E-M5MarkII", "E-M5 Mark II", "e-m5 mark ii", "E-M5MkII", "OM-D E-M5 Mk II", "E\u{e9}M5MARKII"];
    for model in models {
        assert_eq!(resolve_olympus_profile("olympus_sepia", "olympus", model, None), OlympusProfile::Sepia);
    }
    assert_eq!(resolve_olympus_profile("olympus_sepia", "Olympus Corporation", "E-M5", None), OlympusProfile::Neutral);
    assert_eq!(resolve_olympus_profile("olympus_sepia", "OLYMPUS", "E-M5 Mark III", None), OlympusProfile::Sepia);
}

#[test]
fn auto_profile_follows_picture_mode() {
    let cases = [
        (Some(1), OlympusProfile::Vivid),
        (Some(2), OlympusProfile::Natural),
        (Some(3), OlympusProfile::Muted),
        (Some(4), OlympusProfile::Portrait),
        (Some(5), OlympusProfile::IEnhance),
        (Some(6), OlympusProfile::Portrait),
        (Some(7), OlympusProfile::Natural),
        (Some(11), OlympusProfile::Natural),
        (Some(12), OlympusProfile::Monochrome),
        (Some(13), OlympusProfile::Monochrome),
        (Some(14), OlympusProfile::Monochrome),
        (Some(15), OlympusProfile::Natural),
        (Some(17), OlympusProfile::Natural),
        (Some(18), OlympusProfile::Monochrome),
        (Some(256), OlympusProfile::Monochrome),
        (Some(512), OlympusProfile::Sepia),
        (Some(0), OlympusProfile::Natural),
        (None, OlympusProfile::Natural),
    ];
    for (mode, expected) in cases {
        assert_eq!(resolve_olympus_profile("auto", MAKE, MODEL, mode), expected);
    }
}

#[test]
fn explicit_profiles() {
    let cases = [
        ("olympus_natural", OlympusProfile::Natural),
        ("olympus_vivid", OlympusProfile::Vivid),
        ("olympus_muted", OlympusProfile::Muted),
        ("olympus_portrait", OlympusProfile::Portrait),
        ("olympus_i_enhance", OlympusProfile::IEnhance),
        ("olympus_monochrome", OlympusProfile::Monochrome),
        ("olympus_sepia", OlympusProfile::Sepia),
        ("Olympus_Vivid", OlympusProfile::Neutral),
        ("", OlympusProfile::Neutral),
        ("vivid", OlympusProfile::Neutral),
    ];
    for (profile, expected) in cases {
        assert_eq!(resolve_olympus_profile(profile, MAKE, MODEL, Some(1)), expected);
    }
}

#[test]
fn linear_modes() {
    assert_eq!(linear_mode_options("gamma"), (true, true));
    assert_eq!(linear_mode_options("skip_calib"), (false, false));
    assert_eq!(linear_mode_options("gamma_skip_calib"), (true, false));
    assert_eq!(linear_mode_options("linear"), (false, true));
    assert_eq!(linear_mode_options(""), (false, true));
}

#[test]
fn mosaic_files_drop_only_srgb() {
    for fast in [false, true] {
        let plan = develop_plan("gamma_skip_calib", false, fast);
        assert!(!plan.is_linear_format);
        assert_eq!(plan.speed_demosaic, fast);
        assert!(!plan.ungamma_applies());
        for step in ALL_STEPS {
            assert_eq!(plan.keeps_step(step), step != DevelopStep::SRgb);
        }
    }
}

#[test]
fn linear_files_skip_demosaic_and_maybe_calibration() {
    let plan = develop_plan("skip_calib", true, true);
    assert!(!plan.speed_demosaic);
    assert!(!plan.ungamma_applies());
    let kept: Vec<DevelopStep> = ALL_STEPS.iter().copied().filter(|s| plan.keeps_step(*s)).collect();
    assert_eq!(
        kept,
        vec![
            DevelopStep::Rescale,
            DevelopStep::FujiRotate,
            DevelopStep::CropActiveArea,
            DevelopStep::WhiteBalance,
            DevelopStep::CropDefault,
        ]
    );

    let plan = develop_plan("gamma", true, false);
    assert!(plan.ungamma_applies());
    assert!(plan.apply_calibration);
    assert!(plan.keeps_step(DevelopStep::Calibrate));
    assert!(!plan.keeps_step(DevelopStep::Demosaic));
    assert!(!plan.keeps_step(DevelopStep::SRgb));
}
