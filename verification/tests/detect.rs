use qe_monitor::{detect_calc_type, is_wannier90, CalcType};

#[test]
fn detects_pw_and_ph() {
    assert_eq!(
        detect_calc_type("     Program PWSCF v.7.5 starts on 1Jan2026"),
        Some(CalcType::Pw)
    );
    assert_eq!(
        detect_calc_type("     Program PHONON v.7.5 starts on 1Jan2026"),
        Some(CalcType::Ph)
    );
}

#[test]
fn detects_wannier90_from_the_banner() {
    let banner = "             |                   WANNIER90                       |\n\
                  \x20            |        Welcome to the Maximally-Localized         |\n";
    assert_eq!(detect_calc_type(banner), Some(CalcType::Wannier90));
}

/// EPW appends to an existing `.wout` in library mode, and such a file can begin
/// straight at the resume line with no banner anywhere.
#[test]
fn detects_wannier90_without_a_banner() {
    let resumed = "\n Resuming Wannier90 at 01:11:28 \n";
    assert!(is_wannier90(resumed));
    assert_eq!(detect_calc_type(resumed), Some(CalcType::Wannier90));
}

/// EPW's own output carries neither marker, so it stays undetected rather than being
/// mistaken for a wannier90 run.
#[test]
fn unrelated_output_is_not_wannier90() {
    assert!(!is_wannier90("     Program EPW v.6.0 starts on 22May2026"));
    assert_eq!(detect_calc_type("some unrelated text"), None);
}

#[test]
fn pw_banner_wins_over_the_others() {
    let both = "     Program PHONON v.7.5 starts on 1Jan2026\n Program PWSCF v.7.5 starts\n Resuming Wannier90\n";
    assert_eq!(detect_calc_type(both), Some(CalcType::Pw));
    let ph_and_wannier = "Welcome to the Maximally-Localized\nProgram PHONON v.7.5";
    assert_eq!(detect_calc_type(ph_and_wannier), Some(CalcType::Ph));
}

#[test]
fn markers_must_be_complete() {
    assert_eq!(detect_calc_type("Program PWSCF 7.5"), None);
    assert!(!is_wannier90("Welcome to the Maximally"));
    assert!(!is_wannier90(""));
    assert_eq!(detect_calc_type(""), None);
}
