//! Parsing of Quantum ESPRESSO (pw.x, ph.x) and Wannier90 output files, for a terminal
//! monitor that follows a running calculation.
//!
//! Every parser reads the whole text of an output file and reports what it has seen so
//! far. Floating-point values are reported as the text of the number, exactly as
//! `f64::from_str` accepts it; converting them is left to the caller.

pub mod app;
pub mod pattern;
pub mod ph;
pub mod plots;
pub mod pw;
pub mod text;
pub mod ui;
pub mod wannier90;

use vstd::prelude::*;

use crate::text::{chars_of, contains, contains_chars};

verus! {

/// Marker line of every Quantum ESPRESSO program.
pub const QE_MARKER: &'static str = "This program is part of the open-source Quantum ESPRESSO suite";

/// Marker of the wannier90 banner.
pub const WANN_MARKER: &'static str = "Welcome to the Maximally-Localized";

/// EPW drives wannier90 in library mode and appends to an existing `.wout`. When it does,
/// the banner can be missing entirely and the file starts straight at the resume line,
/// so this is the only marker such a file carries.
pub const WANN_RESUME_MARKER: &'static str = "Resuming Wannier90";

/// `content` looks like wannier90 output, banner or not.
pub open spec fn is_wannier90_spec(content: Seq<char>) -> bool {
    contains(content, WANN_MARKER@) || contains(content, WANN_RESUME_MARKER@)
}

/// Whether `content` looks like wannier90 output, banner or not.
pub fn is_wannier90(content: &str) -> (res: bool)
    ensures
        res == is_wannier90_spec(content@),
{
    let c = chars_of(content);
    is_wannier90_chars(c.as_slice())
}

/// Whether the characters `content` look like wannier90 output, banner or not.
pub fn is_wannier90_chars(content: &[char]) -> (res: bool)
    ensures
        res == is_wannier90_spec(content@),
{
    let welcome = chars_of(WANN_MARKER);
    let resume = chars_of(WANN_RESUME_MARKER);
    contains_chars(content, welcome.as_slice()) || contains_chars(content, resume.as_slice())
}

/// The program that produced an output file.
#[derive(Debug, Clone, Copy, PartialEq, Eq, Structural)]
pub enum CalcType {
    Pw,
    Ph,
    Wannier90,
}

/// Which program produced `content`, if it is recognised: pw.x takes precedence over
/// ph.x, and both over wannier90.
pub open spec fn detect_calc_type_spec(content: Seq<char>) -> Option<CalcType> {
    if contains(content, "Program PWSCF v."@) {
        Some(CalcType::Pw)
    } else if contains(content, "Program PHONON v."@) {
        Some(CalcType::Ph)
    } else if is_wannier90_spec(content) {
        Some(CalcType::Wannier90)
    } else {
        None
    }
}

/// Identify which program produced `content`, or `None` if it is not recognised.
pub fn detect_calc_type(content: &str) -> (res: Option<CalcType>)
    ensures
        res == detect_calc_type_spec(content@),
{
    let c = chars_of(content);
    let pwscf = chars_of("Program PWSCF v.");
    let phonon = chars_of("Program PHONON v.");
    if contains_chars(c.as_slice(), pwscf.as_slice()) {
        Some(CalcType::Pw)
    } else if contains_chars(c.as_slice(), phonon.as_slice()) {
        Some(CalcType::Ph)
    } else if is_wannier90_chars(c.as_slice()) {
        Some(CalcType::Wannier90)
    } else {
        None
    }
}

} // verus!
