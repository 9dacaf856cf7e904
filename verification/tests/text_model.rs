use qe_monitor::pattern::Pattern;
use qe_monitor::pw::{cap_f64, cap_u32};
use qe_monitor::text::{
    chars_of, is_float_literal_chars, is_negative_number_chars, parse_u32, replace_chars,
    trim_start_str_slice,
};

fn chars(s: &str) -> Vec<char> {
    chars_of(s)
}

#[test]
fn float_literals_follow_the_standard_grammar() {
    for ok in ["1", "1.", ".5", "-1.5e3", "+2E-7", "inf", "-Infinity", "NaN", "0.000000000"] {
        assert!(is_float_literal_chars(&chars(ok)), "{ok}");
        assert!(ok.parse::<f64>().is_ok(), "{ok}");
    }
    for bad in ["", ".", "e5", "1e", "1.5.2", " 1", "1 ", "--1", "0x10", "1D-3"] {
        assert!(!is_float_literal_chars(&chars(bad)), "{bad}");
        assert!(bad.parse::<f64>().is_err(), "{bad}");
    }
}

#[test]
fn u32_parsing_follows_the_standard() {
    assert_eq!(parse_u32(&chars("4294967295")), Some(u32::MAX));
    assert_eq!(parse_u32(&chars("4294967296")), None);
    assert_eq!(parse_u32(&chars("+7")), Some(7));
    assert_eq!(parse_u32(&chars("-0")), None);
    assert_eq!(parse_u32(&chars("")), None);
    assert_eq!(parse_u32(&chars("12a")), None);
}

#[test]
fn captures_come_from_the_regex() {
    let re = Pattern::new(r"energy\s*=\s*([0-9.DdEe+-]+)");
    assert_eq!(cap_f64(&re, &chars("total energy =  1.5D-03 Ry"), 1).as_deref(), Some("1.5E-03"));
    assert_eq!(cap_f64(&re, &chars("energy = 1.5x"), 1).as_deref(), Some("1.5"));
    assert_eq!(cap_f64(&re, &chars("no match here"), 1), None);
    assert_eq!(cap_f64(&re, &chars("energy = --"), 1), None);
    let n = Pattern::new(r"in\s+(\d+)\s+iterations");
    assert_eq!(cap_u32(&n, &chars("achieved in   12 iterations"), 1), Some(12));
    assert_eq!(cap_u32(&n, &chars("achieved in 99999999999 iterations"), 1), None);
    let invalid = Pattern::new(r"(unclosed");
    assert_eq!(cap_u32(&invalid, &chars("(unclosed 5"), 1), None);
}

#[test]
fn empty_patterns_behave_as_in_the_standard_library() {
    assert_eq!("abc".replace("", "X"), "XaXbXcX");
    let r: String = replace_chars(&chars("abc"), &[], &chars("X")).into_iter().collect();
    assert_eq!(r, "XaXbXcX");
    let r: String = replace_chars(&[], &[], &chars("X")).into_iter().collect();
    assert_eq!(r, "X");
    let t: String = trim_start_str_slice(&chars("atat"), &[]).iter().collect();
    assert_eq!(t, "atat".trim_start_matches(""));
    let t: String = trim_start_str_slice(&chars("atatx"), &chars("at")).iter().collect();
    assert_eq!(t, "x");
}

#[test]
fn negative_numbers_are_those_f64_reads_below_zero() {
    let tie = format!("-0.{}e-323", "24703282292062327208828439643411068618252990130716238221279284125033775363510437593264991818081799618989828234772285886546332835517796989819938739800539093906315035659515570226392290858392449105184435931802849936536152500319370457678249219365623669863658480757001585769269903706311928279558551332927834338409351978015531246597263579574622766465272827220056374006485499977096599470454020828166226237857393450736339007967761930577506740176324673600968951340535537458516661134223766678604162159680461914467291840300530057530849048765391711386591646239524912623653881879636239373280423891018672348497668235089863388587925628302755995657524455507255189313690836254779186948667994968324049705821028513185451396213837722826145437693412532098591327667236328125");
    let above = tie.replace("e-323", "1e-323");
    for t in [
        "-1.0",
        "-0.0",
        "-0",
        "-.5",
        "-00012e-3",
        "-1e-400",
        "-1e-323",
        "-2.4703282292062327e-324",
        "-2.4703282292062328e-324",
        "-4.9e-324",
        "-1e-99999999999999999999999999999999999999999",
        "-1e+99999999999999999999999999999999999999999",
        "-inf",
        "-Infinity",
        "-NaN",
        "1.0",
        "+1e-5",
        tie.as_str(),
        above.as_str(),
    ] {
        let v: f64 = t.parse().unwrap();
        assert_eq!(is_negative_number_chars(&chars(t)), v < 0.0, "{t}");
    }
    assert!(!is_negative_number_chars(&chars("-x")));
}
