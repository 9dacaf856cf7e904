use qe_monitor::app::{App, Orientation, RefreshPlan};
use qe_monitor::ui::{KeyInput, TabGroup, TabKeys};
use qe_monitor::plots::Plot;
use qe_monitor::CalcType;

#[test]
fn panels_default_to_different_tabs() {
    let mut left = TabGroup::default().with_keys(TabKeys::Function);
    let mut right = TabGroup::default().with_keys(TabKeys::Digit).with_default_last();
    left.rebuild(3);
    right.rebuild(3);
    assert_eq!(left.active(), 0);
    assert_eq!(right.active(), 2);
    // F-keys drive left, digits drive right; they must not collide.
    assert!(left.handle_key(KeyInput::F(1)));
    assert!(!left.handle_key(KeyInput::Char('1')));
    assert!(right.handle_key(KeyInput::Char('1')));
    assert!(!right.handle_key(KeyInput::F(1)));
    assert_eq!(right.active(), 0);
}

#[test]
fn out_of_range_keys_are_not_consumed() {
    let mut g = TabGroup::default();
    g.rebuild(2);
    assert!(!g.handle_key(KeyInput::Char('0')));
    assert!(!g.handle_key(KeyInput::Char('3')));
    assert!(!g.handle_key(KeyInput::Char('x')));
    assert!(g.handle_key(KeyInput::Char('2')));
    assert_eq!(g.active(), 1);
    // a smaller set resets the choice; an empty one has no active tab
    g.rebuild(1);
    assert_eq!(g.active(), 0);
    g.rebuild(0);
    assert_eq!(g.active(), 0);
    assert_eq!(g.num_tabs(), 0);
}

#[test]
fn user_choice_survives_a_rebuild() {
    let mut right = TabGroup::default().with_default_last();
    right.rebuild(4);
    assert_eq!(right.active(), 3);
    assert!(right.handle_key(KeyInput::Char('2')));
    right.rebuild(5);
    assert_eq!(right.active(), 1);
}

#[test]
fn keys_move_the_split_within_bounds() {
    let mut app = App::new(CalcType::Pw, String::new(), 0);
    assert_eq!(app.main_widget_split, 50);
    for _ in 0..5 {
        app.handle_key_event(KeyInput::Left);
    }
    assert_eq!(app.main_widget_split, 20);
    for _ in 0..6 {
        app.handle_key_event(KeyInput::Char('d'));
    }
    assert_eq!(app.main_widget_split, 80);
    app.handle_key_event(KeyInput::Char(' '));
    assert_eq!(app.main_widget_orientation, Orientation::Vertical);
    app.handle_key_event(KeyInput::Char('a'));
    assert_eq!(app.main_widget_split, 80);
    app.handle_key_event(KeyInput::Up);
    assert_eq!(app.main_widget_split, 65);
    app.handle_key_event(KeyInput::Char(' '));
    assert_eq!(app.main_widget_orientation, Orientation::Horizontal);
    assert!(!app.exit);
    app.handle_key_event(KeyInput::Char('q'));
    assert!(app.exit);
}

#[test]
fn refresh_plans() {
    let app = App::new(CalcType::Pw, String::new(), 100);
    assert_eq!(app.refresh_plan(100, true), RefreshPlan::Unchanged);
    assert_eq!(app.refresh_plan(150, false), RefreshPlan::Append(100));
    assert_eq!(app.refresh_plan(100, false), RefreshPlan::Append(100));
    assert_eq!(app.refresh_plan(50, false), RefreshPlan::Reread);
    let empty = App::new(CalcType::Pw, String::new(), 0);
    assert_eq!(empty.refresh_plan(10, false), RefreshPlan::Reread);
}

#[test]
fn appended_output_is_parsed() {
    let mut app = App::new(CalcType::Ph, String::new(), 0);
    app.append_output("     Calculation of q =    0.0   0.0   0.0\n", 42);
    assert_eq!(app.last_size, 42);
    match &app.metrics {
        qe_monitor::app::Metrics::Ph(m) => assert_eq!(m.num_qpoints, 1),
        _ => panic!("ph metrics expected"),
    }
    app.replace_output(String::new(), 0);
    match &app.metrics {
        qe_monitor::app::Metrics::Ph(m) => assert_eq!(m.num_qpoints, 0),
        _ => panic!("ph metrics expected"),
    }
}

#[test]
fn every_run_starts_its_panels_on_different_plots() {
    for (calc_type, expect) in [
        (CalcType::Pw, "SCF acc."),
        (CalcType::Ph, "SCF acc."),
        (CalcType::Wannier90, "Spread abs"),
    ] {
        let app = App::new(calc_type, String::new(), 0);
        let plots = app.plots();
        let labels: Vec<&str> = plots.iter().map(|p| p.label()).collect();
        assert!(labels.contains(&expect), "{expect}: {labels:?}");
        assert!(plots.len() > 1);
        assert_eq!(app.left_charts.num_tabs(), plots.len());
        assert_eq!(app.right_charts.num_tabs(), plots.len());
        assert_eq!(app.left_charts.active(), 0);
        assert_eq!(app.right_charts.active(), plots.len() - 1);
    }
}

#[test]
fn relaxations_add_force_and_pressure_plots() {
    let out = "     Program PWSCF v.7.5 starts on  1Jan2026 at  9:30:12 \n\
               \x20    BFGS Geometry Optimization\n\
               \x20    (criteria: energy <  1.0E-04 Ry, force <  1.0E-03 Ry/Bohr)\n";
    let app = App::new(CalcType::Pw, out.to_string(), 0);
    assert_eq!(
        app.plots(),
        vec![Plot::EnergyDelta, Plot::Force, Plot::Pressure, Plot::ScfAccuracy]
    );
    let band = App::new(CalcType::Pw, " Band Structure Calculation\n".to_string(), 0);
    assert_eq!(band.plots(), vec![Plot::KptTime, Plot::ScfAccuracy]);
    assert_eq!(band.plots()[0].label(), "K-pt time");
}

#[test]
fn a_new_plot_set_keeps_the_users_choice() {
    let mut app = App::new(CalcType::Wannier90, String::new(), 0);
    assert_eq!(app.plots().len(), 3);
    app.handle_key_event(KeyInput::Char('2'));
    assert_eq!(app.right_charts.active(), 1);
    app.append_output(
        " Extraction of optimally-connected subspace\n\
         \x20      1       3.82237416       3.79102305       8.270E-03      0.01    <-- DIS\n",
        100,
    );
    assert_eq!(app.plots().len(), 5);
    assert_eq!(app.right_charts.active(), 1);
    assert_eq!(app.left_charts.active(), 0);
}
