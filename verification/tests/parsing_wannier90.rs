use qe_monitor::wannier90;

const HEADER: &str = "
             +---------------------------------------------------+
             |                   WANNIER90                       |
             +---------------------------------------------------+
             |        Welcome to the Maximally-Localized         |
             |        Generalized Wannier Functions code         |
             |   Release: 3.1.0        5th March    2020         |
 Execution started on  8Mar2026 at 10:00:00
 Running in serial (with serial executable)
";

const SETTINGS: &str = "
 *---------------------------------- MAIN ------------------------------------*
 |  Using band disentanglement                :             T                  |
 *------------------------------------------------------------------------------*
 *------------------------------- WANNIERISE ---------------------------------*
 |  Total number of iterations                :              1500             |
 |  Convergence tolerence                     :           1.000E-09          |
 *------------------------------------------------------------------------------*
 *------------------------------- DISENTANGLE --------------------------------*
 |  Total number of iterations                :               500             |
 |  Convergence tolerence                     :           1.000E-10          |
 *------------------------------------------------------------------------------*
";

const ITERATIONS: &str = "
 Extraction of optimally-connected subspace
 +---------------------------------------------------------------------+<-- DIS
 |  Iter     Omega_I(i-1)      Omega_I(i)      Delta (frac.)    Time   |<-- DIS
 +---------------------------------------------------------------------+<-- DIS
       1       3.82237416       3.79102305       8.270E-03      0.01    <-- DIS
       2       3.79102305       3.77883440       3.226E-03      0.02    <-- DIS

             <<< Disentanglement convergence criteria satisfied >>>
 Time to disentangle bands      0.123 (sec)
 +--------------------------------------------------------------------+<-- CONV
 | Iter  Delta Spread     RMS Gradient      Spread (Ang^2)      Time  |<-- CONV
 +--------------------------------------------------------------------+<-- CONV
      0     0.133E+02     0.0000000000       13.2967662849       0.05  <-- CONV
      1    -0.102E+01     0.7011287066       12.2742837637       0.06  <-- CONV
 WF centre and spread    1  ( -0.000000,  0.000000,  0.000000 )     1.10943010
 WF centre and spread    2  (  0.000000,  0.000000,  0.000000 )     1.11
 Sum of centres and spreads ( -0.000000,  0.000000,  0.000000 )     2.21943010
 Time for wannierise      0.200 (sec)
";

fn run() -> String {
    format!("{HEADER}{SETTINGS}{ITERATIONS}")
}

#[test]
fn standalone_run_header() {
    let ri = wannier90::parse_run_info(&run());
    assert_eq!(ri.executable.as_deref(), Some("Wannier90.x"));
    assert_eq!(ri.version.as_deref(), Some("3.1.0"));
    assert_eq!(ri.start_time.as_deref(), Some("8Mar2026 10:00:00"));
    assert_eq!(ri.mpi_ranks.as_deref(), Some("1"));
    assert_eq!(ri.omp_threads.as_deref(), Some("-"));
}

#[test]
fn bannerless_run_takes_its_time_from_the_resume_line() {
    let ri = wannier90::parse_run_info("\n Resuming Wannier90 at 01:11:28 \n");
    assert_eq!(ri.executable.as_deref(), Some("Wannier90.x"));
    assert_eq!(ri.start_time.as_deref(), Some("01:11:28"));
    assert_eq!(ri.mpi_ranks, None);
}

#[test]
fn settings_and_thresholds() {
    let m = wannier90::parse_metrics(&run());
    assert!(m.has_disentanglement);
    assert_eq!(m.wannierize_max_iterations, Some(1500));
    assert_eq!(m.dis_max_iterations, Some(500));
    assert_eq!(m.wannierize_conv_threshold, "1.000E-09");
    assert_eq!(m.disentanglement_conv_threshold.as_deref(), Some("1.000E-10"));
}

#[test]
fn iteration_series() {
    let m = wannier90::parse_metrics(&run());
    let d = m.disentanglement_block.as_ref().expect("disentanglement rows");
    assert_eq!(d.omega_i, vec!["3.79102305".to_string(), "3.77883440".to_string()]);
    assert_eq!(d.delta_omega_i, vec!["8.270E-03".to_string(), "3.226E-03".to_string()]);
    assert_eq!(d.cpu_time, vec!["0.01".to_string(), "0.02".to_string()]);
    assert_eq!(m.disentanglement_converged, Some(true));
    assert_eq!(m.spread_block.spread, vec!["13.2967662849".to_string(), "12.2742837637".to_string()]);
    assert_eq!(m.spread_block.delta_spread, vec!["0.133E+02".to_string(), "-0.102E+01".to_string()]);
    assert_eq!(m.spread_block.cpu_time, vec!["0.05".to_string(), "0.06".to_string()]);
    assert_eq!(m.spread_block.wf_spreads_last, vec!["1.10943010".to_string(), "1.11".to_string()]);
}

#[test]
fn only_the_last_run_counts() {
    let first = format!("{HEADER}{SETTINGS}{ITERATIONS}");
    let second = format!(
        "{HEADER}{SETTINGS}
 +--------------------------------------------------------------------+<-- CONV
 | Iter  Delta Spread     RMS Gradient      Spread (Ang^2)      Time  |<-- CONV
 +--------------------------------------------------------------------+<-- CONV
      0     0.500E+01     0.0000000000        5.0000000000       0.05  <-- CONV
"
    );
    let both = format!("{first}{second}");
    let m = wannier90::parse_metrics(&both);
    let alone = wannier90::parse_metrics(&second);
    assert_eq!(m.spread_block.spread, vec!["5.0000000000".to_string()]);
    assert_eq!(m.spread_block.spread, alone.spread_block.spread);
    assert!(m.disentanglement_block.is_none());
    assert!(m.spread_block.wf_spreads_last.is_empty());
}

#[test]
fn failure_text_yields_empty_metrics() {
    let aborted = "Exiting.......\n Error: some failure\n";
    let m = wannier90::parse_metrics(aborted);
    assert!(!m.has_disentanglement);
    assert!(m.disentanglement_block.is_none());
    assert!(m.spread_block.spread.is_empty());
    assert!(m.spread_block.wf_spreads_last.is_empty());
    // nothing was parsed, so the threshold keeps its unset value
    assert_eq!(m.wannierize_conv_threshold, "-1.0");
}

#[test]
fn disentanglement_not_converged() {
    let out = format!(
        "{HEADER}
 Extraction of optimally-connected subspace
             <<< Disentanglement convergence criteria not satisfied >>>
 Time to disentangle bands      0.123 (sec)
"
    );
    let m = wannier90::parse_metrics(&out);
    assert_eq!(m.disentanglement_converged, Some(false));
}

#[test]
fn earlier_run_header_does_not_leak() {
    let earlier = HEADER.replace("Running in serial (with serial executable)", "Running in parallel on 4 CPUs");
    let earlier = earlier.replace("Release: 3.1.0", "Release: 3.0.0");
    let both = format!("{earlier}{SETTINGS}{ITERATIONS}{HEADER}");
    let ri = wannier90::parse_run_info(&both);
    assert_eq!(ri.version.as_deref(), Some("3.1.0"));
    assert_eq!(ri.mpi_ranks.as_deref(), Some("1"));
    let m = wannier90::parse_metrics(&both);
    assert!(m.spread_block.spread.is_empty());
    assert!(!m.has_disentanglement);
}

#[test]
fn iterations_done_leave_out_the_initial_state() {
    let m = wannier90::parse_metrics(&run());
    assert_eq!(m.wannierise_iterations_done(), 1);
    assert_eq!(m.disentangle_iterations_done(), 2);
    let empty = wannier90::parse_metrics("");
    assert_eq!(empty.wannierise_iterations_done(), 0);
    assert_eq!(empty.disentangle_iterations_done(), 0);
}
