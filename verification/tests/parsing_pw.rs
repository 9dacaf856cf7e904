use qe_monitor::pw;

const SCF: &str = "
     Program PWSCF v.7.5 starts on  1Jan2026 at  9:30:12 

     Parallel version (MPI), running on     8 processors

     scf convergence threshold =       1.0E-06

     Self-consistent Calculation

     iteration #  1     ecut=    30.00 Ry     beta= 0.70
     Davidson diagonalization with overlap
     total cpu time spent up to now is        0.5 secs

     total energy              =     -15.79103983 Ry
     estimated scf accuracy    <       0.06376245 Ry

     iteration #  2     ecut=    30.00 Ry     beta= 0.70
     total cpu time spent up to now is        0.7 secs
     estimated scf accuracy    <          6.2D-04 Ry

     End of self-consistent calculation
!    total energy              =     -15.79449449 Ry
     convergence has been achieved in   2 iterations
     total   stress  (Ry/bohr**3)                   (kbar)     P=      -29.93
";

#[test]
fn scf_run_header() {
    let ri = pw::parse_run_info(SCF);
    assert_eq!(ri.executable.as_deref(), Some("pw.x"));
    assert_eq!(ri.version.as_deref(), Some("7.5"));
    assert_eq!(ri.start_time.as_deref(), Some("1Jan2026  9:30:12"));
    assert_eq!(ri.mpi_ranks.as_deref(), Some("8"));
    assert_eq!(ri.omp_threads.as_deref(), Some("1"));
}

#[test]
fn scf_cycle_is_recorded() {
    let m = pw::parse_metrics(SCF);
    assert_eq!(m.calc_type, pw::PwCalcType::Scf);
    assert_eq!(m.scf_conv_thr.as_deref(), Some("1.0E-06"));
    assert_eq!(m.total_energy, vec!["-15.79449449".to_string()]);
    assert_eq!(m.pressure, vec!["-29.93".to_string()]);
    assert!(m.total_force.is_empty());
    assert_eq!(m.scf_blocks.len(), 1);
    let b = &m.scf_blocks[0];
    assert_eq!(b.iteration, vec![1, 2]);
    // Fortran `D` exponents are read as `E`
    assert_eq!(b.accuracy, vec!["0.06376245".to_string(), "6.2E-04".to_string()]);
    assert_eq!(b.conv_iters, Some(2));
    assert_eq!(b.iterations_to_converge(), Some(2));
    assert_eq!(b.cpu_time, vec!["0.5".to_string(), "0.7".to_string()]);
    assert_eq!(b.cpu_time_first.as_deref(), Some("0.5"));
    assert_eq!(b.cpu_time_last.as_deref(), Some("0.7"));
    assert_eq!(m.etot_conv_thr, None);
    assert_eq!(m.press_conv_thr, None);
}

#[test]
fn accuracy_without_iteration_counts_up() {
    let out = "
     Self-consistent Calculation
     estimated scf accuracy    <       0.5 Ry
     estimated scf accuracy    <       0.25 Ry
";
    let m = pw::parse_metrics(out);
    assert_eq!(m.scf_blocks.len(), 1);
    assert_eq!(m.scf_blocks[0].iteration, vec![1, 2]);
    assert_eq!(m.scf_blocks[0].conv_iters, None);
    assert_eq!(m.scf_blocks[0].iterations_to_converge(), Some(2));
}

#[test]
fn empty_cycles_are_dropped() {
    let out = "
     Self-consistent Calculation
     Self-consistent Calculation
     End of self-consistent calculation
";
    let m = pw::parse_metrics(out);
    assert!(m.scf_blocks.is_empty());
}

#[test]
fn relax_thresholds_and_forces() {
    let out = "
     Self-consistent Calculation
     estimated scf accuracy    <       0.5 Ry
     End of self-consistent calculation
     Total force =     0.215970     Total SCF correction =     0.000050
     bfgs converged in   4 scf cycles and   3 bfgs steps
     (criteria: energy <  1.0E-04 Ry, force <  1.0E-03Ry/Bohr)
     Total force =     0.000044     Total SCF correction =     0.000001
";
    let m = pw::parse_metrics(out);
    assert_eq!(m.total_force, vec!["0.215970".to_string(), "0.000044".to_string()]);
    assert_eq!(m.etot_conv_thr.as_deref(), Some("1.0E-04"));
    assert_eq!(m.forc_conv_thr.as_deref(), Some("1.0E-03"));
    assert_eq!(m.press_conv_thr, None);
    let cell = "     (criteria: energy <  1.0E-04 Ry, force <  1.0E-03 Ry/Bohr, cell <  5.0E-01 kbar)\n";
    let m = pw::parse_metrics(cell);
    assert_eq!(m.press_conv_thr.as_deref(), Some("5.0E-01"));
}

#[test]
fn late_convergence_line_updates_last_block() {
    let out = "
     Self-consistent Calculation
     estimated scf accuracy    <       0.5 Ry
     End of self-consistent calculation
     convergence has been achieved in   7 iterations
";
    let m = pw::parse_metrics(out);
    assert_eq!(m.scf_blocks[0].conv_iters, Some(7));
}

const BANDS: &str = "
     total cpu time spent up to now is        0.3 secs
     Band Structure Calculation
     Davidson diagonalization with overlap
     Computing kpt #:     1  of    3
     total cpu time spent up to now is        1.2 secs
     Computing kpt #:     2  of    3
     total cpu time spent up to now is        1.9 secs
";

#[test]
fn band_structure_progress() {
    let m = pw::parse_metrics(BANDS);
    assert_eq!(m.calc_type, pw::PwCalcType::Nscf);
    assert_eq!(m.band_blocks.len(), 1);
    let b = &m.band_blocks[0];
    assert_eq!(b.kpt_number, vec![1, 2]);
    assert_eq!(b.num_kpts, Some(3));
    assert_eq!(b.cpu_time, vec!["1.2".to_string(), "1.9".to_string()]);
    assert_eq!(b.cpu_time_first.as_deref(), Some("1.2"));
    assert_eq!(b.cpu_time_last.as_deref(), Some("1.9"));
    assert_eq!(m.scf_conv_thr, None);
    assert!(m.total_energy.is_empty());
}

#[test]
fn band_block_without_kpoints_is_dropped() {
    let m = pw::parse_metrics("     Band Structure Calculation\n");
    assert_eq!(m.calc_type, pw::PwCalcType::Nscf);
    assert!(m.band_blocks.is_empty());
}

#[test]
fn run_header_is_read_from_the_first_fifty_lines() {
    let mut out = String::new();
    for _ in 0..50 {
        out.push_str("filler\n");
    }
    out.push_str("     Program PWSCF v.7.5 starts on 1Jan2026\n");
    let ri = pw::parse_run_info(&out);
    assert_eq!(ri.executable, None);
    assert_eq!(ri.version, None);
}

#[test]
fn mpi_and_openmp_lines() {
    let out = "     Number of MPI processes:                14\n     Threads/MPI process:                     2\n";
    let ri = pw::parse_run_info(out);
    assert_eq!(ri.mpi_ranks.as_deref(), Some("14"));
    assert_eq!(ri.omp_threads.as_deref(), Some("2"));
}

#[test]
fn statistics_leave_out_the_running_cycle() {
    let out = "
     Self-consistent Calculation
     estimated scf accuracy    <       0.5 Ry
     End of self-consistent calculation
     convergence has been achieved in   7 iterations
     Self-consistent Calculation
     estimated scf accuracy    <       0.5 Ry
     estimated scf accuracy    <       0.2 Ry
     End of self-consistent calculation
     Self-consistent Calculation
     estimated scf accuracy    <       0.5 Ry
";
    let m = pw::parse_metrics(out);
    assert_eq!(m.scf_blocks.len(), 3);
    assert_eq!(m.summary_cycles(), 2);
    assert_eq!(pw::metrics::positive_iterations(&m.scf_blocks, 2), vec![7, 2]);
    assert_eq!(pw::metrics::positive_iterations(&m.scf_blocks, 3), vec![7, 2, 1]);
    let one = pw::parse_metrics("     Self-consistent Calculation\n     total cpu time spent up to now is 1.0 secs\n");
    assert_eq!(one.scf_blocks.len(), 1);
    assert_eq!(one.summary_cycles(), 1);
    // a cycle without accuracy or count has no iteration number to report
    assert!(pw::metrics::positive_iterations(&one.scf_blocks, 1).is_empty());
}

#[test]
fn start_time_pads_single_digit_fields() {
    let ri = pw::parse_run_info("     Program PWSCF v.7.5 starts on  1Jan2026 at  9: 5: 3 \n");
    assert_eq!(ri.start_time.as_deref(), Some("1Jan2026  9:05:03"));
    assert_eq!(ri.executable.as_deref(), Some("pw.x"));
    assert_eq!(ri.mpi_ranks, None);
}

#[test]
fn relaxation_errors_are_recorded() {
    let out = "
     Self-consistent Calculation
     estimated scf accuracy    <       0.5 Ry
     End of self-consistent calculation
     Energy error            =      4.2E-05 Ry
     Gradient error          =      3.1E-04 Ry/Bohr
     Cell gradient error     =      2.5E-01 kbar
     Energy error            =      1.0E-06 Ry
";
    let m = pw::parse_metrics(out);
    assert_eq!(m.ion_dyn_etot_err, vec!["4.2E-05".to_string(), "1.0E-06".to_string()]);
    assert_eq!(m.ion_dyn_forc_err, vec!["3.1E-04".to_string()]);
    assert_eq!(m.ion_dyn_press_err, vec!["2.5E-01".to_string()]);
}

#[test]
fn run_kind_follows_the_band_structure_marker() {
    assert_eq!(pw::parser::detect_calc_type(SCF), pw::PwCalcType::Scf);
    assert_eq!(pw::parser::detect_calc_type(BANDS), pw::PwCalcType::Nscf);
    assert_eq!(pw::parse_metrics(BANDS).calc_type, pw::parser::detect_calc_type(BANDS));
}

#[test]
fn text_after_fifty_lines_leaves_the_header_alone() {
    let header = format!("{}{}", SCF.lines().take(4).map(|l| format!("{l}\n")).collect::<String>(), "\n".repeat(50));
    let late = format!("{header}     Parallel version (MPI), running on    16 processors\n");
    assert_eq!(pw::parse_run_info(&late).mpi_ranks, pw::parse_run_info(&header).mpi_ranks);
    assert_eq!(pw::parse_run_info(&header).version.as_deref(), Some("7.5"));
}
