use qe_monitor::ph;
use qe_monitor::ph::metrics::{IrrepsRow, Qpoint};

/// Irrep count of the table row matching `q`, allowing for the 7 decimals of
/// "Calculation of q" against the 9 of the table.
fn lookup_irreps(table: &[IrrepsRow], q: &Qpoint) -> Option<u32> {
    const TOL: f64 = 1e-6;
    let xq = [&q.x, &q.y, &q.z].map(|s| s.parse::<f64>().unwrap());
    table
        .iter()
        .find(|row| {
            let r = [&row.q.x, &row.q.y, &row.q.z].map(|s| s.parse::<f64>().unwrap());
            r.iter().zip(xq.iter()).all(|(a, b)| (a - b).abs() < TOL)
        })
        .map(|row| row.n_irreps)
}

fn num_representations(m: &ph::PhMetrics) -> Vec<u32> {
    let found: Vec<Option<u32>> = m
        .qpoints_started
        .iter()
        .map(|s| {
            s.q.as_ref()
                .and_then(|q| lookup_irreps(&m.irreps_table[..s.table_len], q))
        })
        .collect();
    m.num_representations(&found)
}

const GRID_HEADER: &str = r#"
     Dynamical matrices for ( 2, 2, 1)  uniform grid of q-points
     (   3 q-points):
       N         xq(1)         xq(2)         xq(3)
       1   0.000000000   0.000000000   0.000000000
       2   0.000000000   0.500000000   0.000000000
       3   0.500000000   0.500000000   0.000000000

     Number and degeneracy of irreps per q-point
       N         xq(1)         xq(2)         xq(3)   N irreps
       1   0.000000000   0.000000000   0.000000000       8
        1   1   2   2   1   1   2   2
       2   0.000000000   0.500000000   0.000000000      12
     No degeneracy
       3   0.500000000   0.500000000   0.000000000       6
     No degeneracy

     Saving dvscf to file. Distribute only q points, not irreducible representations.
"#;

#[test]
fn scopes_totals_to_the_qpoints_the_run_reaches() {
    let output = format!(
        "{GRID_HEADER}
     Calculation of q =    0.0000000   0.0000000   0.0000000
     There are    8 irreducible representations
     End of self-consistent calculation
     Number of q in the star =    1

     Calculation of q =    0.0000000   0.5000000   0.0000000
     There are   12 irreducible representations
"
    );

    let metrics = ph::parse_metrics(&output);
    assert_eq!(metrics.num_qpoints, 2);
    assert_eq!(metrics.num_qpoints_completed, 1);
    assert_eq!(num_representations(&metrics), vec![8, 12]);
}

#[test]
fn start_q_run_reads_only_its_own_qpoint() {
    let output = format!(
        "{GRID_HEADER}
     Calculation of q =    0.0000000   0.5000000   0.0000000
"
    );

    let metrics = ph::parse_metrics(&output);
    assert_eq!(metrics.num_qpoints, 1);
    assert_eq!(metrics.num_qpoints_completed, 0);
    assert_eq!(num_representations(&metrics), vec![12]);
}

#[test]
fn parses_split_qpoint_header_and_irreps() {
    let output = r#"
     Saving dvscf to file. Distribute only q points, not irreducible representations.
        1 /  12 q-points for this run, from  2 to  2:
       N       xq(1)         xq(2)         xq(3)
       1   0.000000000   0.000000000   0.000000000
       2   0.000000000   0.000000000  -0.128314539

     Calculation of q =    0.0000000   0.0000000  -0.1283145

     There are   18 irreducible representations
"#;

    let metrics = ph::parse_metrics(output);
    assert_eq!(metrics.num_qpoints, 1);
    assert_eq!(metrics.num_qpoints_completed, 0);
    assert_eq!(num_representations(&metrics), vec![18]);
}

#[test]
fn single_qpoint_run_reads_irreps_from_table() {
    let output = r#"
     Number and degeneracy of irreps per q-point
       N         xq(1)         xq(2)         xq(3)   N irreps
       1   0.000000000   0.000000000   0.000000000      36
     No degeneracy

     Saving dvscf to file. Distribute only q points, not irreducible representations.

     Calculation of q =    0.0000000   0.0000000   0.0000000

     There are   36 irreducible representations
"#;

    let metrics = ph::parse_metrics(output);
    assert_eq!(metrics.num_qpoints, 1);
    assert_eq!(metrics.num_qpoints_completed, 0);
    assert_eq!(num_representations(&metrics), vec![36]);
}

#[test]
fn electron_phonon_star_lines_count_each_qpoint_once() {
    let output = "
     Calculation of q =    0.0000000   0.0000000   0.0000000
     Number of q in the star =    1
     Number of q in the star =    1
     Calculation of q =    0.0000000   0.5000000   0.0000000
     Number of q in the star =    2
     Number of q in the star =    2
";
    let metrics = ph::parse_metrics(output);
    assert_eq!(metrics.num_qpoints, 2);
    assert_eq!(metrics.num_qpoints_completed, 2);
}

#[test]
fn representation_blocks_track_iterations_and_times() {
    let output = "
     PHONON       :      1.50s CPU      1.60s WALL
     convergence threshold     =  1.0E-14
     Representation #  1 mode #   1

     Self-consistent Calculation

      iter #   1 total cpu time :     2.1 secs   av.it.:   5.0
      thresh= 1.000E-02 alpha_mix =  0.700 |ddv_scf|^2 =  1.234E-07

      iter #   2 total cpu time :     2.9 secs   av.it.:   9.0
      thresh= 3.513E-05 alpha_mix =  0.700 |ddv_scf|^2 =  4.5D-16

     End of self-consistent calculation

     Self-consistent Calculation

      iter #   1 total cpu time :     3.5 secs   av.it.:   4.0
      thresh= 1.000E-02 alpha_mix =  0.700 |ddv_scf|^2 =  2.0E-08
";
    let metrics = ph::parse_metrics(output);
    assert_eq!(metrics.conv_threshold.as_deref(), Some("1.0E-14"));
    assert_eq!(metrics.num_representations_completed, 1);
    assert_eq!(metrics.representation_blocks.len(), 2);
    let first = &metrics.representation_blocks[0];
    assert_eq!(first.iteration, vec![1, 2]);
    assert_eq!(first.accuracy, vec!["1.234E-07".to_string(), "4.5E-16".to_string()]);
    assert_eq!(first.cpu_time, vec!["2.1".to_string(), "2.9".to_string()]);
    assert_eq!(first.cpu_time_first.as_deref(), Some("2.1"));
    assert_eq!(first.cpu_time_last.as_deref(), Some("2.9"));
    assert_eq!(first.conv_iters, Some(2));
    // the block still running at the end of the output is kept, with its iteration
    let last = &metrics.representation_blocks[1];
    assert_eq!(last.iteration, vec![1]);
    assert_eq!(last.conv_iters, Some(1));
    assert_eq!(last.cpu_time_first.as_deref(), Some("3.5"));
}

#[test]
fn irreps_are_announced_when_there_is_no_table() {
    let output = "
     Calculation of q =    0.0000000   0.0000000   0.0000000
     There are    4 irreducible representations
     Calculation of q = not a number
     There are    5 irreducible representations
";
    let metrics = ph::parse_metrics(output);
    assert_eq!(metrics.irreps_announced, vec![4, 5]);
    assert!(metrics.qpoints_started[0].q.is_some());
    assert!(metrics.qpoints_started[1].q.is_none());
    assert_eq!(num_representations(&metrics), vec![4, 5]);
}

#[test]
fn run_range_counts_as_the_number_of_qpoints() {
    let output = "        1 /  12 q-points for this run, from  3 to  7:\n";
    let metrics = ph::parse_metrics(output);
    assert_eq!(metrics.num_qpoints, 5);
    let backwards = "        1 /  12 q-points for this run, from  7 to  3:\n";
    assert_eq!(ph::parse_metrics(backwards).num_qpoints, 1);
}

#[test]
fn ph_run_info_matches_pw() {
    let header = "     Program PHONON v.7.5 starts on  1Jan2026 at 10: 5: 3 \n     Number of MPI processes:                12\n     Threads/MPI process:                     1\n";
    let ri = ph::parse_run_info(header);
    assert_eq!(ri.executable.as_deref(), Some("ph.x"));
    assert_eq!(ri.version.as_deref(), Some("7.5"));
    assert_eq!(ri.start_time.as_deref(), Some("1Jan2026 10:05:03"));
    assert_eq!(ri.mpi_ranks.as_deref(), Some("12"));
    assert_eq!(ri.omp_threads.as_deref(), Some("1"));
}

#[test]
fn finished_blocks_are_the_completed_representations() {
    let output = "
     Self-consistent Calculation
      iter #   1 total cpu time :     2.1 secs   av.it.:   5.0
      thresh= 1.000E-02 alpha_mix =  0.700 |ddv_scf|^2 =  1.234E-07
     End of self-consistent calculation
     Self-consistent Calculation
      iter #   1 total cpu time :     3.5 secs   av.it.:   4.0
";
    let metrics = ph::parse_metrics(output);
    assert_eq!(metrics.representation_blocks.len(), 2);
    assert_eq!(metrics.num_representations_completed, 1);
    assert_eq!(metrics.completed_blocks(), 1);
    // an end line without a block open counts a representation but holds no block
    let ended = ph::parse_metrics("     End of self-consistent calculation\n");
    assert_eq!(ended.num_representations_completed, 1);
    assert_eq!(ended.completed_blocks(), 0);
}
