use crsgrid::crssub::csub;
use crsgrid::crssub1d::csub1d;
use crsgrid::harness::{check_output, init_input, run_repeated, zero_grid};

#[test]
fn formula_holds_after_one_call() {
    let input: Vec<Vec<i64>> = vec![vec![7, -2], vec![0, 100]];
    let mut output: Vec<Vec<i64>> = vec![vec![0, 0], vec![0, 0]];
    csub(&input, 2, 2, &mut output);
    for y in 0..2usize {
        for x in 0..2usize {
            assert_eq!(output[y][x], input[y][x] + x as i64 + y as i64);
        }
    }
}

#[test]
fn unit_grid_identity() {
    let input: Vec<Vec<i64>> = vec![vec![42]];
    let mut output: Vec<Vec<i64>> = vec![vec![-1]];
    csub(&input, 1, 1, &mut output);
    assert_eq!(output[0][0], 42);
}

#[test]
fn two_by_three_constant_output() {
    let input = init_input(3, 2);
    assert_eq!(input, vec![vec![5, 4, 3], vec![4, 3, 2]]);
    let mut output = zero_grid(3, 2);
    csub(&input, 3, 2, &mut output);
    assert_eq!(output, vec![vec![5, 5, 5], vec![5, 5, 5]]);
}

#[test]
fn variants_produce_identical_grids() {
    let nx: usize = 7;
    let ny: usize = 5;
    let input = init_input(nx, ny);
    let mut out_indexed = zero_grid(nx, ny);
    let mut out_cursor = zero_grid(nx, ny);
    let mut out_elided = zero_grid(nx, ny);
    csub(&input, nx, ny, &mut out_indexed);
    crsgrid::crssub_iter::csub(&input, nx, ny, &mut out_cursor);
    crsgrid::crssub_elided::csub(&input, nx, ny, &mut out_elided);
    assert_eq!(out_indexed, out_cursor);
    assert_eq!(out_indexed, out_elided);

    let mut flat_input: Vec<i64> = Vec::new();
    for y in 0..ny {
        for x in 0..nx {
            flat_input.push(input[y][x]);
        }
    }
    let mut flat_output: Vec<i64> = vec![0; nx * ny];
    csub1d(&flat_input, nx, ny, &mut flat_output);
    for y in 0..ny {
        for x in 0..nx {
            assert_eq!(flat_output[y * nx + x], out_indexed[y][x]);
        }
    }
}

#[test]
fn flattened_formula_holds() {
    let flat_input: Vec<i64> = vec![9, -4, 2, 0, 13, -7];
    let mut flat_output: Vec<i64> = vec![0; 6];
    csub1d(&flat_input, 3, 2, &mut flat_output);
    for y in 0..2usize {
        for x in 0..3usize {
            let i = y * 3 + x;
            assert_eq!(flat_output[i], flat_input[i] + x as i64 + y as i64);
        }
    }
}

#[test]
fn repeated_calls_match_single_call() {
    let nx: usize = 4;
    let ny: usize = 6;
    let input = init_input(nx, ny);
    let mut once = zero_grid(nx, ny);
    csub(&input, nx, ny, &mut once);
    let mut many = zero_grid(nx, ny);
    run_repeated(&input, nx, ny, &mut many, 17);
    assert_eq!(once, many);
}

#[test]
fn zero_repeats_leave_buffer_untouched() {
    let input = init_input(2, 2);
    let mut output: Vec<Vec<i64>> = vec![vec![3, 1], vec![4, 1]];
    run_repeated(&input, 2, 2, &mut output, 0);
    assert_eq!(output, vec![vec![3, 1], vec![4, 1]]);
}

#[test]
fn cells_beyond_window_are_kept() {
    let input: Vec<Vec<i64>> = vec![vec![1, 2, 30], vec![4, 5, 60], vec![70, 80, 90]];
    let mut output: Vec<Vec<i64>> = vec![vec![-1, -1, -1], vec![-1, -1, -1], vec![-1, -1, -1]];
    csub(&input, 2, 2, &mut output);
    assert_eq!(output[0][0], 1);
    assert_eq!(output[0][1], 3);
    assert_eq!(output[1][0], 5);
    assert_eq!(output[1][1], 7);
    assert_eq!(output[0][2], -1);
    assert_eq!(output[1][2], -1);
    assert_eq!(output[2], vec![-1, -1, -1]);
}

#[test]
fn check_accepts_correct_output() {
    let input = init_input(5, 3);
    let mut output = zero_grid(5, 3);
    csub(&input, 5, 3, &mut output);
    assert_eq!(check_output(&input, &output, 5, 3), None);
}

#[test]
fn check_reports_first_mismatch_in_scan_order() {
    let input = init_input(4, 3);
    let mut output = zero_grid(4, 3);
    csub(&input, 4, 3, &mut output);
    output[2][1] += 1;
    output[1][3] -= 5;
    let found = check_output(&input, &output, 4, 3);
    assert_eq!(found, Some((3, 1)));
}

#[test]
fn check_rejects_untransformed_buffer() {
    let input = init_input(2, 2);
    let output = zero_grid(2, 2);
    assert_eq!(check_output(&input, &output, 2, 2), Some((0, 0)));
}

#[test]
fn input_fill_matches_formula() {
    let input = init_input(4, 5);
    for y in 0..5usize {
        for x in 0..4usize {
            assert_eq!(input[y][x], (4 - x as i64) + (5 - y as i64));
        }
    }
}

#[test]
fn negative_values_transform_exactly() {
    let input: Vec<Vec<i64>> = vec![vec![i64::MIN + 10, -1], vec![0, i64::MAX - 10]];
    let mut output = zero_grid(2, 2);
    csub(&input, 2, 2, &mut output);
    assert_eq!(output[0][0], i64::MIN + 10);
    assert_eq!(output[0][1], 0);
    assert_eq!(output[1][0], 1);
    assert_eq!(output[1][1], i64::MAX - 8);
}
