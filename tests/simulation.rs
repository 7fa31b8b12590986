use gpu_automata::capture::{capture_buffer_bytes, pad_rows, padded_bytes_per_row, strip_padding};
use gpu_automata::driver::Driver;
use gpu_automata::grid::{cell_buffer_bytes, n_cells, vertex_template, work_group_count};
use gpu_automata::pingpong::{bind_set, bind_sets, current_index, next_index, update_bind_index};

#[test]
fn update_never_reads_the_buffer_it_writes() {
    for t in 0..1000usize {
        let b = bind_set(update_bind_index(t));
        assert_ne!(b.read, b.write);
        assert_eq!(b.read, current_index(t));
        assert_eq!(b.write, next_index(t));
    }
    let b = bind_set(update_bind_index(usize::MAX));
    assert_ne!(b.read, b.write);
}

#[test]
fn roles_repeat_every_two_ticks() {
    for t in 0..1000usize {
        assert_eq!(current_index(t + 2), current_index(t));
        assert_eq!(next_index(t + 2), next_index(t));
        assert_ne!(current_index(t + 1), current_index(t));
    }
    assert_eq!(current_index(0), 0);
    assert_eq!(next_index(0), 1);
    assert_eq!(current_index(7), 1);
    assert_eq!(next_index(7), 0);
}

#[test]
fn written_buffer_is_next_ticks_input() {
    for t in 0..100usize {
        assert_eq!(next_index(t), current_index(t + 1));
    }
}

#[test]
fn bind_sets_pair_each_buffer_with_the_other() {
    let sets = bind_sets();
    assert_eq!(sets.len(), 2);
    assert_eq!((sets[0].read, sets[0].write), (0, 1));
    assert_eq!((sets[1].read, sets[1].write), (1, 0));
}

#[test]
fn grid_sizes() {
    assert_eq!(n_cells(500), 250_000);
    assert_eq!(n_cells(1000), 1_000_000);
    assert_eq!(cell_buffer_bytes(250_000), 1_000_000);
    assert_eq!(cell_buffer_bytes(0), 0);
}

#[test]
fn work_groups_round_up() {
    assert_eq!(work_group_count(1_000_000, 64), 15_625);
    assert_eq!(work_group_count(250_000, 256), 977);
    assert_eq!(work_group_count(256, 256), 1);
    assert_eq!(work_group_count(257, 256), 2);
    assert_eq!(work_group_count(0, 64), 0);
    assert_eq!(work_group_count(u32::MAX, 256), 16_777_216);
    assert_eq!(work_group_count(u32::MAX, 1), u32::MAX);
}

#[test]
fn single_row_grid_dispatches_one_group_and_draws_one_instance() {
    let cells = n_cells(1);
    assert_eq!(cells, 1);
    assert_eq!(work_group_count(cells, 64), 1);
    assert_eq!(work_group_count(cells, 256), 1);
}

#[test]
fn vertex_template_is_two_triangles() {
    let v = vertex_template();
    assert_eq!(v, vec![(0, 0), (1, 0), (1, 1), (0, 0), (1, 1), (0, 1)]);
}

#[test]
fn padded_row_stride() {
    assert_eq!(padded_bytes_per_row(750, 256), 3072);
    assert_eq!(padded_bytes_per_row(64, 256), 256);
    assert_eq!(padded_bytes_per_row(65, 256), 512);
    assert_eq!(padded_bytes_per_row(0, 256), 0);
    assert_eq!(padded_bytes_per_row(3, 5), 15);
    assert_eq!(padded_bytes_per_row(1, 1), 4);
}

#[test]
fn strip_padding_keeps_the_leading_bytes_of_each_row() {
    // two rows of 2 pixels (8 bytes) with a stride of 12
    let padded: Vec<u8> = vec![
        1, 2, 3, 4, 5, 6, 7, 8, 90, 91, 92, 93, //
        9, 10, 11, 12, 13, 14, 15, 16, 94, 95, 96, 97,
    ];
    let out = strip_padding(&padded, 8, 12, 2);
    assert_eq!(out, (1..=16).collect::<Vec<u8>>());
    assert_eq!(strip_padding(&vec![], 0, 4, 0), Vec::<u8>::new());
    assert_eq!(strip_padding(&vec![7, 7, 7, 7], 0, 4, 1), Vec::<u8>::new());
}

#[test]
fn pad_rows_fills_padding_with_zeros() {
    let data: Vec<u8> = vec![1, 2, 3, 4, 5, 6];
    let padded = pad_rows(&data, 3, 5, 2);
    assert_eq!(padded, vec![1, 2, 3, 0, 0, 4, 5, 6, 0, 0]);
}

#[test]
fn row_padding_round_trip() {
    for &(w, a) in &[(750u32, 256u32), (1, 256), (64, 256), (100, 7), (3, 1), (0, 256)] {
        let prow = padded_bytes_per_row(w, a) as usize;
        assert_eq!(prow % a as usize, 0);
        assert!(prow >= w as usize * 4);
        let row: Vec<u8> = (0..prow).map(|i| (i % 251) as u8).collect();
        let stripped = strip_padding(&row, w as usize * 4, prow, 1);
        assert_eq!(stripped.len(), w as usize * 4);
        let again = pad_rows(&stripped, w as usize * 4, prow, 1);
        assert_eq!(again.len(), prow);
        assert_eq!(strip_padding(&again, w as usize * 4, prow, 1), stripped);
    }
}

fn padded_frame(tick: usize, row_bytes: usize, padded_row: usize, height: usize) -> Vec<u8> {
    let mut v = vec![0xEEu8; padded_row * height];
    for r in 0..height {
        for c in 0..row_bytes {
            v[r * padded_row + c] = (tick % 256) as u8;
        }
    }
    v
}

fn run_capture(capture_length: usize, failing: &[usize]) -> Vec<Vec<u8>> {
    let (row_bytes, padded_row, height) = (8usize, 256usize, 2usize);
    let mut d = Driver::new(capture_length, row_bytes * height);
    let mut encoded: Option<Vec<Vec<u8>>> = None;
    let mut encodes = 0;
    for _ in 0..capture_length + 10 {
        let plan = d.plan();
        assert_eq!(plan.update_bind, d.tick() % 2);
        assert_eq!(plan.draw_buffer, (d.tick() + 1) % 2);
        assert_eq!(plan.capture, d.tick() < capture_length);
        if plan.capture {
            let t = d.tick();
            let mapped = if failing.contains(&t) {
                None
            } else {
                Some(padded_frame(t, row_bytes, padded_row, height))
            };
            d.record_capture(mapped, row_bytes, padded_row, height);
        }
        if plan.encode {
            encodes += 1;
            encoded = Some(d.take_frames());
        }
        d.finish_tick();
    }
    assert_eq!(encodes, 1);
    assert_eq!(d.frame_count(), 0);
    encoded.unwrap()
}

#[test]
fn capture_run_keeps_every_frame_in_tick_order() {
    let frames = run_capture(290, &[]);
    assert_eq!(frames.len(), 290);
    for (i, f) in frames.iter().enumerate() {
        assert_eq!(f.len(), 16);
        assert!(f.iter().all(|&b| b == (i % 256) as u8));
    }
}

#[test]
fn failed_maps_are_dropped_without_filling_gaps() {
    let failing = [5usize, 100, 289];
    let frames = run_capture(290, &failing);
    assert_eq!(frames.len(), 287);
    let ticks: Vec<usize> = (0..290).filter(|t| !failing.contains(t)).collect();
    for (f, t) in frames.iter().zip(ticks.iter()) {
        assert!(f.iter().all(|&b| b == (t % 256) as u8));
    }
}

#[test]
fn encode_comes_once_at_the_capture_length() {
    let mut d = Driver::new(2, 0);
    assert!(!d.plan().encode);
    d.record_capture(None, 0, 4, 0);
    d.finish_tick();
    d.record_capture(Some(vec![]), 0, 4, 0);
    assert_eq!(d.frame_count(), 1);
    d.finish_tick();
    let p = d.plan();
    assert!(p.encode);
    assert!(!p.capture);
    assert_eq!(d.take_frames().len(), 1);
    assert!(!d.plan().encode);
    d.finish_tick();
    assert!(!d.plan().encode);
    assert!(!d.plan().capture);
}

#[test]
fn zero_capture_length_encodes_an_empty_list_at_tick_zero() {
    let mut d = Driver::new(0, 16);
    let p = d.plan();
    assert!(!p.capture);
    assert!(p.encode);
    assert!(d.take_frames().is_empty());
}

#[test]
fn capture_buffer_holds_every_padded_row() {
    assert_eq!(capture_buffer_bytes(3072, 750), 2_304_000);
    assert_eq!(capture_buffer_bytes(u32::MAX, u32::MAX), (u32::MAX as u64) * (u32::MAX as u64));
}
