use secure_delete::fill::sdel_fill_buf;
use secure_delete::overwrite::{next_block, sdel_overwrite_program, write_count, BlockNext, Op};
use secure_delete::random::{sdel_random_buf, store_random};
use secure_delete::schedule::{overwrite_passes, turn_fill_of, write_mode, PassFill};

#[test]
fn fill_buf_repeats_pattern_and_keeps_tail() {
    let mut buf = vec![9u8; 8];
    sdel_fill_buf(&[1, 2, 3], 7, &mut buf);
    assert_eq!(buf, vec![1, 2, 3, 1, 2, 3, 9, 9]);
}

#[test]
fn fill_buf_exact_multiple_of_three() {
    let mut buf = vec![0u8; 6];
    sdel_fill_buf(&[0xFF, 0xFF, 0xFF], 6, &mut buf);
    assert_eq!(buf, vec![0xFF; 6]);
}

#[test]
fn fill_buf_small_bufsize_writes_nothing() {
    let mut buf = vec![7u8; 4];
    sdel_fill_buf(&[1, 2, 3], 2, &mut buf);
    assert_eq!(buf, vec![7, 7, 7, 7]);
}

#[test]
fn random_buf_keeps_bytes_past_bufsize() {
    let mut buf = vec![0xABu8; 64];
    sdel_random_buf(32, &mut buf).unwrap();
    assert_eq!(buf.len(), 64);
    assert!(buf[32..].iter().all(|b| *b == 0xAB));
}

#[test]
fn random_buf_changes_the_buffer() {
    // 4096 random bytes all equal to the old value would have probability 2^-32768.
    let mut buf = vec![0u8; 4096];
    sdel_random_buf(4096, &mut buf).unwrap();
    assert!(buf.iter().any(|b| *b != 0));
}

#[test]
fn write_mode_table_entries() {
    assert_eq!(write_mode(0), (0x55, 0x55, 0x55));
    assert_eq!(write_mode(2), (0x92, 0x49, 0x24));
    assert_eq!(write_mode(5), (0x00, 0x00, 0x00));
    assert_eq!(write_mode(20), (0xFF, 0xFF, 0xFF));
    assert_eq!(write_mode(26), (0xDB, 0x6D, 0xB6));
}

#[test]
fn secure_mode_has_38_passes() {
    let plan = overwrite_passes(2, false);
    assert_eq!(plan.len(), 38);
    assert_eq!(plan[0], PassFill::Pattern(0xFF, 0xFF, 0xFF));
    for i in 1..=5 {
        assert_eq!(plan[i], PassFill::Random);
    }
    for i in 0..27 {
        let (a, b, c) = write_mode(i);
        assert_eq!(plan[i + 6], PassFill::Pattern(a, b, c));
    }
    for i in 33..=37 {
        assert_eq!(plan[i], PassFill::Random);
    }
}

#[test]
fn secure_mode_with_zero_ends_with_zeros() {
    let plan = overwrite_passes(2, true);
    assert_eq!(plan.len(), 38);
    assert_eq!(plan[37], PassFill::Pattern(0, 0, 0));
    assert_eq!(plan[36], PassFill::Random);
}

#[test]
fn two_pass_mode() {
    assert_eq!(
        overwrite_passes(1, false),
        vec![PassFill::Pattern(0xFF, 0xFF, 0xFF), PassFill::Random]
    );
    assert_eq!(
        overwrite_passes(1, true),
        vec![PassFill::Pattern(0xFF, 0xFF, 0xFF), PassFill::Pattern(0, 0, 0)]
    );
}

#[test]
fn one_pass_mode() {
    assert_eq!(overwrite_passes(0, false), vec![PassFill::Random]);
    assert_eq!(overwrite_passes(0, true), vec![PassFill::Pattern(0, 0, 0)]);
}

#[test]
fn zero_last_pass_in_every_mode() {
    let plan = overwrite_passes(3, true);
    assert_eq!(plan.len(), 38);
    assert_eq!(plan[37], PassFill::Pattern(0, 0, 0));
    assert_eq!(plan[36], PassFill::Random);
    let plan = overwrite_passes(-1, true);
    assert_eq!(plan, vec![PassFill::Pattern(0xFF, 0xFF, 0xFF), PassFill::Pattern(0, 0, 0)]);
    for mode in -2..=5 {
        assert_eq!(*overwrite_passes(mode, false).last().unwrap(), PassFill::Random);
    }
}

#[test]
fn turn_fill_edges() {
    assert_eq!(turn_fill_of(2, true, 4), PassFill::Random);
    assert_eq!(turn_fill_of(2, true, 5), PassFill::Pattern(0x55, 0x55, 0x55));
    assert_eq!(turn_fill_of(2, true, 31), PassFill::Pattern(0xDB, 0x6D, 0xB6));
    assert_eq!(turn_fill_of(2, true, 35), PassFill::Random);
    assert_eq!(turn_fill_of(2, true, 36), PassFill::Pattern(0, 0, 0));
}

#[test]
fn program_one_random_pass() {
    let ops = sdel_overwrite_program(0, false, 4);
    assert_eq!(
        ops,
        vec![
            Op::Seek,
            Op::Seek,
            Op::Blocks { count: 4, refill: true },
            Op::FlushSync,
            Op::Seek,
            Op::Sync
        ]
    );
}

#[test]
fn program_one_zero_pass_stops_early() {
    let ops = sdel_overwrite_program(0, true, 2);
    assert_eq!(
        ops,
        vec![Op::Seek, Op::Fill(0, 0, 0), Op::Blocks { count: 2, refill: false }, Op::FlushSync]
    );
}

#[test]
fn program_two_passes_with_zero() {
    let ops = sdel_overwrite_program(1, true, 3);
    assert_eq!(
        ops,
        vec![
            Op::Seek,
            Op::Fill(0xFF, 0xFF, 0xFF),
            Op::Blocks { count: 3, refill: false },
            Op::FlushSync,
            Op::Seek,
            Op::Fill(0, 0, 0),
            Op::Blocks { count: 3, refill: false },
            Op::FlushSync,
            Op::Seek,
            Op::Sync
        ]
    );
}

#[test]
fn program_secure_mode_shape() {
    let ops = sdel_overwrite_program(2, false, 1);
    let seeks = ops.iter().filter(|o| **o == Op::Seek).count();
    let blocks = ops.iter().filter(|o| matches!(o, Op::Blocks { .. })).count();
    assert_eq!(seeks, 38);
    assert_eq!(blocks, 38);
    assert_eq!(*ops.last().unwrap(), Op::Sync);
    // 1 seek + 3 ops of the first pass + 37 turns (seek + pass) + final sync
    assert_eq!(ops.len(), 1 + 3 + 37 + 10 * 2 + 27 * 3 + 1);
}

#[test]
fn write_count_values() {
    assert_eq!(write_count(0, 32769), 0);
    assert_eq!(write_count(100, 32769), 1);
    assert_eq!(write_count(32769, 32769), 2);
    assert_eq!(write_count(65538, 32769), 3);
}

#[test]
fn next_block_bounded_pass() {
    assert_eq!(next_block(3, 0, true), BlockNext::Continue { done: 1 });
    assert_eq!(next_block(3, 2, true), BlockNext::PassDone);
    assert_eq!(next_block(3, 1, false), BlockNext::Abort);
}

#[test]
fn next_block_unbounded_pass() {
    assert_eq!(next_block(0, 5, true), BlockNext::Continue { done: 6 });
    assert_eq!(next_block(0, 5, false), BlockNext::PassDone);
}

#[test]
fn program_writes_exactly_the_plan() {
    for mode in -1..=4 {
        for zero in [false, true] {
            let ops = sdel_overwrite_program(mode, zero, 7);
            let mut buffer = PassFill::Pattern(0, 0, 0);
            let mut written = Vec::new();
            for op in ops {
                match op {
                    Op::Fill(a, b, c) => buffer = PassFill::Pattern(a, b, c),
                    Op::Blocks { refill: true, .. } => written.push(PassFill::Random),
                    Op::Blocks { refill: false, .. } => written.push(buffer),
                    _ => {}
                }
            }
            assert_eq!(written, overwrite_passes(mode, zero));
        }
    }
}

#[test]
fn blocks_cover_the_file() {
    for (length, bufsize) in [(1u64, 32769usize), (32768, 32769), (32769, 32769), (100000, 3)] {
        let writes = write_count(length, bufsize);
        assert!(writes * bufsize as u64 > length);
    }
}

#[test]
fn store_random_copies_drawn_bytes() {
    let mut buf = vec![9u8; 6];
    store_random(&mut buf, 4, &[1, 2, 3, 4, 5, 6, 7]);
    assert_eq!(buf, vec![1, 2, 3, 4, 9, 9]);
}
