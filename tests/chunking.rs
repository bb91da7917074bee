use snarkify_prover::chunk::{chunk, Task};
use snarkify_prover::circuit::{CircuitType, Finality, Network};

fn ct(depth: usize) -> CircuitType {
    CircuitType::new(depth, depth, Finality::Unfinalized, Network::Goerli)
}

fn spans(tasks: &[Task]) -> Vec<(u32, u32)> {
    tasks.iter().map(|t| (t.start, t.end)).collect()
}

#[test]
fn four_blocks_at_depth_two_make_one_task() {
    let tasks = chunk(100, 103, 2, ct(2));
    assert_eq!(spans(&tasks), vec![(100, 103)]);
    assert_eq!(tasks[0].circuit_type, ct(2));
}

#[test]
fn six_blocks_at_depth_two_clamp_the_second_task() {
    let tasks = chunk(100, 105, 2, ct(2));
    assert_eq!(spans(&tasks), vec![(100, 103), (104, 105)]);
}

#[test]
fn single_block_range() {
    assert_eq!(spans(&chunk(7, 7, 3, ct(3))), vec![(7, 7)]);
}

#[test]
fn depth_zero_gives_one_task_per_block() {
    assert_eq!(spans(&chunk(10, 13, 0, ct(0))), vec![(10, 10), (11, 11), (12, 12), (13, 13)]);
}

#[test]
fn exact_multiple_of_stride() {
    assert_eq!(spans(&chunk(0, 15, 3, ct(3))), vec![(0, 7), (8, 15)]);
}

#[test]
fn range_reaching_the_largest_block_number() {
    let tasks = chunk(u32::MAX - 5, u32::MAX, 2, ct(2));
    assert_eq!(spans(&tasks), vec![(u32::MAX - 5, u32::MAX - 2), (u32::MAX - 1, u32::MAX)]);
}

#[test]
fn depth_beyond_block_width_gives_one_task() {
    assert_eq!(spans(&chunk(0, u32::MAX, 40, ct(40))), vec![(0, u32::MAX)]);
}

#[test]
fn chunks_partition_the_range() {
    for depth in 0..5usize {
        let (start, end) = (37u32, 101u32);
        let tasks = chunk(start, end, depth, ct(depth));
        assert_eq!(tasks[0].start, start);
        assert_eq!(tasks[tasks.len() - 1].end, end);
        for w in tasks.windows(2) {
            assert_eq!(w[0].end + 1, w[1].start);
        }
        for t in &tasks {
            assert!(t.start <= t.end);
            assert!((t.end - t.start + 1) as u64 <= 1u64 << depth);
        }
        for u in start..=end {
            assert_eq!(tasks.iter().filter(|t| t.start <= u && u <= t.end).count(), 1);
        }
    }
}
