use moqtail::replay::{shift_timeline, ReplayCursor, ReplayStep, TimelineShifter};

#[test]
fn rising_times_pass_unchanged() {
    let mut shifter = TimelineShifter::default();
    for time in [0u64, 3000, 6000, 9001] {
        assert_eq!(shifter.next(time), time);
    }
}

#[test]
fn a_wrap_continues_one_step_behind_the_last_packet() {
    let mut shifter = TimelineShifter::default();
    assert_eq!(shifter.next(0), 0);
    assert_eq!(shifter.next(3000), 3000);
    assert_eq!(shifter.next(6000), 6000);
    assert_eq!(shifter.next(0), 9000);
    assert_eq!(shifter.next(3000), 12000);
    assert_eq!(shifter.next(6000), 15000);
    assert_eq!(shifter.next(0), 18000);
}

#[test]
fn a_stalled_first_packet_moves_by_one() {
    let mut shifter = TimelineShifter::default();
    assert_eq!(shifter.next(5), 5);
    assert_eq!(shifter.next(5), 6);
    assert_eq!(shifter.next(5), 7);
}

#[test]
fn the_timeline_ends_at_the_largest_number() {
    let mut shifter = TimelineShifter::default();
    assert_eq!(shifter.next(0), 0);
    assert_eq!(shifter.next(u64::MAX - 1), u64::MAX - 1);
    assert_eq!(shifter.next(0), u64::MAX);
    assert_eq!(shifter.next(0), u64::MAX);
}

#[test]
fn packets_without_a_time_keep_having_none() {
    let mut shifter = TimelineShifter::default();
    let first = shift_timeline(&vec![Some(0), None, Some(10)], &mut shifter);
    assert_eq!(first, vec![Some(0), None, Some(10)]);
    let second = shift_timeline(&vec![None, Some(0), Some(10)], &mut shifter);
    assert_eq!(second, vec![None, Some(20), Some(30)]);
}

#[test]
fn a_replay_that_does_not_loop_sends_each_file_once() {
    let mut cursor = ReplayCursor::new(3, false, "720p", "/c").unwrap();
    let mut sent = vec![];
    loop {
        sent.push((cursor.group_id(), cursor.file_index()));
        if cursor.advance() == ReplayStep::Finished {
            break;
        }
    }
    assert_eq!(sent, vec![(0, 0), (1, 1), (2, 2)]);
}

#[test]
fn a_replay_that_loops_repeats_the_files_under_later_groups() {
    let mut cursor = ReplayCursor::new(2, true, "720p", "/c").unwrap();
    let mut steps = vec![];
    let mut files = vec![];
    for _ in 0..5 {
        files.push(cursor.file_index());
        steps.push(cursor.advance());
    }
    assert_eq!(files, vec![0, 1, 0, 1, 0]);
    assert_eq!(
        steps,
        vec![
            ReplayStep::Next,
            ReplayStep::Wrapped,
            ReplayStep::Next,
            ReplayStep::Wrapped,
            ReplayStep::Next,
        ]
    );
    assert_eq!(cursor.group_id(), 5);
}

#[test]
fn an_empty_cache_is_not_replayed() {
    assert_eq!(
        ReplayCursor::new(0, true, "720p", "/c/720p").unwrap_err(),
        "Replay (720p): cache reports 0 GOPs in /c/720p"
    );
}
