use moqtail::switch_selection::{compute_switch_group, SwitchSelection};
use std::collections::BTreeSet;

fn range_set(lo: u64, hi: u64) -> BTreeSet<u64> {
    (lo..=hi).collect()
}

fn set(ids: &[u64]) -> BTreeSet<u64> {
    ids.iter().copied().collect()
}

#[test]
fn fully_aligned_returns_floor() {
    let cur = range_set(0, 10);
    let tgt = range_set(0, 10);
    assert_eq!(
        compute_switch_group(3, &cur, &tgt, 10),
        SwitchSelection::Ready(3)
    );
}

#[test]
fn min_zero_returns_zero() {
    let cur = range_set(0, 10);
    let tgt = range_set(0, 10);
    assert_eq!(
        compute_switch_group(0, &cur, &tgt, 10),
        SwitchSelection::Ready(0)
    );
}

#[test]
fn switch_at_live_edge_is_allowed() {
    let cur = range_set(0, 10);
    let tgt = range_set(0, 10);
    assert_eq!(
        compute_switch_group(10, &cur, &tgt, 10),
        SwitchSelection::Ready(10)
    );
}

#[test]
fn min_above_all_common_groups_fails() {
    let cur = range_set(0, 10);
    let tgt = range_set(0, 10);
    assert_eq!(
        compute_switch_group(11, &cur, &tgt, 10),
        SwitchSelection::NoCommonBoundary
    );
}

#[test]
fn gap_in_target_skips_past_gap() {
    let cur = range_set(0, 10);
    let tgt = set(&[0, 1, 2, 5, 6, 7, 8, 9, 10]);
    assert_eq!(
        compute_switch_group(0, &cur, &tgt, 10),
        SwitchSelection::Ready(5)
    );
}

#[test]
fn current_missing_boundary_picks_next_common() {
    let cur = set(&[0, 1, 2, 5, 6, 7, 8, 9, 10]);
    let tgt = range_set(0, 10);
    assert_eq!(
        compute_switch_group(3, &cur, &tgt, 10),
        SwitchSelection::Ready(5)
    );
}

#[test]
fn misaligned_group_ids_fail() {
    let cur = set(&[0, 2, 4, 6]);
    let tgt = set(&[1, 3, 5, 7]);
    assert_eq!(
        compute_switch_group(0, &cur, &tgt, 7),
        SwitchSelection::NoCommonBoundary
    );
}

#[test]
fn live_edge_absent_on_target_is_not_disqualifying() {
    let cur = range_set(0, 10);
    let tgt = range_set(0, 9); // missing the live-edge group 10
    assert_eq!(
        compute_switch_group(0, &cur, &tgt, 10),
        SwitchSelection::Ready(0)
    );
}

#[test]
fn empty_target_fails() {
    let cur = range_set(0, 10);
    let tgt = BTreeSet::new();
    assert_eq!(
        compute_switch_group(0, &cur, &tgt, 10),
        SwitchSelection::NoCommonBoundary
    );
}

#[test]
fn floor_between_cached_groups_picks_first_common_above() {
    let cur = set(&[2, 4, 6, 8, 10]);
    let tgt = range_set(0, 10);
    assert_eq!(
        compute_switch_group(5, &cur, &tgt, 10),
        SwitchSelection::Ready(6)
    );
}

#[test]
fn target_tail_shorter_than_floor_still_ok_when_common() {
    let cur = range_set(0, 12);
    let tgt = range_set(8, 12);
    assert_eq!(
        compute_switch_group(6, &cur, &tgt, 12),
        SwitchSelection::Ready(8)
    );
}

#[test]
fn shared_hole_permits_smallest_boundary() {
    let cur = set(&[0, 1, 2, 5, 6, 7, 8, 9, 10]);
    let tgt = set(&[0, 1, 2, 5, 6, 7, 8, 9, 10]);
    assert_eq!(
        compute_switch_group(0, &cur, &tgt, 10),
        SwitchSelection::Ready(0)
    );
}

#[test]
fn current_hole_alone_never_blocks() {
    let cur = set(&[0, 1, 2, 5, 6, 7, 8, 9, 10]);
    let tgt = range_set(0, 10);
    assert_eq!(
        compute_switch_group(0, &cur, &tgt, 10),
        SwitchSelection::Ready(0)
    );
}

#[test]
fn blocking_ceiling_lifts_a_lower_minimum() {
    let cur = range_set(0, 10);
    let tgt = set(&[0, 1, 2, 5, 6, 7, 8, 9, 10]);
    assert_eq!(
        compute_switch_group(2, &cur, &tgt, 10),
        SwitchSelection::Ready(5)
    );
}

#[test]
fn common_boundary_at_live_edge_or_above() {
    let cur = range_set(0, 12);
    let tgt = range_set(0, 12);
    assert_eq!(
        compute_switch_group(11, &cur, &tgt, 10),
        SwitchSelection::Ready(11)
    );
}

#[test]
fn blocking_group_beyond_live_edge_is_ignored() {
    let cur = range_set(0, 10);
    let tgt = range_set(0, 7);
    assert_eq!(
        compute_switch_group(0, &cur, &tgt, 7),
        SwitchSelection::Ready(0)
    );
}

fn spec_reference(
    min_switch_group: u64,
    current_available: &BTreeSet<u64>,
    target_available: &BTreeSet<u64>,
    target_live_edge: u64,
) -> SwitchSelection {
    for &g in current_available.intersection(target_available) {
        if g < min_switch_group {
            continue;
        }
        let c_holds = (g..target_live_edge)
            .all(|gp| !current_available.contains(&gp) || target_available.contains(&gp));
        if c_holds {
            return SwitchSelection::Ready(g);
        }
    }
    SwitchSelection::NoCommonBoundary
}

#[test]
fn exhaustive_equivalence_with_spec_reference() {
    for cur_bits in 0u32..64 {
        let cur: BTreeSet<u64> = (0u64..6).filter(|g| cur_bits & (1u32 << *g) != 0).collect();
        for tgt_bits in 0u32..64 {
            let tgt: BTreeSet<u64> = (0u64..6).filter(|g| tgt_bits & (1u32 << *g) != 0).collect();
            for &live_edge in &[0u64, 3, 5, 7] {
                for &min in &[0u64, 2, 4, 6] {
                    assert_eq!(
                        compute_switch_group(min, &cur, &tgt, live_edge),
                        spec_reference(min, &cur, &tgt, live_edge),
                        "divergence: min={min} live_edge={live_edge} cur={cur:?} tgt={tgt:?}"
                    );
                }
            }
        }
    }
}
