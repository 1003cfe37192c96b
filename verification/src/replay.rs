//! Replay of cached groups of pictures.

use vstd::prelude::*;

verus! {

/// Keeps the decode times of replayed packets rising. A pass through the cache
/// starts at the times that the packets were encoded with; a packet that would
/// not follow the one before it is put one step behind that one.
#[derive(Debug, Clone, Copy)]
pub struct TimelineShifter {
    /// The last decode time that was given out.
    last_emitted: Option<u64>,
    /// The last gap between two decode times.
    step: Option<u64>,
}

impl Default for TimelineShifter {
    fn default() -> (shifter: TimelineShifter)
        ensures
            shifter.last_emitted() is None,
            shifter.step() is None,
    {
        TimelineShifter { last_emitted: None, step: None }
    }
}

/// A sum, or the largest number where it is larger.
pub open spec fn capped_sum(a: u64, b: u64) -> u64 {
    if a + b > u64::MAX {
        u64::MAX
    } else {
        (a + b) as u64
    }
}

/// The decode time of the next packet.
pub open spec fn shifted(last: Option<u64>, step: Option<u64>, original: u64) -> u64 {
    match last {
        Some(last) => if original <= last {
            capped_sum(
                last,
                match step {
                    Some(step) => step,
                    None => 1,
                },
            )
        } else {
            original
        },
        None => original,
    }
}

/// The gap that is known once a packet has been given `emitted`.
pub open spec fn learned_step(last: Option<u64>, step: Option<u64>, emitted: u64) -> Option<u64> {
    match last {
        Some(last) => if emitted > last {
            Some((emitted - last) as u64)
        } else {
            step
        },
        None => step,
    }
}

impl TimelineShifter {
    #[verifier::type_invariant]
    spec fn wf(self) -> bool {
        self.step matches Some(step) ==> step > 0
    }

    pub closed spec fn last_emitted(&self) -> Option<u64> {
        self.last_emitted
    }

    pub closed spec fn step(&self) -> Option<u64> {
        self.step
    }

    /// Returns the decode time that a packet gets, given the one that it was
    /// encoded with. It follows the last one, as long as there are numbers left.
    pub fn next(&mut self, original: u64) -> (emitted: u64)
        ensures
            emitted == shifted(old(self).last_emitted(), old(self).step(), original),
            final(self).last_emitted() == Some(emitted),
            final(self).step() == learned_step(
                old(self).last_emitted(),
                old(self).step(),
                emitted,
            ),
            old(self).last_emitted() matches Some(last) ==> emitted > last || last == u64::MAX,
    {
        proof {
            use_type_invariant(&*self);
        }
        let emitted: u64 = match self.last_emitted {
            Some(last) => if original <= last {
                let step: u64 = match self.step {
                    Some(step) => step,
                    None => 1,
                };
                last.saturating_add(step)
            } else {
                original
            },
            None => original,
        };
        let step: Option<u64> = match self.last_emitted {
            Some(last) => if emitted > last {
                Some(emitted - last)
            } else {
                self.step
            },
            None => self.step,
        };
        *self = TimelineShifter { last_emitted: Some(emitted), step };
        emitted
    }
}

/// The decode times of packets after shifting: `None` for a packet that has
/// none, and the state of the shifter behind them.
pub open spec fn shifted_times(
    last: Option<u64>,
    step: Option<u64>,
    originals: Seq<Option<u64>>,
) -> (Option<u64>, Option<u64>, Seq<Option<u64>>)
    decreases originals.len(),
{
    if originals.len() == 0 {
        (last, step, Seq::empty())
    } else {
        let (last, step, times) = shifted_times(last, step, originals.drop_last());
        match originals.last() {
            Some(original) => {
                let emitted = shifted(last, step, original);
                (Some(emitted), learned_step(last, step, emitted), times.push(Some(emitted)))
            },
            None => (last, step, times.push(None)),
        }
    }
}

/// Shifts the decode times of the packets of a group. Packets without one keep
/// having none.
pub fn shift_timeline(originals: &Vec<Option<u64>>, shifter: &mut TimelineShifter) -> (times: Vec<
    Option<u64>,
>)
    ensures
        (final(shifter).last_emitted(), final(shifter).step(), times@) == shifted_times(
            old(shifter).last_emitted(),
            old(shifter).step(),
            originals@,
        ),
{
    let mut times: Vec<Option<u64>> = Vec::new();
    let mut i: usize = 0;
    let ghost last = shifter.last_emitted();
    let ghost step = shifter.step();
    while i < originals.len()
        invariant
            i <= originals@.len(),
            (shifter.last_emitted(), shifter.step(), times@) == shifted_times(
                last,
                step,
                originals@.take(i as int),
            ),
        decreases originals@.len() - i,
    {
        proof {
            assert(originals@.take(i + 1).drop_last() =~= originals@.take(i as int));
        }
        match originals[i] {
            Some(original) => {
                let emitted: u64 = shifter.next(original);
                times.push(Some(emitted));
            },
            None => {
                times.push(None);
            },
        }
        i = i + 1;
    }
    proof {
        assert(originals@.take(i as int) =~= originals@);
    }
    times
}

/// The decode times that there are, in order.
pub open spec fn known_times(times: Seq<Option<u64>>) -> Seq<u64>
    decreases times.len(),
{
    if times.len() == 0 {
        Seq::empty()
    } else {
        match times.last() {
            Some(time) => known_times(times.drop_last()).push(time),
            None => known_times(times.drop_last()),
        }
    }
}

proof fn lemma_timeline_rises(last: Option<u64>, step: Option<u64>, originals: Seq<Option<u64>>)
    requires
        step matches Some(step) ==> step > 0,
    ensures
        ({
            let (end, gap, times) = shifted_times(last, step, originals);
            let known = known_times(times);
            &&& times.len() == originals.len()
            &&& gap matches Some(gap) ==> gap > 0
            &&& known.len() > 0 ==> end == Some(known.last())
            &&& known.len() == 0 ==> end == last
            &&& forall|i: int, j: int|
                0 <= i < j < known.len() ==> #[trigger] known[i] < #[trigger] known[j] || known[i]
                    == u64::MAX
            &&& last matches Some(last) ==> forall|i: int|
                0 <= i < known.len() ==> last < #[trigger] known[i] || last == u64::MAX
        }),
    decreases originals.len(),
{
    if originals.len() > 0 {
        let before = originals.drop_last();
        lemma_timeline_rises(last, step, before);
        let (end, gap, times) = shifted_times(last, step, before);
        let all = shifted_times(last, step, originals).2;
        assert(all.drop_last() =~= times);
    }
}

/// Across any number of packets and passes through the cache, each decode time
/// is later than the ones before it, until the largest number is reached.
pub proof fn law_timeline_rises(originals: Seq<Option<u64>>, i: int, j: int)
    requires
        0 <= i < j < known_times(shifted_times(None, None, originals).2).len(),
    ensures
        ({
            let known = known_times(shifted_times(None, None, originals).2);
            known[i] < known[j] || known[i] == u64::MAX
        }),
{
    lemma_timeline_rises(None, None, originals);
}

/// A packet that already follows the last one keeps its decode time.
pub proof fn law_rising_times_are_kept(last: Option<u64>, step: Option<u64>, original: u64)
    ensures
        last is None ==> shifted(last, step, original) == original,
        last matches Some(last) ==> original > last ==> shifted(Some(last), step, original)
            == original,
{
}

/// What follows a group of pictures.
#[derive(Debug, Clone, Copy, PartialEq, Eq, Structural)]
pub enum ReplayStep {
    /// The next file.
    Next,
    /// The first file again.
    Wrapped,
    /// Nothing: each file was sent once.
    Finished,
}

/// Where a replay stands.
#[derive(Debug, Clone, Copy)]
pub struct ReplayCursor {
    gops_per_variant: u64,
    loop_replay: bool,
    group_id: u64,
}

/// A replay of an empty cache.
pub open spec fn empty_cache_text(label: Seq<char>, variant_dir: Seq<char>) -> Seq<char> {
    "Replay ("@ + label + "): cache reports 0 GOPs in "@ + variant_dir
}

impl ReplayCursor {
    #[verifier::type_invariant]
    spec fn wf(self) -> bool {
        self.gops_per_variant > 0
    }

    pub closed spec fn spec_gops_per_variant(&self) -> u64 {
        self.gops_per_variant
    }

    pub closed spec fn loops(&self) -> bool {
        self.loop_replay
    }

    pub closed spec fn spec_group_id(&self) -> u64 {
        self.group_id
    }

    /// The file that is read for a group.
    pub open spec fn spec_file_index(&self) -> u64 {
        self.spec_group_id() % self.spec_gops_per_variant()
    }

    /// What comes behind the current group.
    pub open spec fn spec_step(&self) -> ReplayStep {
        if self.spec_file_index() + 1 < self.spec_gops_per_variant() {
            ReplayStep::Next
        } else if self.loops() {
            ReplayStep::Wrapped
        } else {
            ReplayStep::Finished
        }
    }

    /// Starts a replay with the first file, unless there is none.
    pub fn new(
        gops_per_variant: u64,
        loop_replay: bool,
        label: &str,
        variant_dir: &str,
    ) -> (result: Result<ReplayCursor, String>)
        ensures
            match result {
                Ok(cursor) => {
                    &&& gops_per_variant > 0
                    &&& cursor.spec_gops_per_variant() == gops_per_variant
                    &&& cursor.loops() == loop_replay
                    &&& cursor.spec_group_id() == 0
                },
                Err(text) => gops_per_variant == 0 && text@ == empty_cache_text(
                    label@,
                    variant_dir@,
                ),
            },
    {
        if gops_per_variant == 0 {
            let mut text: String = "Replay (".to_owned();
            text.append(label);
            text.append("): cache reports 0 GOPs in ");
            text.append(variant_dir);
            return Err(text);
        }
        Ok(ReplayCursor { gops_per_variant, loop_replay, group_id: 0 })
    }

    /// The group to send next.
    #[verifier::when_used_as_spec(spec_group_id)]
    pub fn group_id(&self) -> (group_id: u64)
        ensures
            group_id == self.spec_group_id(),
    {
        self.group_id
    }

    /// The file to read for it.
    pub fn file_index(&self) -> (index: u64)
        ensures
            index == self.spec_file_index(),
            index < self.spec_gops_per_variant(),
    {
        proof {
            use_type_invariant(self);
        }
        self.group_id % self.gops_per_variant
    }

    /// Goes on to the next group, once one has been sent.
    pub fn advance(&mut self) -> (step: ReplayStep)
        requires
            old(self).spec_group_id() < u64::MAX,
        ensures
            final(self).spec_group_id() == old(self).spec_group_id() + 1,
            final(self).spec_gops_per_variant() == old(self).spec_gops_per_variant(),
            final(self).loops() == old(self).loops(),
            step == if old(self).spec_file_index() + 1 < old(self).spec_gops_per_variant() {
                ReplayStep::Next
            } else if old(self).loops() {
                ReplayStep::Wrapped
            } else {
                ReplayStep::Finished
            },
            step == old(self).spec_step(),
    {
        proof {
            use_type_invariant(&*self);
        }
        let file_index: u64 = self.group_id % self.gops_per_variant;
        let last: bool = file_index == self.gops_per_variant - 1;
        self.group_id = self.group_id + 1;
        if !last {
            ReplayStep::Next
        } else if self.loop_replay {
            ReplayStep::Wrapped
        } else {
            ReplayStep::Finished
        }
    }
}

/// In the first pass each file is sent under its own index, and the pass is over
/// behind the last file: a replay that does not loop sends each file once.
pub proof fn law_each_file_is_sent_once(gops_per_variant: u64, group_id: u64)
    requires
        group_id < gops_per_variant,
    ensures
        group_id % gops_per_variant == group_id,
        group_id + 1 < gops_per_variant <==> (group_id % gops_per_variant) + 1 < gops_per_variant,
{
    vstd::arithmetic::div_mod::lemma_small_mod(group_id as nat, gops_per_variant as nat);
}

/// A replay that loops sends the same file again once all the others have been
/// sent, under a later group.
pub proof fn law_files_repeat(gops_per_variant: u64, group_id: u64)
    requires
        gops_per_variant > 0,
        group_id + gops_per_variant <= u64::MAX,
    ensures
        (group_id + gops_per_variant) as u64 % gops_per_variant == group_id % gops_per_variant,
{
    vstd::arithmetic::div_mod::lemma_mod_add_multiples_vanish(
        group_id as int,
        gops_per_variant as int,
    );
}

/// A time that does not rise is put one step behind the last one: by the step that was
/// learned, or by one where none was. The sum stays at the largest time.
pub proof fn law_falling_times_go_on_by_the_step(last: u64, step: Option<u64>, original: u64)
    requires
        original <= last,
    ensures
        step is None && last < u64::MAX ==> shifted(Some(last), step, original) == last + 1,
        step matches Some(step) ==> (last + step <= u64::MAX ==> shifted(
            Some(last),
            Some(step),
            original,
        ) == last + step),
        step matches Some(step) ==> (last + step > u64::MAX ==> shifted(
            Some(last),
            Some(step),
            original,
        ) == u64::MAX),
{
}

/// The step is the distance between the last two times that went out, and stays while
/// the time does not rise.
pub proof fn law_step_is_the_last_distance(last: u64, step: Option<u64>, emitted: u64)
    ensures
        emitted > last ==> learned_step(Some(last), step, emitted) == Some((emitted - last) as u64),
        emitted <= last ==> learned_step(Some(last), step, emitted) == step,
        learned_step(None, step, emitted) == step,
{
}

/// Where a recording starts over, its times go on at the distance of the last two.
pub proof fn law_a_restart_keeps_the_pace(before: u64, last: u64, step: Option<u64>, restart: u64)
    requires
        before < last,
        restart <= last,
        2 * last - before <= u64::MAX,
    ensures
        ({
            let pace = learned_step(Some(before), step, last);
            shifted(Some(last), pace, restart) - last == last - before
        }),
{
}

/// Two stretches that are shifted one after the other come out as the two together, and
/// an unknown time stays unknown in its place.
pub proof fn law_stretches_are_shifted_in_turn(
    last: Option<u64>,
    step: Option<u64>,
    first: Seq<Option<u64>>,
    second: Seq<Option<u64>>,
)
    ensures
        ({
            let (mid_last, mid_step, mid) = shifted_times(last, step, first);
            let (end_last, end_step, end) = shifted_times(mid_last, mid_step, second);
            shifted_times(last, step, first + second) == (end_last, end_step, mid + end)
        }),
    decreases second.len(),
{
    let (mid_last, mid_step, mid) = shifted_times(last, step, first);
    if second.len() == 0 {
        assert(first + second =~= first);
        assert(mid + Seq::<Option<u64>>::empty() =~= mid);
    } else {
        law_stretches_are_shifted_in_turn(last, step, first, second.drop_last());
        assert((first + second).drop_last() =~= first + second.drop_last());
        let (end_last, end_step, end) = shifted_times(mid_last, mid_step, second.drop_last());
        match second.last() {
            Some(original) => {
                let emitted = shifted(end_last, end_step, original);
                assert((mid + end).push(Some(emitted)) =~= mid + end.push(Some(emitted)));
            },
            None => {
                assert((mid + end).push(None) =~= mid + end.push(None));
            },
        }
    }
}

/// A single time is shifted by itself, and an unknown one changes nothing.
pub proof fn law_single_times_are_shifted_alone(
    last: Option<u64>,
    step: Option<u64>,
    original: u64,
)
    ensures
        shifted_times(last, step, seq![Some(original)]).2 == seq![
            Some(shifted(last, step, original)),
        ],
        shifted_times(last, step, seq![Some(original)]).0 == Some(shifted(last, step, original)),
        shifted_times(last, step, seq![None::<u64>]) == (last, step, seq![None::<u64>]),
        shifted_times(last, step, Seq::<Option<u64>>::empty()) == (
            last,
            step,
            Seq::<Option<u64>>::empty(),
        ),
{
    reveal_with_fuel(shifted_times, 2);
    assert(seq![Some(original)].drop_last() =~= Seq::<Option<u64>>::empty());
    assert(seq![None::<u64>].drop_last() =~= Seq::<Option<u64>>::empty());
    let emitted = shifted(last, step, original);
    assert(Seq::<Option<u64>>::empty().push(Some(emitted)) =~= seq![Some(emitted)]);
    assert(Seq::<Option<u64>>::empty().push(None) =~= seq![None::<u64>]);
}

/// The file of a group is its place within the current pass over the files, and the
/// pass ends where the next group would begin at the first file again.
pub proof fn law_passes_go_over_all_files(cursor: ReplayCursor)
    requires
        cursor.spec_gops_per_variant() > 0,
    ensures
        cursor.spec_file_index() < cursor.spec_gops_per_variant(),
        (cursor.spec_group_id() - cursor.spec_file_index()) % (
        cursor.spec_gops_per_variant() as int) == 0,
        cursor.spec_step() is Next <==> (cursor.spec_group_id() + 1) % (
        cursor.spec_gops_per_variant() as int) != 0,
        cursor.spec_step() is Wrapped ==> cursor.loops(),
        cursor.spec_step() is Finished ==> !cursor.loops(),
{
    let group = cursor.spec_group_id() as int;
    let count = cursor.spec_gops_per_variant() as int;
    let index = group % count;
    vstd::arithmetic::div_mod::lemma_fundamental_div_mod(group, count);
    let pass = group / count;
    assert(group == count * pass + index);
    vstd::arithmetic::div_mod::lemma_mod_multiples_vanish(pass, index, count);
    vstd::arithmetic::div_mod::lemma_mod_multiples_vanish(pass, 0, count);
    vstd::arithmetic::div_mod::lemma_mod_multiples_vanish(pass, index + 1, count);
    assert(0int % count == 0) by {
        vstd::arithmetic::div_mod::lemma_small_mod(0, count as nat);
    }
    if index + 1 < count {
        vstd::arithmetic::div_mod::lemma_small_mod((index + 1) as nat, count as nat);
    } else {
        assert(index + 1 == count);
        vstd::arithmetic::div_mod::lemma_mod_self_0(count);
    }
}

} // verus!
