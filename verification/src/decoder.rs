//! Decoded frames, put together to groups of pictures.

use bytes::Bytes;
use vstd::prelude::*;

verus! {

/// A group of decoded frames.
#[derive(Debug, Clone)]
pub struct RawGop {
    pub gop_id: u64,
    pub frames: Vec<Bytes>,
}

/// Puts decoded frames together to groups.
#[derive(Debug, Clone)]
pub struct GopAssembler {
    gop_size: usize,
    gop_id: u64,
    frames: Vec<Bytes>,
}

impl GopAssembler {
    /// How many frames make a group.
    pub closed spec fn size(&self) -> usize {
        self.gop_size
    }

    /// The next group.
    pub closed spec fn next_id(&self) -> u64 {
        self.gop_id
    }

    /// The frames that are waiting for their group to be full.
    pub closed spec fn waiting(&self) -> Seq<Bytes> {
        self.frames@
    }

    /// Starts with the first group, of `gop_size` frames each.
    pub fn new(gop_size: usize) -> (assembler: GopAssembler)
        ensures
            assembler.size() == gop_size,
            assembler.next_id() == 0,
            assembler.waiting() == Seq::<Bytes>::empty(),
    {
        GopAssembler { gop_size, gop_id: 0, frames: Vec::new() }
    }

    /// Takes the next frame. Returns the group that it fills, if it does.
    pub fn push(&mut self, frame: Bytes) -> (gop: Option<RawGop>)
        requires
            old(self).next_id() < u64::MAX,
        ensures
            final(self).size() == old(self).size(),
            gop is Some <==> old(self).waiting().len() + 1 >= old(self).size(),
            match gop {
                Some(gop) => {
                    &&& gop.gop_id == old(self).next_id()
                    &&& gop.frames@ == old(self).waiting().push(frame)
                    &&& final(self).waiting() == Seq::<Bytes>::empty()
                    &&& final(self).next_id() == old(self).next_id() + 1
                },
                None => {
                    &&& final(self).waiting() == old(self).waiting().push(frame)
                    &&& final(self).next_id() == old(self).next_id()
                },
            },
    {
        self.frames.push(frame);
        if self.frames.len() >= self.gop_size {
            self.cut()
        } else {
            None
        }
    }

    /// Ends a pass through the source. Returns the frames that are waiting as a
    /// group of their own, if there are any.
    pub fn finish(&mut self) -> (gop: Option<RawGop>)
        requires
            old(self).next_id() < u64::MAX,
        ensures
            final(self).size() == old(self).size(),
            final(self).waiting() == Seq::<Bytes>::empty(),
            match gop {
                Some(gop) => {
                    &&& old(self).waiting().len() > 0
                    &&& gop.gop_id == old(self).next_id()
                    &&& gop.frames@ == old(self).waiting()
                    &&& final(self).next_id() == old(self).next_id() + 1
                },
                None => {
                    &&& old(self).waiting().len() == 0
                    &&& final(self).next_id() == old(self).next_id()
                },
            },
    {
        if self.frames.len() > 0 {
            self.cut()
        } else {
            None
        }
    }

    /// Takes the frames of a whole pass through the source, and ends it. Returns
    /// its groups, numbered from the next group on.
    pub fn take_pass(&mut self, frames: Vec<Bytes>) -> (gops: Vec<RawGop>)
        requires
            old(self).waiting() == Seq::<Bytes>::empty(),
            old(self).next_id() + frames.len() < u64::MAX,
        ensures
            final(self).size() == old(self).size(),
            final(self).waiting() == Seq::<Bytes>::empty(),
            final(self).next_id() == old(self).next_id() + gops.len(),
            group_frames(gops@) == pass_groups(frames@, old(self).size()),
            forall|i: int|
                0 <= i < gops.len() ==> (#[trigger] gops@[i]).gop_id == old(self).next_id() + i,
    {
        let ghost size = self.size();
        let ghost first = self.next_id();
        let ghost all = frames@;
        let mut gops: Vec<RawGop> = Vec::new();
        for frame in iter: frames
            invariant
                iter.seq() == all,
                self.size() == size,
                gops.len() <= iter.index(),
                first + all.len() < u64::MAX,
                self.next_id() == first + gops.len(),
                (group_frames(gops@), self.waiting()) == filled_groups(
                    all.take(iter.index() as int),
                    size,
                ),
                forall|i: int| 0 <= i < gops.len() ==> (#[trigger] gops@[i]).gop_id == first + i,
        {
            let ghost n = iter.index() as int;
            let ghost before = group_frames(gops@);
            proof {
                assert(all.take(n + 1).drop_last() =~= all.take(n));
                assert(all.take(n + 1).last() == frame);
            }
            if let Some(gop) = self.push(frame) {
                gops.push(gop);
                proof {
                    assert(group_frames(gops@) =~= before.push(gop.frames@));
                }
            }
        }
        proof {
            assert(all.take(all.len() as int) =~= all);
        }
        let ghost full = group_frames(gops@);
        if let Some(gop) = self.finish() {
            gops.push(gop);
            proof {
                assert(group_frames(gops@) =~= full.push(gop.frames@));
            }
        }
        gops
    }

    fn cut(&mut self) -> (gop: Option<RawGop>)
        requires
            old(self).next_id() < u64::MAX,
        ensures
            final(self).size() == old(self).size(),
            final(self).waiting() == Seq::<Bytes>::empty(),
            final(self).next_id() == old(self).next_id() + 1,
            gop matches Some(gop) && gop.gop_id == old(self).next_id() && gop.frames@ == old(
                self,
            ).waiting(),
    {
        let mut frames: Vec<Bytes> = Vec::new();
        std::mem::swap(&mut frames, &mut self.frames);
        let gop_id: u64 = self.gop_id;
        self.gop_id = gop_id + 1;
        Some(RawGop { gop_id, frames })
    }
}

/// What a pass through a source gives: the groups that its frames fill, and the
/// frames that are left waiting.
pub open spec fn filled_groups(frames: Seq<Bytes>, size: usize) -> (Seq<Seq<Bytes>>, Seq<Bytes>)
    decreases frames.len(),
{
    if frames.len() == 0 {
        (Seq::empty(), Seq::empty())
    } else {
        let (full, waiting) = filled_groups(frames.drop_last(), size);
        let waiting = waiting.push(frames.last());
        if waiting.len() >= size {
            (full.push(waiting), Seq::empty())
        } else {
            (full, waiting)
        }
    }
}

/// The groups of a whole pass: those that its frames fill, and one more of the
/// frames that are left waiting, if there are any.
pub open spec fn pass_groups(frames: Seq<Bytes>, size: usize) -> Seq<Seq<Bytes>> {
    let (full, waiting) = filled_groups(frames, size);
    if waiting.len() == 0 {
        full
    } else {
        full.push(waiting)
    }
}

/// The frames of each group.
pub open spec fn group_frames(gops: Seq<RawGop>) -> Seq<Seq<Bytes>> {
    Seq::new(gops.len(), |i: int| gops[i].frames@)
}

/// The frames of all groups, in order.
pub open spec fn all_frames(groups: Seq<Seq<Bytes>>) -> Seq<Bytes>
    decreases groups.len(),
{
    if groups.len() == 0 {
        Seq::empty()
    } else {
        all_frames(groups.drop_last()) + groups.last()
    }
}

proof fn lemma_groups_hold_every_frame(frames: Seq<Bytes>, size: usize)
    ensures
        all_frames(filled_groups(frames, size).0) + filled_groups(frames, size).1 == frames,
    decreases frames.len(),
{
    if frames.len() > 0 {
        lemma_groups_hold_every_frame(frames.drop_last(), size);
        let (full, waiting) = filled_groups(frames.drop_last(), size);
        let more = waiting.push(frames.last());
        assert(full.push(more).drop_last() =~= full);
        assert(frames.drop_last().push(frames.last()) =~= frames);
        assert(all_frames(full) + more =~= (all_frames(full) + waiting).push(frames.last()));
        assert(all_frames(full.push(more)) =~= all_frames(full) + more);
        assert(all_frames(full.push(more)) + Seq::<Bytes>::empty() =~= frames);
    } else {
        assert(all_frames(filled_groups(frames, size).0) + filled_groups(frames, size).1
            =~= frames);
    }
}

/// No frame is lost or moved: the groups of a pass hold its frames in order.
pub proof fn law_groups_hold_every_frame(frames: Seq<Bytes>, size: usize)
    ensures
        all_frames(pass_groups(frames, size)) == frames,
{
    lemma_groups_hold_every_frame(frames, size);
    let (full, waiting) = filled_groups(frames, size);
    assert(full.push(waiting).drop_last() =~= full);
    assert(all_frames(full) + Seq::<Bytes>::empty() =~= all_frames(full));
}

proof fn lemma_groups_are_full(frames: Seq<Bytes>, size: usize)
    requires
        size > 0,
    ensures
        filled_groups(frames, size).1.len() < size,
        forall|i: int|
            0 <= i < filled_groups(frames, size).0.len() ==> (#[trigger] filled_groups(
                frames,
                size,
            ).0[i]).len() == size,
    decreases frames.len(),
{
    if frames.len() > 0 {
        lemma_groups_are_full(frames.drop_last(), size);
    }
}

/// Every group of a pass but the last has the size of a group, and the last has
/// at least one frame and no more than that.
pub proof fn law_groups_are_full(frames: Seq<Bytes>, size: usize)
    requires
        size > 0,
    ensures
        forall|i: int|
            0 <= i < pass_groups(frames, size).len() - 1 ==> (#[trigger] pass_groups(
                frames,
                size,
            )[i]).len() == size,
        pass_groups(frames, size).len() > 0 ==> 0 < pass_groups(frames, size).last().len() <= size,
{
    lemma_groups_are_full(frames, size);
    let (full, waiting) = filled_groups(frames, size);
    if waiting.len() > 0 {
        assert forall|i: int| 0 <= i < full.len() implies (#[trigger] full.push(waiting)[i]).len()
            == size by {
            assert(full[i].len() == size);
        }
    }
}

/// Whether any pipeline still takes groups, given which of them took the last
/// one.
pub fn any_alive(delivered: &Vec<bool>) -> (alive: bool)
    ensures
        alive == delivered@.contains(true),
{
    let mut i: usize = 0;
    while i < delivered.len()
        invariant
            i <= delivered@.len(),
            forall|k: int| 0 <= k < i ==> !#[trigger] delivered@[k],
        decreases delivered@.len() - i,
    {
        if delivered[i] {
            return true;
        }
        i = i + 1;
    }
    false
}

proof fn lemma_frames_in_order(frames: Seq<Bytes>, size: usize)
    requires
        size > 0,
    ensures
        ({
            let (full, waiting) = filled_groups(frames, size);
            &&& full.len() * size + waiting.len() == frames.len()
            &&& waiting.len() < size
            &&& forall|i: int| 0 <= i < full.len() ==> (#[trigger] full[i]).len() == size
            &&& forall|i: int, j: int|
                0 <= i < full.len() && 0 <= j < size ==> #[trigger] full[i][j] == frames[i * size
                    + j]
            &&& forall|j: int|
                0 <= j < waiting.len() ==> #[trigger] waiting[j] == frames[full.len() * size + j]
        }),
    decreases frames.len(),
{
    if frames.len() > 0 {
        let before = frames.drop_last();
        lemma_frames_in_order(before, size);
        let (full, waiting) = filled_groups(before, size);
        let grown = waiting.push(frames.last());
        let (after, left) = filled_groups(frames, size);
        assert forall|i: int, j: int| 0 <= i < full.len() && 0 <= j < size implies full[i][j]
            == frames[i * size + j] by {
            assert(full[i][j] == before[i * size + j]);
            assert(0 <= i * size + j < full.len() * size) by (nonlinear_arith)
                requires
                    0 <= i < full.len(),
                    0 <= j < size,
            ;
        }
        assert(full.len() * size >= 0) by (nonlinear_arith)
            requires
                full.len() >= 0,
                size >= 0,
        ;
        assert forall|j: int| 0 <= j < grown.len() implies grown[j] == frames[full.len() * size
            + j] by {
            if j < waiting.len() {
                assert(waiting[j] == before[full.len() * size + j]);
            }
        }
        assert((full.len() + 1) * size == full.len() * size + size) by (nonlinear_arith);
        if grown.len() >= size {
            assert(after =~= full.push(grown));
            assert forall|i: int, j: int| 0 <= i < after.len() && 0 <= j < size implies #[trigger]
            after[i][j] == frames[i * size + j] by {
                if i < full.len() {
                    assert(after[i] == full[i]);
                    assert(full[i][j] == frames[i * size + j]);
                } else {
                    assert(grown[j] == frames[full.len() * size + j]);
                }
            }
        }
    } else {
        assert(0 * size == 0) by (nonlinear_arith);
    }
}

/// Groups are cut in order: the frame at a place of a group is the one that came so many
/// full groups and places into the pass.
pub proof fn law_groups_are_cut_in_order(frames: Seq<Bytes>, size: usize, i: int, j: int)
    requires
        size > 0,
        0 <= i < pass_groups(frames, size).len(),
        0 <= j < pass_groups(frames, size)[i].len(),
    ensures
        0 <= i * size + j < frames.len(),
        pass_groups(frames, size)[i][j] == frames[i * size + j],
{
    lemma_frames_in_order(frames, size);
    let (full, waiting) = filled_groups(frames, size);
    if i < full.len() {
        assert(full[i][j] == frames[i * size + j]);
        assert(0 <= i * size + j < full.len() * size) by (nonlinear_arith)
            requires
                0 <= i < full.len(),
                0 <= j < size,
        ;
    } else {
        assert(waiting[j] == frames[full.len() * size + j]);
        assert(full.len() * size >= 0) by (nonlinear_arith)
            requires
                full.len() >= 0,
                size >= 0,
        ;
    }
}

/// With a size of none or one, each frame is a group of its own.
pub proof fn law_small_sizes_cut_every_frame(frames: Seq<Bytes>, size: usize, i: int)
    requires
        size <= 1,
    ensures
        pass_groups(frames, size).len() == frames.len(),
        0 <= i < frames.len() ==> pass_groups(frames, size)[i] == seq![frames[i]],
        filled_groups(frames, size).1.len() == 0,
    decreases frames.len(),
{
    if frames.len() > 0 {
        law_small_sizes_cut_every_frame(frames.drop_last(), size, i);
        let (full, waiting) = filled_groups(frames.drop_last(), size);
        assert(waiting.push(frames.last()) =~= seq![frames.last()]);
        if 0 <= i < frames.len() - 1 {
            assert(frames.drop_last()[i] == frames[i]);
        }
    }
}

} // verus!
