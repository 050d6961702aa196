//! How frames lie in the buffer of a channel.
//!
//! Frames are laid one behind the other. A frame that does not fit behind the
//! last one is laid at the start of the buffer, if the frames at the front have
//! left enough room there.
use vstd::prelude::*;

verus! {

/// A part of the buffer.
pub ghost struct Region {
    pub start: int,
    pub len: int,
}

impl Region {
    pub open spec fn end(self) -> int {
        self.start + self.len
    }
}

pub open spec fn disjoint(a: Region, b: Region) -> bool {
    a.end() <= b.start || b.end() <= a.start || a.len == 0 || b.len == 0
}

/// Whether the frames before `wrap` rise from the first one on, and the frames
/// from `wrap` on rise from the start of the buffer up to, at most, the first one.
pub open spec fn ring(frames: Seq<Region>, capacity: int, wrap: int) -> bool {
    &&& 0 < wrap <= frames.len() || frames.len() == 0
    &&& forall|i: int|
        0 <= i < frames.len() ==> 0 <= (#[trigger] frames[i]).start && 0 <= frames[i].len
            && frames[i].end() <= capacity
    &&& forall|i: int, j: int|
        0 <= i < j < frames.len() && (j < wrap || wrap <= i) ==> (#[trigger] frames[i]).end() <= (
        #[trigger] frames[j]).start
    &&& forall|i: int, j: int|
        0 <= i < wrap && wrap <= j < frames.len() ==> (#[trigger] frames[j]).end() <= (
        #[trigger] frames[i]).start
}

/// Whether any frame holds a byte.
pub open spec fn holds_bytes(frames: Seq<Region>) -> bool {
    exists|i: int| 0 <= i < frames.len() && (#[trigger] frames[i]).len > 0
}

/// Whether the frames lie in the buffer without overlapping. Where the last
/// frame ends at the start of the first one, the buffer is full, or holds
/// nothing at all.
pub open spec fn laid_out(frames: Seq<Region>, capacity: int) -> bool {
    exists|wrap: int|
        #[trigger] ring(frames, capacity, wrap) && (0 < wrap < frames.len() && frames.last().end()
            == frames[0].start ==> holds_bytes(frames))
}

/// Whether the last frame lies in front of the first one.
pub open spec fn inverted(frames: Seq<Region>) -> bool {
    frames.len() > 0 && (frames.last().end() < frames[0].start || (frames.last().end()
        == frames[0].start && holds_bytes(frames)))
}

/// The length of the longest frame that fits in one piece.
pub open spec fn free(frames: Seq<Region>, capacity: int) -> int {
    if frames.len() == 0 {
        capacity
    } else if inverted(frames) {
        frames[0].start - frames.last().end()
    } else if frames[0].start > capacity - frames.last().end() {
        frames[0].start
    } else {
        capacity - frames.last().end()
    }
}

/// Where the next frame is laid.
pub open spec fn place(frames: Seq<Region>, capacity: int, len: int) -> int {
    if frames.len() == 0 {
        0
    } else if inverted(frames) || len <= capacity - frames.last().end() {
        frames.last().end()
    } else {
        0
    }
}

proof fn lemma_not_inverted(frames: Seq<Region>, capacity: int)
    requires
        laid_out(frames, capacity),
        frames.len() > 0,
        !inverted(frames),
    ensures
        ring(frames, capacity, frames.len() as int),
{
    let wrap = choose|wrap: int|
        #[trigger] ring(frames, capacity, wrap) && (0 < wrap < frames.len() && frames.last().end()
            == frames[0].start ==> holds_bytes(frames));
    if wrap < frames.len() {
        assert(frames[frames.len() - 1].end() <= frames[0].start);
    }
}

proof fn lemma_inverted(frames: Seq<Region>, capacity: int) -> (wrap: int)
    requires
        laid_out(frames, capacity),
        inverted(frames),
    ensures
        ring(frames, capacity, wrap),
        0 < wrap < frames.len(),
{
    let wrap = choose|wrap: int|
        #[trigger] ring(frames, capacity, wrap) && (0 < wrap < frames.len() && frames.last().end()
            == frames[0].start ==> holds_bytes(frames));
    if wrap == frames.len() {
        let last = frames.len() - 1;
        if last > 0 {
            assert(frames[0].end() <= frames[last].start);
        }
        if holds_bytes(frames) {
            let k = choose|k: int| 0 <= k < frames.len() && (#[trigger] frames[k]).len > 0;
            if 0 < k {
                assert(frames[0].end() <= frames[k].start);
            }
            if k < last {
                assert(frames[k].end() <= frames[last].start);
            }
        }
        assert(false);
    }
    wrap
}

/// An empty buffer is laid out.
pub proof fn lemma_laid_out_empty(capacity: int)
    ensures
        laid_out(Seq::empty(), capacity),
{
    assert(ring(Seq::empty(), capacity, 0));
}

/// Laying a frame that fits where the next frame is laid leaves the frames
/// laid out.
pub proof fn lemma_laid_out_push(frames: Seq<Region>, capacity: int, len: int)
    requires
        laid_out(frames, capacity),
        0 <= len <= free(frames, capacity),
        0 <= capacity,
    ensures
        laid_out(
            frames.push(Region { start: place(frames, capacity, len), len }),
            capacity,
        ),
{
    let start = place(frames, capacity, len);
    let more = frames.push(Region { start, len });
    let n = frames.len() as int;
    if n == 0 {
        assert(ring(more, capacity, 1));
    } else if inverted(frames) {
        let wrap = lemma_inverted(frames, capacity);
        assert(frames[n - 1].end() == start);
        assert forall|i: int, j: int|
            0 <= i < j < more.len() && (j < wrap || wrap <= i) implies (#[trigger] more[i]).end()
            <= (#[trigger] more[j]).start by {
            if j == n && i < n - 1 {
                assert(frames[i].end() <= frames[n - 1].start);
            }
        }
        assert forall|i: int, j: int| 0 <= i < wrap && wrap <= j < more.len() implies (
        #[trigger] more[j]).end() <= (#[trigger] more[i]).start by {
            if j == n && i > 0 {
                assert(frames[0].end() <= frames[i].start);
            }
        }
        assert(ring(more, capacity, wrap));
        if more.last().end() == more[0].start {
            if len > 0 {
                assert(more[n].len > 0);
            } else {
                let k = choose|k: int| 0 <= k < frames.len() && (#[trigger] frames[k]).len > 0;
                assert(more[k].len > 0);
            }
        }
    } else {
        lemma_not_inverted(frames, capacity);
        if len <= capacity - frames.last().end() {
            assert forall|i: int, j: int| 0 <= i < j < more.len() implies (#[trigger] more[i]).end()
                <= (#[trigger] more[j]).start by {
                if j == n && i < n - 1 {
                    assert(frames[i].end() <= frames[n - 1].start);
                }
            }
            assert(ring(more, capacity, n + 1));
        } else {
            assert forall|i: int, j: int| 0 <= i < n && n <= j < more.len() implies (
            #[trigger] more[j]).end() <= (#[trigger] more[i]).start by {
                if i > 0 {
                    assert(frames[0].end() <= frames[i].start);
                }
            }
            assert(ring(more, capacity, n));
            if len == 0 {
                assert(frames[n - 1].end() <= capacity);
            } else {
                assert(more[n].len > 0);
            }
        }
    }
}

/// Removing the first frame leaves the others laid out.
pub proof fn lemma_laid_out_pop_front(frames: Seq<Region>, capacity: int)
    requires
        laid_out(frames, capacity),
        frames.len() > 0,
    ensures
        laid_out(frames.skip(1), capacity),
{
    let wrap = choose|wrap: int|
        #[trigger] ring(frames, capacity, wrap) && (0 < wrap < frames.len() && frames.last().end()
            == frames[0].start ==> holds_bytes(frames));
    let fewer = frames.skip(1);
    assert forall|i: int| 0 <= i < fewer.len() implies fewer[i] == frames[i + 1] by {}
    if wrap == 1 {
        assert(ring(fewer, capacity, fewer.len() as int));
    } else {
        assert(ring(fewer, capacity, wrap - 1));
        if 0 < wrap - 1 < fewer.len() && fewer.last().end() == fewer[0].start {
            assert(frames[0].end() <= frames[1].start);
            assert(frames[frames.len() - 1].end() <= frames[0].start);
            let k = choose|k: int| 0 <= k < frames.len() && (#[trigger] frames[k]).len > 0;
            assert(fewer[k - 1].len > 0);
        }
    }
}

/// Shortening the last frame leaves the frames laid out.
pub proof fn lemma_laid_out_shrink_last(frames: Seq<Region>, capacity: int, len: int)
    requires
        laid_out(frames, capacity),
        frames.len() > 0,
        0 <= len <= frames.last().len,
    ensures
        laid_out(
            frames.drop_last().push(Region { start: frames.last().start, len }),
            capacity,
        ),
{
    let wrap = choose|wrap: int|
        #[trigger] ring(frames, capacity, wrap) && (0 < wrap < frames.len() && frames.last().end()
            == frames[0].start ==> holds_bytes(frames));
    let less = frames.drop_last().push(Region { start: frames.last().start, len });
    let n = frames.len() - 1;
    assert forall|i: int| 0 <= i < n implies less[i] == frames[i] by {}
    assert(less[n].start == frames[n].start);
    assert(less[n].end() <= frames[n].end());
    assert(ring(less, capacity, wrap));
    if 0 < wrap < less.len() && less.last().end() == less[0].start {
        assert(frames[n].end() <= frames[0].start);
        let k = choose|k: int| 0 <= k < frames.len() && (#[trigger] frames[k]).len > 0;
        assert(less[k].len > 0);
    }
}

/// Removing the last frame leaves the others laid out.
pub proof fn lemma_laid_out_drop_last(frames: Seq<Region>, capacity: int)
    requires
        laid_out(frames, capacity),
        frames.len() > 0,
    ensures
        laid_out(frames.drop_last(), capacity),
{
    let wrap = choose|wrap: int|
        #[trigger] ring(frames, capacity, wrap) && (0 < wrap < frames.len() && frames.last().end()
            == frames[0].start ==> holds_bytes(frames));
    let less = frames.drop_last();
    let n = frames.len() - 1;
    assert forall|i: int| 0 <= i < n implies less[i] == frames[i] by {}
    if wrap < n {
        assert(ring(less, capacity, wrap));
        if less.last().end() == less[0].start {
            assert(frames[n - 1].end() <= frames[n].start);
            assert(frames[n].end() <= frames[0].start);
            let k = choose|k: int| 0 <= k < frames.len() && (#[trigger] frames[k]).len > 0;
            assert(less[k].len > 0);
        }
    } else if n > 0 {
        assert(ring(less, capacity, n));
    } else {
        assert(ring(less, capacity, 0));
    }
}

/// Frames that are laid out do not overlap.
pub proof fn law_laid_out_disjoint(frames: Seq<Region>, capacity: int, i: int, j: int)
    requires
        laid_out(frames, capacity),
        0 <= i < frames.len(),
        0 <= j < frames.len(),
        i != j,
    ensures
        disjoint(frames[i], frames[j]),
        0 <= frames[i].start <= frames[i].end() <= capacity,
{
    let wrap = choose|wrap: int|
        #[trigger] ring(frames, capacity, wrap) && (0 < wrap < frames.len() && frames.last().end()
            == frames[0].start ==> holds_bytes(frames));
    let (a, b) = if i < j {
        (i, j)
    } else {
        (j, i)
    };
    if b < wrap || wrap <= a {
        assert(frames[a].end() <= frames[b].start);
    } else {
        assert(frames[b].end() <= frames[a].start);
    }
}

/// Every frame that is laid out lies within the buffer.
pub proof fn lemma_laid_out_bounds(frames: Seq<Region>, capacity: int, i: int)
    requires
        laid_out(frames, capacity),
        0 <= i < frames.len(),
    ensures
        0 <= frames[i].start,
        0 <= frames[i].len,
        frames[i].end() <= capacity,
        0 <= free(frames, capacity) <= capacity,
{
    let wrap = choose|wrap: int|
        #[trigger] ring(frames, capacity, wrap) && (0 < wrap < frames.len() && frames.last().end()
            == frames[0].start ==> holds_bytes(frames));
    assert(frames[0].start >= 0 && frames[0].end() <= capacity);
    assert(frames[frames.len() - 1].end() <= capacity);
}

/// The free space is exactly what a frame can take: a frame of that length, or
/// a shorter one, has its place within the buffer and overlaps no other frame,
/// and no longer frame does, be it behind the last frame or, where the last
/// frame lies behind the first one, at the start of the buffer.
pub proof fn law_free_space_is_what_fits(frames: Seq<Region>, capacity: int, region: Region)
    requires
        laid_out(frames, capacity),
        0 <= capacity,
        0 <= region.len,
    ensures
        frames.len() == 0 ==> free(frames, capacity) == capacity,
        region.len <= free(frames, capacity) ==> {
            let start = place(frames, capacity, region.len);
            &&& 0 <= start
            &&& start + region.len <= capacity
            &&& forall|i: int|
                0 <= i < frames.len() ==> disjoint(
                    #[trigger] frames[i],
                    Region { start, len: region.len },
                )
        },
        ({
            &&& 0 <= region.start
            &&& region.end() <= capacity
            &&& 0 < region.len
            &&& frames.len() > 0
            &&& forall|i: int| 0 <= i < frames.len() ==> (#[trigger] frames[i]).len > 0
            &&& forall|i: int| 0 <= i < frames.len() ==> disjoint(#[trigger] frames[i], region)
            &&& region.start == frames.last().end() || (region.start == 0 && frames.last().end()
                > frames[0].start)
        }) ==> region.len <= free(frames, capacity),
{
    let n = frames.len() as int;
    let start = place(frames, capacity, region.len);
    if region.len <= free(frames, capacity) {
        let laid = Region { start, len: region.len };
        let more = frames.push(laid);
        lemma_laid_out_push(frames, capacity, region.len);
        lemma_laid_out_bounds(more, capacity, n);
        assert(more[n] == laid);
        assert forall|i: int| 0 <= i < n implies disjoint(#[trigger] frames[i], laid) by {
            law_laid_out_disjoint(more, capacity, i, n);
            assert(more[i] == frames[i]);
        }
    }
    if n > 0 {
        lemma_laid_out_bounds(frames, capacity, 0);
        lemma_laid_out_bounds(frames, capacity, n - 1);
        assert(disjoint(frames[0], region) ==> frames[0].len > 0 && region.len > 0
            && region.start == 0 ==> region.end() <= frames[0].start);
    }
}

/// A frame is laid directly behind the last one if there is room for it. Only if
/// there is none up to the end of the buffer is it laid at the start of it, and
/// never if another frame has been laid there already.
pub proof fn law_frames_are_laid_one_behind_the_other(
    frames: Seq<Region>,
    capacity: int,
    len: int,
)
    requires
        laid_out(frames, capacity),
        0 < len <= free(frames, capacity),
        frames.len() > 0,
    ensures
        place(frames, capacity, len) == frames.last().end() || place(frames, capacity, len) == 0,
        frames.last().end() + len <= capacity ==> place(frames, capacity, len)
            == frames.last().end(),
        place(frames, capacity, len) != frames.last().end() ==> frames.last().end() + len
            > capacity && frames.last().end() >= frames[0].start && len <= frames[0].start,
{
    lemma_laid_out_bounds(frames, capacity, 0);
    lemma_laid_out_bounds(frames, capacity, frames.len() - 1);
}

} // verus!
