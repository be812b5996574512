//! Reassembly of video frames on the client, with a time limit on incomplete
//! frames.
use crate::fragments::{
    after_arrivals, all_filled, concat, covers, in_range, joined, law_all_arrivals_give_the_frame,
    law_arrivals_fill_their_slots, law_missing_fragment_keeps_frame_open, lemma_one_more_arrival,
    no_fragments, stored, FragmentSlots,
};
use crate::protocol::VideoFrameHeader;
use crate::types::now_us;
use crate::udp::keys_of;
use std::collections::HashMap;
use vstd::prelude::*;

verus! {

broadcast use vstd::std_specs::hash::group_hash_axioms;

/// How long an incomplete frame is kept: 200 milliseconds.
pub const MAX_FRAME_AGE_US: u64 = 200_000;

/// A frame of which some fragments have come.
pub struct PendingFrame {
    header: VideoFrameHeader,
    fragments: FragmentSlots,
    first_received_us: u64,
}

/// What is known of a frame of which some fragments have come.
pub struct PendingFrameView {
    pub header: VideoFrameHeader,
    pub fragments: Seq<Option<Seq<u8>>>,
    pub first_received_us: u64,
}

impl View for PendingFrame {
    type V = PendingFrameView;

    closed spec fn view(&self) -> PendingFrameView {
        PendingFrameView {
            header: self.header,
            fragments: self.fragments@,
            first_received_us: self.first_received_us,
        }
    }
}

/// Microseconds from `start` to `now` on a clock of 64 bits. A start that lies
/// in the future counts as very long ago.
pub open spec fn age_us(now: u64, start: u64) -> int {
    if now >= start {
        now - start
    } else {
        now - start + 0x1_0000_0000_0000_0000
    }
}

/// The pending frames that are younger than `max_age` at `now`.
pub open spec fn young(m: Map<u64, PendingFrameView>, now: u64, max_age: u64) -> Map<
    u64,
    PendingFrameView,
> {
    Map::new(
        |n: u64| m.contains_key(n) && age_us(now, m[n].first_received_us) < max_age,
        |n: u64| m[n],
    )
}

/// The state of a frame before a fragment with header `h` is stored.
pub open spec fn pending_or_new(
    m: Map<u64, PendingFrameView>,
    h: VideoFrameHeader,
    now: u64,
) -> PendingFrameView {
    if m.contains_key(h.frame_number) {
        m[h.frame_number]
    } else {
        PendingFrameView {
            header: h,
            fragments: no_fragments(h.fragment_count as nat),
            first_received_us: now,
        }
    }
}

/// The state of a frame after a fragment with header `h` came in. A fragment
/// that is stored and marked as a keyframe marks the frame.
pub open spec fn pending_with(
    m: Map<u64, PendingFrameView>,
    h: VideoFrameHeader,
    data: Seq<u8>,
    now: u64,
) -> PendingFrameView {
    let p = pending_or_new(m, h, now);
    let i = h.fragment_index as int;
    if 0 <= i < p.fragments.len() && p.fragments[i] is None {
        PendingFrameView {
            header: VideoFrameHeader {
                is_keyframe: p.header.is_keyframe || h.is_keyframe,
                ..p.header
            },
            fragments: stored(p.fragments, i, data),
            ..p
        }
    } else {
        p
    }
}

/// Reassembles fragmented video frames.
pub struct FrameReassembler {
    /// In-progress frames by number.
    pub pending_frames: HashMap<u64, PendingFrame>,
    /// Number of the frame that was completed last.
    pub last_completed_frame: u64,
    /// Age from which an incomplete frame is given up.
    pub max_age_us: u64,
}

impl View for FrameReassembler {
    type V = Map<u64, PendingFrameView>;

    open spec fn view(&self) -> Map<u64, PendingFrameView> {
        self.pending_frames@.map_values(|p: PendingFrame| p@)
    }
}

/// Whether a reassembler that completed frame `last` looks at a fragment. Frame
/// `last` itself is still looked at: frame 0 is valid at the start.
pub open spec fn is_current_frame(last: u64, h: VideoFrameHeader) -> bool {
    h.frame_number >= last
}

/// What a fragment that comes in at `now` does: frames that are too old are
/// given up first; then a fragment of an outdated frame is dropped, a frame of
/// one fragment is handed out at once, and any other fragment is stored, its
/// frame being handed out once complete.
pub open spec fn is_outcome(
    before: FrameReassembler,
    after: FrameReassembler,
    h: VideoFrameHeader,
    data: Seq<u8>,
    now: u64,
    r: Option<(VideoFrameHeader, Vec<u8>)>,
) -> bool {
    let m = young(before@, now, before.max_age_us);
    let p = pending_with(m, h, data, now);
    &&& after.max_age_us == before.max_age_us
    &&& if !is_current_frame(before.last_completed_frame, h) {
        &&& r is None
        &&& after@ == m
        &&& after.last_completed_frame == before.last_completed_frame
    } else if h.fragment_count == 1 {
        &&& r is Some
        &&& (r->0).0 == h
        &&& (r->0).1@ == data
        &&& after@ == m
        &&& after.last_completed_frame == h.frame_number
    } else if all_filled(p.fragments) {
        &&& r is Some
        &&& (r->0).0 == p.header
        &&& (r->0).1@ == joined(p.fragments)
        &&& after@ == m.remove(h.frame_number)
        &&& after.last_completed_frame == h.frame_number
    } else {
        &&& r is None
        &&& after@ == m.insert(h.frame_number, p)
        &&& after.last_completed_frame == before.last_completed_frame
    }
}

impl FrameReassembler {
    /// A reassembler that has seen nothing yet.
    pub fn new() -> (r: Self)
        ensures
            r@ == Map::<u64, PendingFrameView>::empty(),
            r.last_completed_frame == 0,
            r.max_age_us == MAX_FRAME_AGE_US,
    {
        let r = FrameReassembler {
            pending_frames: HashMap::new(),
            last_completed_frame: 0,
            max_age_us: MAX_FRAME_AGE_US,
        };
        assert(r@ =~= Map::<u64, PendingFrameView>::empty());
        r
    }

    /// Gives up the incomplete frames that are too old at `now_us`.
    pub fn cleanup_old_frames(&mut self, now_us: u64)
        ensures
            final(self)@ == young(old(self)@, now_us, old(self).max_age_us),
            final(self).last_completed_frame == old(self).last_completed_frame,
            final(self).max_age_us == old(self).max_age_us,
    {
        let keys = keys_of(&self.pending_frames);
        let ghost m = self.pending_frames@;
        let max_age: u64 = self.max_age_us;
        let mut i: usize = 0;
        while i < keys.len()
            invariant
                i <= keys@.len(),
                keys@.to_set() == m.dom(),
                m == old(self).pending_frames@,
                max_age == old(self).max_age_us,
                self.last_completed_frame == old(self).last_completed_frame,
                self.max_age_us == old(self).max_age_us,
                forall|n: u64| #[trigger]
                    self.pending_frames@.contains_key(n) <==> m.contains_key(n) && (age_us(
                        now_us,
                        m[n]@.first_received_us,
                    ) < max_age || !keys@.take(i as int).contains(n)),
                forall|n: u64|
                    self.pending_frames@.contains_key(n) ==> #[trigger] self.pending_frames@[n]
                        == m[n],
            decreases keys@.len() - i,
        {
            let k: u64 = keys[i];
            let ghost before = self.pending_frames@;
            let is_old = match self.pending_frames.get(&k) {
                Some(p) => now_us.wrapping_sub(p.first_received_us) >= max_age,
                None => false,
            };
            if is_old {
                self.pending_frames.remove(&k);
            }
            proof {
                let seen = keys@.take(i as int);
                let next = keys@.take(i + 1);
                assert(next =~= seen.push(k));
                assert forall|n: u64| #[trigger]
                    self.pending_frames@.contains_key(n) <==> m.contains_key(n) && (age_us(
                        now_us,
                        m[n]@.first_received_us,
                    ) < max_age || !next.contains(n)) by {
                    assert(before.contains_key(n) <==> m.contains_key(n) && (age_us(
                        now_us,
                        m[n]@.first_received_us,
                    ) < max_age || !seen.contains(n)));
                    if seen.contains(n) {
                        let j = choose|j: int| 0 <= j < i && seen[j] == n;
                        assert(next[j] == n);
                    }
                    if n == k {
                        assert(next[i as int] == n);
                    }
                    if next.contains(n) && n != k {
                        let j = choose|j: int| 0 <= j < next.len() && next[j] == n;
                        assert(seen[j] == n);
                    }
                }
            }
            i += 1;
        }
        proof {
            let want = young(old(self)@, now_us, max_age);
            assert forall|n: u64| self@.contains_key(n) <==> want.contains_key(n) by {
                assert(keys@.take(i as int) =~= keys@);
                assert(self.pending_frames@.contains_key(n) <==> m.contains_key(n) && (age_us(
                    now_us,
                    m[n]@.first_received_us,
                ) < max_age || !keys@.contains(n)));
                if m.contains_key(n) {
                    assert(keys@.to_set().contains(n));
                }
            }
            assert(self@ =~= want);
        }
    }

    /// Add a fragment that came in at `now_us`; returns complete frame data if
    /// all fragments were received.
    pub fn add_fragment_at(&mut self, header: VideoFrameHeader, data: Vec<u8>, now_us: u64) -> (r:
        Option<(VideoFrameHeader, Vec<u8>)>)
        ensures
            is_outcome(*old(self), *final(self), header, data@, now_us, r),
    {
        self.cleanup_old_frames(now_us);
        let ghost m = self@;
        let ghost d = data@;
        if header.frame_number < self.last_completed_frame {
            return None;
        }
        if header.fragment_count == 1 {
            self.last_completed_frame = header.frame_number;
            return Some((header, data));
        }
        let number: u64 = header.frame_number;
        let pending = match self.pending_frames.remove(&number) {
            Some(p) => p,
            None => PendingFrame {
                header,
                fragments: FragmentSlots::new(header.fragment_count as usize),
                first_received_us: now_us,
            },
        };
        assert(self@ =~= m.remove(number));
        assert(pending@ == pending_or_new(m, header, now_us));
        let index: usize = header.fragment_index as usize;
        let accepts = pending.fragments.accepts(index);
        let frame_header = if accepts && header.is_keyframe {
            VideoFrameHeader { is_keyframe: true, ..pending.header }
        } else {
            pending.header
        };
        let pending = PendingFrame {
            header: frame_header,
            fragments: pending.fragments.store(index, data),
            first_received_us: pending.first_received_us,
        };
        assert(pending@ == pending_with(m, header, d, now_us));
        if pending.fragments.is_complete() {
            self.last_completed_frame = number;
            Some((pending.header, pending.fragments.join()))
        } else {
            self.pending_frames.insert(number, pending);
            assert(self@ =~= m.insert(number, pending@));
            None
        }
    }

    /// Add a fragment, returns complete frame data if all fragments received.
    pub fn add_fragment(&mut self, header: VideoFrameHeader, data: Vec<u8>) -> (r: Option<
        (VideoFrameHeader, Vec<u8>),
    >)
        ensures
            exists|now: u64| #[trigger]
                is_outcome(*old(self), *final(self), header, data@, now, r),
    {
        let now: u64 = now_us();
        self.add_fragment_at(header, data, now)
    }

    /// Number of frames in progress.
    pub fn pending_count(&self) -> (n: usize)
        ensures
            n == self@.dom().len(),
    {
        assert(self@.dom() =~= self.pending_frames@.dom());
        self.pending_frames.len()
    }
}

/// Frames are never handed out in the wrong order: the number of the last one
/// does not go back, and it moves only when a frame is handed out.
pub proof fn law_frames_do_not_go_back(
    before: FrameReassembler,
    after: FrameReassembler,
    h: VideoFrameHeader,
    data: Seq<u8>,
    now: u64,
    r: Option<(VideoFrameHeader, Vec<u8>)>,
)
    requires
        is_outcome(before, after, h, data, now, r),
    ensures
        after.last_completed_frame >= before.last_completed_frame,
        r is None ==> after.last_completed_frame == before.last_completed_frame,
        r is Some ==> after.last_completed_frame == h.frame_number,
{
}

/// The header of fragment `i` of a frame: that of the frame, with the index and
/// the fragment's own keyframe mark.
pub open spec fn nth_header(
    frame: VideoFrameHeader,
    marks: spec_fn(int) -> bool,
    i: int,
) -> VideoFrameHeader {
    VideoFrameHeader { fragment_index: i as u16, is_keyframe: marks(i), ..frame }
}

/// Whether one of the fragments that came is marked.
pub open spec fn any_marked(marks: spec_fn(int) -> bool, order: Seq<int>) -> bool
    decreases order.len(),
{
    order.len() > 0 && (marks(order.last()) || any_marked(marks, order.drop_last()))
}

/// Whether an entry holds exactly those fragments of a frame whose indices are in
/// `order`, the order in which they came, the first of them at `first_us`. The
/// frame is marked as a keyframe exactly if one of them is.
pub open spec fn is_entry(
    p: PendingFrameView,
    frame: VideoFrameHeader,
    marks: spec_fn(int) -> bool,
    chunks: Seq<Seq<u8>>,
    order: Seq<int>,
    first_us: u64,
) -> bool {
    &&& p.fragments == after_arrivals(chunks, order)
    &&& p.first_received_us == first_us
    &&& p.header.frame_number == frame.frame_number
    &&& p.header.pts_us == frame.pts_us
    &&& p.header.frame_size == frame.frame_size
    &&& p.header.fragment_count == frame.fragment_count
    &&& p.header.width == frame.width
    &&& p.header.height == frame.height
    &&& p.header.is_keyframe == any_marked(marks, order)
}

/// Whether a reassembler still looks at a frame, and holds exactly those of its
/// fragments whose indices are in `order`.
pub open spec fn holds(
    r: FrameReassembler,
    frame: VideoFrameHeader,
    marks: spec_fn(int) -> bool,
    chunks: Seq<Seq<u8>>,
    order: Seq<int>,
    first_us: u64,
) -> bool {
    let n = frame.frame_number;
    &&& frame.frame_number >= r.last_completed_frame
    &&& if order.len() == 0 {
        !r@.contains_key(n)
    } else {
        r@.contains_key(n) && is_entry(r@[n], frame, marks, chunks, order, first_us)
    }
}

/// Whether the time limit of a frame that began to come at `first_us` is kept at
/// `now`. Without a fragment so far, it begins now.
pub open spec fn is_in_time(order: Seq<int>, first_us: u64, now: u64, max_age: u64) -> bool {
    if order.len() == 0 {
        first_us == now
    } else {
        age_us(now, first_us) < max_age
    }
}

proof fn lemma_mark_of_arrival(marks: spec_fn(int) -> bool, order: Seq<int>, i: int)
    requires
        order.contains(i),
    ensures
        marks(i) ==> any_marked(marks, order),
    decreases order.len(),
{
    if order.last() != i {
        let k = choose|k: int| 0 <= k < order.len() && order[k] == i;
        assert(order.drop_last()[k] == i);
        lemma_mark_of_arrival(marks, order.drop_last(), i);
    }
}

/// A fragment that comes in time goes to those that came before.
proof fn lemma_fragment_is_added(
    before: FrameReassembler,
    frame: VideoFrameHeader,
    marks: spec_fn(int) -> bool,
    chunks: Seq<Seq<u8>>,
    order: Seq<int>,
    i: int,
    first_us: u64,
    now: u64,
)
    requires
        chunks.len() == frame.fragment_count,
        holds(before, frame, marks, chunks, order, first_us),
        is_in_time(order, first_us, now, before.max_age_us),
        in_range(order, chunks.len()),
        0 <= i < chunks.len(),
    ensures
        is_entry(
            pending_with(
                young(before@, now, before.max_age_us),
                nth_header(frame, marks, i),
                chunks[i],
                now,
            ),
            frame,
            marks,
            chunks,
            order.push(i),
            first_us,
        ),
{
    lemma_one_more_arrival(chunks, order, i);
    assert(order.push(i).drop_last() =~= order);
    if order.len() == 0 {
        assert(order =~= Seq::<int>::empty());
        assert(any_marked(marks, order) == false);
    } else if order.contains(i) {
        lemma_mark_of_arrival(marks, order, i);
    }
}

/// A fragment that comes in while another is still missing is kept with those that
/// came before, and no frame is handed out.
pub proof fn law_incomplete_frame_is_kept(
    before: FrameReassembler,
    after: FrameReassembler,
    r: Option<(VideoFrameHeader, Vec<u8>)>,
    frame: VideoFrameHeader,
    marks: spec_fn(int) -> bool,
    chunks: Seq<Seq<u8>>,
    order: Seq<int>,
    i: int,
    missing: int,
    first_us: u64,
    now: u64,
)
    requires
        chunks.len() == frame.fragment_count,
        holds(before, frame, marks, chunks, order, first_us),
        is_in_time(order, first_us, now, before.max_age_us),
        in_range(order, chunks.len()),
        0 <= i < chunks.len(),
        0 <= missing < chunks.len(),
        !order.contains(missing),
        i != missing,
        is_outcome(before, after, nth_header(frame, marks, i), chunks[i], now, r),
    ensures
        r is None,
        holds(after, frame, marks, chunks, order.push(i), first_us),
        after.last_completed_frame == before.last_completed_frame,
        after.max_age_us == before.max_age_us,
{
    lemma_fragment_is_added(before, frame, marks, chunks, order, i, first_us, now);
    lemma_one_more_arrival(chunks, order, i);
    assert(!order.push(i).contains(missing));
    law_missing_fragment_keeps_frame_open(chunks, order.push(i), missing);
}

/// When the last missing fragment comes in within the time limit, in whatever
/// order and with whatever repetitions the others came, the frame is handed out:
/// its bytes are the chunks in order, and its header is that of the frame, marked
/// as a keyframe exactly if one of the fragments is.
pub proof fn law_frame_is_reassembled(
    before: FrameReassembler,
    after: FrameReassembler,
    r: Option<(VideoFrameHeader, Vec<u8>)>,
    frame: VideoFrameHeader,
    marks: spec_fn(int) -> bool,
    chunks: Seq<Seq<u8>>,
    order: Seq<int>,
    i: int,
    first_us: u64,
    now: u64,
)
    requires
        chunks.len() == frame.fragment_count,
        holds(before, frame, marks, chunks, order, first_us),
        is_in_time(order, first_us, now, before.max_age_us),
        in_range(order, chunks.len()),
        0 <= i < chunks.len(),
        !order.contains(i),
        covers(order.push(i), chunks.len()),
        is_outcome(before, after, nth_header(frame, marks, i), chunks[i], now, r),
    ensures
        r is Some,
        (r->0).1@ == concat(chunks),
        (r->0).0.frame_number == frame.frame_number,
        (r->0).0.pts_us == frame.pts_us,
        (r->0).0.frame_size == frame.frame_size,
        (r->0).0.fragment_count == frame.fragment_count,
        (r->0).0.width == frame.width,
        (r->0).0.height == frame.height,
        (r->0).0.is_keyframe == any_marked(marks, order.push(i)),
        !after@.contains_key(frame.frame_number),
        after.last_completed_frame == frame.frame_number,
{
    lemma_fragment_is_added(before, frame, marks, chunks, order, i, first_us, now);
    lemma_one_more_arrival(chunks, order, i);
    law_all_arrivals_give_the_frame(chunks, order.push(i));
    if frame.fragment_count == 1 {
        if order.len() > 0 {
            assert(0 <= order[0] < chunks.len());
            assert(order.contains(i));
        }
        assert(order =~= Seq::<int>::empty());
        assert(order.push(i).drop_last() =~= order);
        assert(chunks.drop_last() =~= Seq::<Seq<u8>>::empty());
        assert(concat(chunks.drop_last()) =~= Seq::<u8>::empty());
        assert(concat(chunks) =~= chunks[0]);
        assert(any_marked(marks, order) == false);
    }
}

/// Whether a fragment adds nothing to a frame of which fragments have come: it has
/// the frame's number, but its index is out of range or its place is taken. (One
/// that says it is the whole frame is not meant.)
pub open spec fn adds_nothing(h: VideoFrameHeader, count: nat, order: Seq<int>) -> bool {
    &&& order.len() > 0
    &&& h.fragment_count != 1
    &&& h.fragment_index >= count || order.contains(h.fragment_index as int)
}

/// A fragment that adds nothing to a frame leaves what is held of it as it is, as
/// long as its time limit is kept: a fragment of another frame, unless it completes
/// one that makes this one outdated, and a fragment with this frame's number whose
/// index is out of range or whose place is taken, whatever its contents. The first
/// contents of a place stay.
pub proof fn law_other_fragments_change_nothing(
    before: FrameReassembler,
    after: FrameReassembler,
    r: Option<(VideoFrameHeader, Vec<u8>)>,
    frame: VideoFrameHeader,
    marks: spec_fn(int) -> bool,
    chunks: Seq<Seq<u8>>,
    order: Seq<int>,
    missing: int,
    first_us: u64,
    h: VideoFrameHeader,
    data: Seq<u8>,
    now: u64,
)
    requires
        holds(before, frame, marks, chunks, order, first_us),
        order.len() > 0 ==> age_us(now, first_us) < before.max_age_us,
        in_range(order, chunks.len()),
        0 <= missing < chunks.len(),
        !order.contains(missing),
        is_outcome(before, after, h, data, now, r),
        h.frame_number != frame.frame_number ==> after.last_completed_frame <= frame.frame_number,
        h.frame_number == frame.frame_number ==> adds_nothing(h, chunks.len(), order),
    ensures
        holds(after, frame, marks, chunks, order, first_us),
        order.len() > 0 ==> after@[frame.frame_number] == before@[frame.frame_number],
        h.frame_number == frame.frame_number ==> r is None,
        after.max_age_us == before.max_age_us,
{
    law_arrivals_fill_their_slots(chunks, order);
    if h.frame_number == frame.frame_number {
        law_missing_fragment_keeps_frame_open(chunks, order, missing);
        let i = h.fragment_index as int;
        if i < chunks.len() {
            assert(after_arrivals(chunks, order)[i] is Some);
        }
    }
}

/// A fragment of a frame that is not older than the last completed one is never
/// dropped as outdated, however many frames were lost in between: a frame of one
/// fragment is handed out at once, and any other fragment stays in its place until
/// its frame is handed out.
pub proof fn law_newer_frames_are_always_taken(
    before: FrameReassembler,
    after: FrameReassembler,
    h: VideoFrameHeader,
    data: Seq<u8>,
    now: u64,
    r: Option<(VideoFrameHeader, Vec<u8>)>,
)
    requires
        is_outcome(before, after, h, data, now, r),
        h.frame_number >= before.last_completed_frame,
    ensures
        h.fragment_count == 1 ==> r is Some && (r->0).0 == h && (r->0).1@ == data,
        r is Some ==> after.last_completed_frame == h.frame_number,
        r is None ==> after.last_completed_frame == before.last_completed_frame
            && after@.contains_key(h.frame_number) && {
            let slots = after@[h.frame_number].fragments;
            h.fragment_index < slots.len() ==> slots[h.fragment_index as int] is Some
        },
{
}

/// The first fragment of a frame of several opens as many places as the frame has
/// fragments, puts its contents into its own, and starts the time limit.
pub proof fn law_first_fragment_opens_its_frame(
    before: FrameReassembler,
    after: FrameReassembler,
    h: VideoFrameHeader,
    data: Seq<u8>,
    now: u64,
    r: Option<(VideoFrameHeader, Vec<u8>)>,
)
    requires
        is_outcome(before, after, h, data, now, r),
        h.frame_number >= before.last_completed_frame,
        h.fragment_count > 1,
        h.fragment_index < h.fragment_count,
        !before@.contains_key(h.frame_number),
    ensures
        r is None,
        after@.contains_key(h.frame_number),
        ({
            let p = after@[h.frame_number];
            &&& p.header == h
            &&& p.first_received_us == now
            &&& p.fragments.len() == h.fragment_count
            &&& forall|i: int|
                0 <= i < p.fragments.len() ==> #[trigger] p.fragments[i] == if i
                    == h.fragment_index {
                    Some(data)
                } else {
                    None
                }
        }),
{
    let m = young(before@, now, before.max_age_us);
    let p = pending_with(m, h, data, now);
    let other = if h.fragment_index == 0 {
        1int
    } else {
        0
    };
    assert(p.fragments[other] is None);
}

/// A fragment of a frame that is older than the last completed one changes nothing,
/// but that frames whose time is over are given up.
pub proof fn law_outdated_fragments_are_dropped(
    before: FrameReassembler,
    after: FrameReassembler,
    h: VideoFrameHeader,
    data: Seq<u8>,
    now: u64,
    r: Option<(VideoFrameHeader, Vec<u8>)>,
)
    requires
        is_outcome(before, after, h, data, now, r),
        h.frame_number < before.last_completed_frame,
    ensures
        r is None,
        after.last_completed_frame == before.last_completed_frame,
        forall|n: u64| #[trigger]
            after@.contains_key(n) ==> before@.contains_key(n) && after@[n] == before@[n],
{
}

/// Whatever comes in, another frame in progress stays as it is exactly until its
/// time limit is over. A frame whose first fragment seems to come from the future
/// is given up.
pub proof fn law_frames_wait_for_their_time(
    before: FrameReassembler,
    after: FrameReassembler,
    h: VideoFrameHeader,
    data: Seq<u8>,
    now: u64,
    r: Option<(VideoFrameHeader, Vec<u8>)>,
    n: u64,
)
    requires
        is_outcome(before, after, h, data, now, r),
        n != h.frame_number,
    ensures
        after@.contains_key(n) ==> before@.contains_key(n) && after@[n] == before@[n],
        before@.contains_key(n) && before@[n].first_received_us <= now ==> (after@.contains_key(n)
            <==> now - before@[n].first_received_us < before.max_age_us),
        before@.contains_key(n) && before@[n].first_received_us > now && before.max_age_us
            <= 0x1_0000_0000_0000_0000 - (before@[n].first_received_us - now)
            ==> !after@.contains_key(n),
        after.max_age_us == before.max_age_us,
{
}

/// A frame in progress is marked as a keyframe exactly if one of its fragments is.
pub proof fn law_any_mark_marks_the_frame(marks: spec_fn(int) -> bool, order: Seq<int>)
    ensures
        any_marked(marks, order) <==> exists|k: int|
            0 <= k < order.len() && marks(#[trigger] order[k]),
    decreases order.len(),
{
    if order.len() > 0 {
        let t = order.drop_last();
        law_any_mark_marks_the_frame(marks, t);
        if any_marked(marks, order) {
            if marks(order.last()) {
                assert(marks(order[order.len() - 1]));
            } else {
                let k = choose|k: int| 0 <= k < t.len() && marks(#[trigger] t[k]);
                assert(order[k] == t[k]);
            }
        }
        if exists|k: int| 0 <= k < order.len() && marks(#[trigger] order[k]) {
            let k = choose|k: int| 0 <= k < order.len() && marks(#[trigger] order[k]);
            if k < t.len() {
                assert(t[k] == order[k]);
            }
        }
    }
}

/// An incomplete frame waits for a fifth of a second.
pub proof fn law_reassembly_limits()
    ensures
        5 * MAX_FRAME_AGE_US == 1_000_000,
{
}

} // verus!
