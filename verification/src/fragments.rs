//! The fragments of one frame, collected in any order.
use vstd::prelude::*;

verus! {

/// How many of the slots are filled.
pub open spec fn filled(s: Seq<Option<Seq<u8>>>) -> nat
    decreases s.len(),
{
    if s.len() == 0 {
        0
    } else {
        filled(s.drop_last()) + if s.last() is Some {
            1nat
        } else {
            0nat
        }
    }
}

/// Whether every slot is filled.
pub open spec fn all_filled(s: Seq<Option<Seq<u8>>>) -> bool {
    forall|i: int| 0 <= i < s.len() ==> (#[trigger] s[i]) is Some
}

/// The contents of the filled slots, one after the other.
pub open spec fn joined(s: Seq<Option<Seq<u8>>>) -> Seq<u8>
    decreases s.len(),
{
    if s.len() == 0 {
        Seq::empty()
    } else {
        joined(s.drop_last()) + match s.last() {
            Some(d) => d,
            None => Seq::empty(),
        }
    }
}

/// The slots after a fragment for slot `i` came in: the first fragment of a slot
/// stays, and one for a slot that does not exist is dropped.
pub open spec fn stored(s: Seq<Option<Seq<u8>>>, i: int, data: Seq<u8>) -> Seq<Option<Seq<u8>>> {
    if 0 <= i < s.len() && s[i] is None {
        s.update(i, Some(data))
    } else {
        s
    }
}

/// `n` empty slots.
pub open spec fn no_fragments(n: nat) -> Seq<Option<Seq<u8>>> {
    Seq::new(n, |i: int| None)
}

/// The contents of one slot.
pub open spec fn slot_view(o: Option<Vec<u8>>) -> Option<Seq<u8>> {
    match o {
        Some(v) => Some(v@),
        None => None,
    }
}

/// Slots for the fragments of one frame.
pub struct FragmentSlots {
    slots: Vec<Option<Vec<u8>>>,
    received: usize,
}

impl View for FragmentSlots {
    type V = Seq<Option<Seq<u8>>>;

    closed spec fn view(&self) -> Seq<Option<Seq<u8>>> {
        self.slots@.map_values(|o: Option<Vec<u8>>| slot_view(o))
    }
}

proof fn lemma_filled_bound(s: Seq<Option<Seq<u8>>>)
    ensures
        filled(s) <= s.len(),
        filled(s) == s.len() <==> all_filled(s),
    decreases s.len(),
{
    if s.len() > 0 {
        let t = s.drop_last();
        lemma_filled_bound(t);
        if filled(s) == s.len() {
            assert forall|i: int| 0 <= i < s.len() implies (#[trigger] s[i]) is Some by {
                if i < s.len() - 1 {
                    assert(t[i] is Some);
                }
            }
        }
        if all_filled(s) {
            assert forall|i: int| 0 <= i < t.len() implies (#[trigger] t[i]) is Some by {
                assert(s[i] is Some);
            }
            assert(s[s.len() - 1] is Some);
        }
    }
}

proof fn lemma_filled_update(s: Seq<Option<Seq<u8>>>, i: int, d: Seq<u8>)
    requires
        0 <= i < s.len(),
        s[i] is None,
    ensures
        filled(s.update(i, Some(d))) == filled(s) + 1,
    decreases s.len(),
{
    let u = s.update(i, Some(d));
    if i == s.len() - 1 {
        assert(u.drop_last() =~= s.drop_last());
    } else {
        lemma_filled_update(s.drop_last(), i, d);
        assert(u.drop_last() =~= s.drop_last().update(i, Some(d)));
    }
}

proof fn lemma_filled_none(n: nat)
    ensures
        filled(no_fragments(n)) == 0,
    decreases n,
{
    if n > 0 {
        lemma_filled_none((n - 1) as nat);
        assert(no_fragments(n).drop_last() =~= no_fragments((n - 1) as nat));
    }
}

impl FragmentSlots {
    #[verifier::type_invariant]
    closed spec fn inv(self) -> bool {
        self.received == filled(self.view())
    }

    /// Empty slots for `count` fragments.
    pub fn new(count: usize) -> (r: Self)
        ensures
            r@ == no_fragments(count as nat),
    {
        let mut slots: Vec<Option<Vec<u8>>> = Vec::new();
        let mut i: usize = 0;
        while i < count
            invariant
                i <= count,
                slots@.len() == i,
                forall|j: int| 0 <= j < i ==> (#[trigger] slots@[j]) is None,
            decreases count - i,
        {
            slots.push(None);
            i += 1;
        }
        let ghost view = slots@.map_values(|o: Option<Vec<u8>>| slot_view(o));
        proof {
            lemma_filled_none(count as nat);
            assert(view =~= no_fragments(count as nat));
        }
        FragmentSlots { slots, received: 0 }
    }

    /// Tells whether there is an empty slot of this index.
    pub fn accepts(&self, index: usize) -> (b: bool)
        ensures
            b == (index < self@.len() && self@[index as int] is None),
    {
        index < self.slots.len() && self.slots[index].is_none()
    }

    /// Puts a fragment into its slot.
    pub fn store(self, index: usize, data: Vec<u8>) -> (r: Self)
        ensures
            r@ == stored(self@, index as int, data@),
    {
        proof {
            use_type_invariant(&self);
            lemma_filled_bound(self@);
        }
        let ghost before = self@;
        if index < self.slots.len() && self.slots[index].is_none() {
            let mut slots = self.slots;
            let received = self.received;
            proof {
                lemma_filled_update(before, index as int, data@);
                lemma_filled_bound(before.update(index as int, Some(data@)));
            }
            let ghost d = data@;
            slots.set(index, Some(data));
            assert(slots@.map_values(|o: Option<Vec<u8>>| slot_view(o)) =~= before.update(
                index as int,
                Some(d),
            ));
            FragmentSlots { slots, received: received + 1 }
        } else {
            self
        }
    }

    /// Tells whether every slot is filled.
    pub fn is_complete(&self) -> (b: bool)
        ensures
            b == all_filled(self@),
    {
        proof {
            use_type_invariant(self);
            lemma_filled_bound(self@);
        }
        self.received == self.slots.len()
    }

    /// The contents of the filled slots, one after the other.
    pub fn join(&self) -> (v: Vec<u8>)
        ensures
            v@ == joined(self@),
    {
        let mut out: Vec<u8> = Vec::new();
        let mut i: usize = 0;
        let ghost s = self@;
        while i < self.slots.len()
            invariant
                i <= self.slots.len(),
                s == self@,
                s.len() == self.slots@.len(),
                out@ == joined(s.take(i as int)),
            decreases self.slots.len() - i,
        {
            assert(s.take(i + 1).drop_last() =~= s.take(i as int));
            assert(s.take(i + 1).last() == slot_view(self.slots@[i as int]));
            match &self.slots[i] {
                Some(d) => {
                    out.extend_from_slice(d.as_slice());
                },
                None => {},
            }
            assert(out@ =~= joined(s.take(i + 1)));
            i += 1;
        }
        assert(s.take(i as int) =~= s);
        out
    }
}

/// The chunks one after the other.
pub open spec fn concat(chunks: Seq<Seq<u8>>) -> Seq<u8>
    decreases chunks.len(),
{
    if chunks.len() == 0 {
        Seq::empty()
    } else {
        concat(chunks.drop_last()) + chunks.last()
    }
}

/// The slots after fragments came in whose indices are `order`, the fragment of
/// index `i` being `chunks[i]`.
pub open spec fn after_arrivals(chunks: Seq<Seq<u8>>, order: Seq<int>) -> Seq<Option<Seq<u8>>>
    decreases order.len(),
{
    if order.len() == 0 {
        no_fragments(chunks.len())
    } else {
        stored(after_arrivals(chunks, order.drop_last()), order.last(), chunks[order.last()])
    }
}

/// Whether every index in `order` is one of `n` fragments.
pub open spec fn in_range(order: Seq<int>, n: nat) -> bool {
    forall|k: int| 0 <= k < order.len() ==> 0 <= #[trigger] order[k] < n
}

/// Whether every one of `n` fragments has its index in `order`.
pub open spec fn covers(order: Seq<int>, n: nat) -> bool {
    forall|i: int| 0 <= i < n ==> #[trigger] order.contains(i)
}

/// One more fragment goes into its slot, if nothing is there yet.
pub proof fn lemma_one_more_arrival(chunks: Seq<Seq<u8>>, order: Seq<int>, i: int)
    requires
        in_range(order, chunks.len()),
        0 <= i < chunks.len(),
    ensures
        after_arrivals(chunks, order.push(i)) == stored(
            after_arrivals(chunks, order),
            i,
            chunks[i],
        ),
        in_range(order.push(i), chunks.len()),
        after_arrivals(chunks, order).len() == chunks.len(),
        after_arrivals(chunks, order)[i] is Some <==> order.contains(i),
{
    assert(order.push(i).drop_last() =~= order);
    law_arrivals_fill_their_slots(chunks, order);
}

/// Where every slot holds its chunk, the slots join to the chunks in order.
proof fn lemma_joined_is_concat(s: Seq<Option<Seq<u8>>>, chunks: Seq<Seq<u8>>)
    requires
        s.len() == chunks.len(),
        forall|i: int| 0 <= i < s.len() ==> #[trigger] s[i] == Some(chunks[i]),
    ensures
        joined(s) == concat(chunks),
    decreases s.len(),
{
    if s.len() > 0 {
        let t = s.drop_last();
        let c = chunks.drop_last();
        assert forall|i: int| 0 <= i < t.len() implies #[trigger] t[i] == Some(c[i]) by {
            assert(s[i] == Some(chunks[i]));
        }
        lemma_joined_is_concat(t, c);
        assert(s[s.len() - 1] == Some(chunks[s.len() - 1]));
    }
}

/// Whatever order the fragments come in, and however often one is repeated, a
/// slot is filled exactly if its fragment has come, with that fragment.
pub proof fn law_arrivals_fill_their_slots(chunks: Seq<Seq<u8>>, order: Seq<int>)
    requires
        in_range(order, chunks.len()),
    ensures
        after_arrivals(chunks, order).len() == chunks.len(),
        forall|i: int|
            0 <= i < chunks.len() ==> #[trigger] after_arrivals(chunks, order)[i] == (
            if order.contains(i) {
                Some(chunks[i])
            } else {
                None
            }),
    decreases order.len(),
{
    if order.len() > 0 {
        let prev = order.drop_last();
        assert forall|k: int| 0 <= k < prev.len() implies 0 <= #[trigger] prev[k]
            < chunks.len() by {
            assert(prev[k] == order[k]);
        }
        law_arrivals_fill_their_slots(chunks, prev);
        let before = after_arrivals(chunks, prev);
        let last = order.last();
        assert(last == order[order.len() - 1]);
        assert forall|i: int| 0 <= i < chunks.len() implies #[trigger] after_arrivals(
            chunks,
            order,
        )[i] == (if order.contains(i) {
            Some(chunks[i])
        } else {
            None
        }) by {
            assert(before[i] == if prev.contains(i) {
                Some(chunks[i])
            } else {
                None::<Seq<u8>>
            });
            if i == last {
                assert(order.contains(i));
            } else {
                if prev.contains(i) {
                    let k = choose|k: int| 0 <= k < prev.len() && prev[k] == i;
                    assert(order[k] == i);
                    assert(order.contains(i));
                }
                if order.contains(i) {
                    let k = choose|k: int| 0 <= k < order.len() && order[k] == i;
                    assert(prev[k] == i);
                    assert(prev.contains(i));
                }
            }
        }
    }
}

/// Once every fragment has come, in whatever order and however often, the frame
/// is complete and its bytes are the chunks in order.
pub proof fn law_all_arrivals_give_the_frame(chunks: Seq<Seq<u8>>, order: Seq<int>)
    requires
        in_range(order, chunks.len()),
        covers(order, chunks.len()),
    ensures
        all_filled(after_arrivals(chunks, order)),
        joined(after_arrivals(chunks, order)) == concat(chunks),
{
    law_arrivals_fill_their_slots(chunks, order);
    let s = after_arrivals(chunks, order);
    assert forall|i: int| 0 <= i < s.len() implies #[trigger] s[i] == Some(chunks[i]) by {
        assert(order.contains(i));
    }
    lemma_joined_is_concat(s, chunks);
}

/// While a fragment is missing, the frame is not complete.
pub proof fn law_missing_fragment_keeps_frame_open(
    chunks: Seq<Seq<u8>>,
    order: Seq<int>,
    missing: int,
)
    requires
        in_range(order, chunks.len()),
        0 <= missing < chunks.len(),
        !order.contains(missing),
    ensures
        !all_filled(after_arrivals(chunks, order)),
{
    law_arrivals_fill_their_slots(chunks, order);
    assert(after_arrivals(chunks, order)[missing] is None);
}

/// A fragment fills its own place if that is empty, and touches no other: what came
/// first for a place stays, and a fragment without a place is dropped.
pub proof fn law_first_contents_stay(s: Seq<Option<Seq<u8>>>, i: int, data: Seq<u8>, k: int)
    requires
        0 <= k < s.len(),
    ensures
        stored(s, i, data).len() == s.len(),
        k != i ==> stored(s, i, data)[k] == s[k],
        k == i && s[k] is None ==> stored(s, i, data)[k] == Some(data),
        s[k] is Some ==> stored(s, i, data)[k] == s[k],
{
}

/// Contents are joined in the order of their places: those of the first places come
/// first, and an empty place adds nothing.
pub proof fn law_places_are_joined_in_order(a: Seq<Option<Seq<u8>>>, b: Seq<Option<Seq<u8>>>)
    ensures
        joined(a + b) == joined(a) + joined(b),
        a.len() == 1 && a[0] is Some ==> joined(a) == a[0]->0,
        a.len() == 1 && a[0] is None ==> joined(a).len() == 0,
        a.len() == 0 ==> joined(a).len() == 0,
    decreases b.len(),
{
    if a.len() == 1 {
        assert(a.drop_last() =~= Seq::empty());
        assert(joined(a.drop_last()) =~= Seq::empty());
        assert(a.last() == a[0]);
        if a[0] is Some {
            assert(joined(a) =~= a[0]->0);
        }
    }
    if b.len() == 0 {
        assert(a + b =~= a);
        assert(joined(a) + joined(b) =~= joined(a));
    } else {
        law_places_are_joined_in_order(a, b.drop_last());
        assert((a + b).drop_last() =~= a + b.drop_last());
        assert((a + b).last() == b.last());
        assert(joined(a + b) =~= joined(a) + joined(b));
    }
}

/// A frame counts as complete exactly if no place is empty, and the number of filled
/// places tells as much.
pub proof fn law_complete_frames_have_no_gap(s: Seq<Option<Seq<u8>>>)
    ensures
        all_filled(s) <==> forall|i: int| 0 <= i < s.len() ==> !((#[trigger] s[i]) is None),
        all_filled(s) <==> filled(s) == s.len(),
{
    lemma_filled_bound(s);
}

} // verus!
