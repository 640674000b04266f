//! Ring buffers for streaming sample history and for the granular note queue.
//!
//! The buffers themselves come from the `circular_buffer` crate; their
//! contents are modelled as sequences (oldest first) through the trusted
//! contracts below, and everything built on top of them is verified against
//! those models.
use vstd::prelude::*;
use circular_buffer::CircularBuffer;

verus! {

#[verifier::external_type_specification]
#[verifier::external_body]
#[verifier::reject_recursive_types(T)]
pub struct ExCircularBuffer<const N: usize, T>(CircularBuffer<N, T>);

/// Number of samples a delay ring holds: one spectral window.
pub const WINDOW: usize = 4096;

/// Capacity of the trailing-note queue.
pub const NOTE_SLOTS: usize = 8;

/// The samples a delay ring currently holds, oldest first.
pub uninterp spec fn ring_samples(b: CircularBuffer<4096, i64>) -> Seq<i64>;

/// The queued notes, oldest first; a note is `(position, end)` into the
/// loaded sample array.
pub uninterp spec fn note_queue(b: CircularBuffer<8, (usize, usize)>) -> Seq<(usize, usize)>;

/// The last `cap` elements of a stream, or all of them when there are fewer.
pub open spec fn stream_tail<A>(s: Seq<A>, cap: int) -> Seq<A> {
    if s.len() <= cap {
        s
    } else {
        s.skip(s.len() - cap)
    }
}

/// Relies on CircularBuffer::new: returns an empty buffer.
#[verifier::external_body]
pub fn ring_new() -> (r: CircularBuffer<4096, i64>)
    ensures
        ring_samples(r) == Seq::<i64>::empty(),
{
    CircularBuffer::new()
}

/// Relies on CircularBuffer::extend_from_slice: appends the slice to the
/// back, dropping elements at the front once the capacity is exceeded.
#[verifier::external_body]
pub fn ring_extend(b: &mut CircularBuffer<4096, i64>, xs: &[i64])
    ensures
        ring_samples(*final(b)) == stream_tail(ring_samples(*old(b)) + xs@, WINDOW as int),
{
    b.extend_from_slice(xs)
}

/// Relies on CircularBuffer::is_full: the element count equals the capacity.
#[verifier::external_body]
pub fn ring_is_full(b: &CircularBuffer<4096, i64>) -> (r: bool)
    ensures
        r == (ring_samples(*b).len() == WINDOW),
{
    b.is_full()
}

/// Relies on CircularBuffer::as_slices: the two spans hold the buffer's
/// elements in order, front span first.
#[verifier::external_body]
pub fn ring_as_slices<'a>(b: &'a CircularBuffer<4096, i64>) -> (r: (&'a [i64], &'a [i64]))
    ensures
        r.0@ + r.1@ == ring_samples(*b),
{
    b.as_slices()
}

/// Relies on CircularBuffer::clear: removes every element.
#[verifier::external_body]
pub fn ring_clear(b: &mut CircularBuffer<4096, i64>)
    ensures
        ring_samples(*final(b)) == Seq::<i64>::empty(),
{
    b.clear()
}

/// Relies on CircularBuffer::fill: replaces the contents with the given
/// value repeated up to the full capacity.
#[verifier::external_body]
pub fn ring_fill(b: &mut CircularBuffer<4096, i64>, v: i64)
    ensures
        ring_samples(*final(b)) == Seq::new(WINDOW as nat, |i: int| v),
{
    b.fill(v)
}

/// Relies on CircularBuffer::new: returns an empty buffer.
#[verifier::external_body]
pub fn notes_new() -> (r: CircularBuffer<8, (usize, usize)>)
    ensures
        note_queue(r) == Seq::<(usize, usize)>::empty(),
{
    CircularBuffer::new()
}

/// Relies on CircularBuffer::push_back: appends at the back and, when the
/// buffer is at capacity, removes and returns the front element.
#[verifier::external_body]
pub fn notes_push_back(b: &mut CircularBuffer<8, (usize, usize)>, v: (usize, usize))
    ensures
        note_queue(*old(b)).len() < NOTE_SLOTS ==> note_queue(*final(b)) == note_queue(
            *old(b),
        ).push(v),
        note_queue(*old(b)).len() == NOTE_SLOTS ==> note_queue(*final(b)) == note_queue(
            *old(b),
        ).drop_first().push(v),
        note_queue(*old(b)).len() <= NOTE_SLOTS,
{
    let _ = b.push_back(v);
}

/// Relies on CircularBuffer::pop_front: removes and returns the front
/// element, or `None` when the buffer is empty.
#[verifier::external_body]
pub fn notes_pop_front(b: &mut CircularBuffer<8, (usize, usize)>) -> (r: Option<(usize, usize)>)
    ensures
        note_queue(*old(b)).len() == 0 ==> r is None && note_queue(*final(b)) == note_queue(
            *old(b),
        ),
        note_queue(*old(b)).len() > 0 ==> r == Some(note_queue(*old(b))[0]) && note_queue(
            *final(b),
        ) == note_queue(*old(b)).drop_first(),
{
    b.pop_front()
}

/// Relies on CircularBuffer::len: the number of elements held.
#[verifier::external_body]
pub fn notes_len(b: &CircularBuffer<8, (usize, usize)>) -> (r: usize)
    ensures
        r == note_queue(*b).len(),
{
    b.len()
}

/// Relies on CircularBuffer::get: a reference to the element at the index,
/// counted from the front.
#[verifier::external_body]
pub fn notes_get(b: &CircularBuffer<8, (usize, usize)>, i: usize) -> (r: (usize, usize))
    requires
        i < note_queue(*b).len(),
    ensures
        r == note_queue(*b)[i as int],
{
    *b.get(i).unwrap()
}

/// Relies on CircularBuffer::get_mut: writes the element at the index,
/// counted from the front.
#[verifier::external_body]
pub fn notes_set(b: &mut CircularBuffer<8, (usize, usize)>, i: usize, v: (usize, usize))
    requires
        i < note_queue(*old(b)).len(),
    ensures
        note_queue(*final(b)) == note_queue(*old(b)).update(i as int, v),
{
    *b.get_mut(i).unwrap() = v;
}

/// Relies on CircularBuffer::remove: removes the element at the index,
/// shifting the elements behind it forward.
#[verifier::external_body]
pub fn notes_remove(b: &mut CircularBuffer<8, (usize, usize)>, i: usize)
    requires
        i < note_queue(*old(b)).len(),
    ensures
        note_queue(*final(b)) == note_queue(*old(b)).remove(i as int),
{
    let _ = b.remove(i);
}

/// Relies on CircularBuffer::clear: removes every element.
#[verifier::external_body]
pub fn notes_clear(b: &mut CircularBuffer<8, (usize, usize)>)
    ensures
        note_queue(*final(b)) == Seq::<(usize, usize)>::empty(),
{
    b.clear()
}

/// Linearize a full delay ring into one flat window, oldest sample first.
pub fn copy_contiguous(from: &CircularBuffer<4096, i64>, to: &mut Vec<i64>)
    requires
        old(to)@.len() == ring_samples(*from).len(),
    ensures
        final(to)@ == ring_samples(*from),
{
    let (p1, p2) = ring_as_slices(from);
    let n1: usize = p1.len();
    let n2: usize = p2.len();
    let mut i: usize = 0;
    while i < n1
        invariant
            n1 == p1@.len(),
            n2 == p2@.len(),
            p1@ + p2@ == ring_samples(*from),
            to@.len() == ring_samples(*from).len(),
            i <= n1,
            forall|j: int| 0 <= j < i ==> to@[j] == p1@[j],
        decreases n1 - i,
    {
        let v: i64 = p1[i];
        to[i] = v;
        i = i + 1;
    }
    let total: usize = to.len();
    proof {
        assert(n1 + n2 == total);
    }
    let mut k: usize = 0;
    while k < n2
        invariant
            n1 == p1@.len(),
            n2 == p2@.len(),
            p1@ + p2@ == ring_samples(*from),
            to@.len() == ring_samples(*from).len(),
            n1 + n2 <= usize::MAX,
            k <= n2,
            forall|j: int| 0 <= j < n1 ==> to@[j] == p1@[j],
            forall|j: int| 0 <= j < k ==> to@[n1 + j] == p2@[j],
        decreases n2 - k,
    {
        let v: i64 = p2[k];
        to[n1 + k] = v;
        k = k + 1;
    }
    proof {
        assert(to@ =~= p1@ + p2@);
    }
}

/// The retention law of a delay ring: however the history `h` already in a
/// ring is extended by `xs`, the ring afterwards holds exactly the last
/// `WINDOW` samples of the whole stream `h + xs`, in push order; and two
/// successive extensions see the same window as one combined extension.
pub proof fn lemma_ring_retains_last_window(h: Seq<i64>, xs: Seq<i64>, ys: Seq<i64>)
    requires
        h.len() <= WINDOW,
    ensures
        stream_tail(h + xs, WINDOW as int).len() == if h.len() + xs.len() <= WINDOW {
            (h.len() + xs.len()) as int
        } else {
            WINDOW as int
        },
        stream_tail(stream_tail(h + xs, WINDOW as int) + ys, WINDOW as int) == stream_tail(
            (h + xs) + ys,
            WINDOW as int,
        ),
{
    let cap: int = WINDOW as int;
    let once: Seq<i64> = stream_tail(h + xs, cap);
    if h.len() + xs.len() <= cap {
        assert(once == h + xs);
        assert((once + ys) =~= ((h + xs) + ys));
        assert(stream_tail(once + ys, cap) =~= stream_tail((h + xs) + ys, cap));
    } else {
        let all: Seq<i64> = (h + xs) + ys;
        if once.len() + ys.len() <= cap {
            assert(once.len() == cap);
            assert(ys.len() == 0);
            assert(stream_tail(once + ys, cap) =~= stream_tail(all, cap));
        } else {
            assert(stream_tail(once + ys, cap) =~= stream_tail(all, cap));
        }
    }
}

} // verus!
