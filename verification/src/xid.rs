//! Allocation of X resource ids from the range the server hands a client.
//!
//! The server gives each client a `base` and a `mask`; ids are `base | n` for
//! values `n` that step through the bits of `mask` by its lowest set bit.

use vstd::prelude::*;

verus! {

/// Why an id could not be handed out.
#[derive(Debug, Clone, Copy, PartialEq, Eq, Structural)]
pub enum XidError {
    /// The shared allocator could not be locked.
    FailedToLock,
    /// Every id of the range has been handed out (or no range was set up).
    RanOutOfXid,
}

/// The mathematical state of an allocator.
pub ghost struct XidView {
    pub base: u32,
    pub mask: u32,
    pub next: u32,
    pub increment: u32,
}

/// An id allocator over the range `base | n`, `n` a sub-value of `mask`.
pub struct Xid {
    base: u32,
    mask: u32,
    next: u32,
    increment: u32,
}

impl View for Xid {
    type V = XidView;

    closed spec fn view(&self) -> XidView {
        XidView { base: self.base, mask: self.mask, next: self.next, increment: self.increment }
    }
}

/// The lowest set bit of `mask` (zero for a zero mask), as the two's
/// complement trick `mask & -mask` computes it.
pub open spec fn lowest_set_bit(mask: u32) -> u32 {
    mask & (0u32.wrapping_sub(mask))
}

/// The state that `setup` leaves behind.
pub open spec fn setup_spec(base: u32, mask: u32) -> XidView {
    XidView { base, mask, next: 0, increment: lowest_set_bit(mask) }
}

/// The state in which no further id can be handed out.
pub open spec fn exhausted(s: XidView) -> XidView {
    XidView { mask: 0, increment: 0, ..s }
}

/// One allocation: the id handed out (or the error) and the state after it.
pub open spec fn next_spec(s: XidView) -> (Result<u32, XidError>, XidView) {
    if s.mask == 0 || s.increment == 0 {
        (Err(XidError::RanOutOfXid), s)
    } else {
        let id = s.base | s.next;
        if s.next + s.increment > u32::MAX {
            (Ok(id), exhausted(s))
        } else {
            let candidate = (s.next + s.increment) as u32;
            if candidate & !s.mask != 0 {
                (Ok(id), exhausted(s))
            } else {
                (Ok(id), XidView { next: candidate, ..s })
            }
        }
    }
}

impl Xid {
    /// An allocator with no range: every allocation fails until `setup`.
    pub fn new() -> (r: Xid)
        ensures
            r@ == (XidView { base: 0, mask: 0, next: 0, increment: 0 }),
    {
        Xid { base: 0, mask: 0, next: 0, increment: 0 }
    }

    /// Hands out the next id of the range, or `RanOutOfXid` once the range is
    /// used up.
    pub fn next(&mut self) -> (r: Result<u32, XidError>)
        ensures
            (r, final(self)@) == next_spec(old(self)@),
    {
        if self.mask == 0 || self.increment == 0 {
            return Err(XidError::RanOutOfXid);
        }
        let id = self.base | self.next;
        let candidate = match self.next.checked_add(self.increment) {
            Some(c) => c,
            None => {
                self.mask = 0;
                self.increment = 0;
                return Ok(id);
            },
        };
        if candidate & !self.mask != 0 {
            self.mask = 0;
            self.increment = 0;
        } else {
            self.next = candidate;
        }
        Ok(id)
    }
}

/// Starts handing out ids from the range given by `base` and `mask`.
pub fn setup(xid: &mut Xid, base: u32, mask: u32) -> (r: Result<(), XidError>)
    ensures
        r is Ok,
        final(xid)@ == setup_spec(base, mask),
{
    xid.base = base;
    xid.mask = mask;
    xid.next = 0;
    xid.increment = mask & 0u32.wrapping_sub(mask);
    Ok(())
}

/// Hands out the next id of `xid`'s range.
pub fn next(xid: &mut Xid) -> (r: Result<u32, XidError>)
    ensures
        (r, final(xid)@) == next_spec(old(xid)@),
{
    xid.next()
}


/// The allocator's invariant: the counter never leaves the bits of the mask.
pub open spec fn xid_wf(s: XidView) -> bool {
    s.mask != 0 ==> s.next & !s.mask == 0
}

/// The client part (`base`) and the counter part (`mask`) of an id do not
/// overlap, as the X server guarantees for the range it hands out.
pub open spec fn disjoint_range(s: XidView) -> bool {
    s.base & s.mask == 0
}

/// The results of `k` successive allocations starting in state `s`.
pub open spec fn run(s: XidView, k: nat) -> Seq<Result<u32, XidError>>
    decreases k,
{
    if k == 0 {
        Seq::empty()
    } else {
        seq![next_spec(s).0] + run(next_spec(s).1, (k - 1) as nat)
    }
}

proof fn lemma_disjoint_or_is_add(b: u32, n: u32, m: u32)
    by (bit_vector)
    requires
        b & m == 0,
        n & !m == 0,
    ensures
        b | n == b + n,
        (b | n) & !m == b & !m,
{
}

proof fn lemma_run_len(s: XidView, k: nat)
    ensures
        run(s, k).len() == k,
    decreases k,
{
    if k > 0 {
        lemma_run_len(next_spec(s).1, (k - 1) as nat);
    }
}

/// Once the range is used up, every later allocation fails.
pub proof fn lemma_exhaustion_is_permanent(s: XidView, k: nat)
    requires
        s.mask == 0 || s.increment == 0,
    ensures
        forall|i: int| 0 <= i < k ==> #[trigger] run(s, k)[i] == Err::<u32, XidError>(XidError::RanOutOfXid),
    decreases k,
{
    lemma_run_len(s, k);
    if k > 0 {
        lemma_exhaustion_is_permanent(s, (k - 1) as nat);
        assert forall|i: int| 0 <= i < k implies #[trigger] run(s, k)[i] == Err::<u32, XidError>(
            XidError::RanOutOfXid,
        ) by {
            if i > 0 {
                assert(run(s, k)[i] == run(s, (k - 1) as nat)[i - 1]);
            }
        }
    }
}

/// One allocation keeps the invariant, and hands out `base + next`.
pub proof fn lemma_next_step(s: XidView)
    requires
        xid_wf(s),
        disjoint_range(s),
    ensures
        xid_wf(next_spec(s).1),
        disjoint_range(next_spec(s).1),
        next_spec(s).1.base == s.base,
        next_spec(s).0 is Ok ==> next_spec(s).0->Ok_0 == s.base + s.next,
        next_spec(s).0 is Ok ==> next_spec(s).0->Ok_0 & !s.mask == s.base & !s.mask,
        next_spec(s).1.mask != 0 && next_spec(s).1.increment != 0 ==> next_spec(s).1.next
            > s.next,
{
    if s.mask != 0 && s.increment != 0 {
        lemma_disjoint_or_is_add(s.base, s.next, s.mask);
        let b = s.base;
        assert(b & 0u32 == 0) by (bit_vector);
    }
}

proof fn lemma_run_lower_bound(s: XidView, k: nat)
    requires
        xid_wf(s),
        disjoint_range(s),
    ensures
        forall|i: int|
            0 <= i < k && (#[trigger] run(s, k)[i]) is Ok ==> run(s, k)[i]->Ok_0 >= s.base + s.next,
    decreases k,
{
    lemma_run_len(s, k);
    if k > 0 {
        if s.mask == 0 || s.increment == 0 {
            lemma_exhaustion_is_permanent(s, k);
        } else {
            let s2 = next_spec(s).1;
            lemma_next_step(s);
            lemma_run_lower_bound(s2, (k - 1) as nat);
            if s2.mask == 0 || s2.increment == 0 {
                lemma_exhaustion_is_permanent(s2, (k - 1) as nat);
            }
            assert forall|i: int|
                0 <= i < k && (#[trigger] run(s, k)[i]) is Ok implies run(s, k)[i]->Ok_0 >= s.base
                + s.next by {
                if i > 0 {
                    assert(run(s, k)[i] == run(s2, (k - 1) as nat)[i - 1]);
                }
            }
        }
    }
}

/// Ids handed out by successive allocations strictly increase, so no id is
/// handed out twice, as long as the range's base and mask do not overlap.
pub proof fn lemma_run_ids_increase(s: XidView, k: nat)
    requires
        xid_wf(s),
        disjoint_range(s),
    ensures
        run(s, k).len() == k,
        forall|i: int, j: int|
            0 <= i < j < k && (#[trigger] run(s, k)[i]) is Ok && (#[trigger] run(s, k)[j]) is Ok
                ==> run(s, k)[i]->Ok_0 < run(s, k)[j]->Ok_0,
    decreases k,
{
    lemma_run_len(s, k);
    if k > 0 {
        if s.mask == 0 || s.increment == 0 {
            lemma_exhaustion_is_permanent(s, k);
        } else {
            let s2 = next_spec(s).1;
            lemma_next_step(s);
            lemma_run_ids_increase(s2, (k - 1) as nat);
            lemma_run_lower_bound(s2, (k - 1) as nat);
            if s2.mask == 0 || s2.increment == 0 {
                lemma_exhaustion_is_permanent(s2, (k - 1) as nat);
            }
            assert forall|i: int, j: int|
                0 <= i < j < k && (#[trigger] run(s, k)[i]) is Ok && (#[trigger] run(s, k)[j]) is Ok
                    implies run(s, k)[i]->Ok_0 < run(s, k)[j]->Ok_0 by {
                assert(run(s, k)[j] == run(s2, (k - 1) as nat)[j - 1]);
                if i > 0 {
                    assert(run(s, k)[i] == run(s2, (k - 1) as nat)[i - 1]);
                }
            }
        }
    }
}

proof fn lemma_run_in_range(s: XidView, k: nat, m: u32)
    requires
        xid_wf(s),
        disjoint_range(s),
        s.mask == m || s.mask == 0 || s.increment == 0,
    ensures
        forall|i: int|
            0 <= i < k && (#[trigger] run(s, k)[i]) is Ok ==> run(s, k)[i]->Ok_0 & !m == s.base & !m,
    decreases k,
{
    lemma_run_len(s, k);
    if k > 0 {
        if s.mask == 0 || s.increment == 0 {
            lemma_exhaustion_is_permanent(s, k);
        } else {
            let s2 = next_spec(s).1;
            lemma_next_step(s);
            lemma_run_in_range(s2, (k - 1) as nat, m);
            assert forall|i: int|
                0 <= i < k && (#[trigger] run(s, k)[i]) is Ok implies run(s, k)[i]->Ok_0 & !m
                == s.base & !m by {
                if i > 0 {
                    assert(run(s, k)[i] == run(s2, (k - 1) as nat)[i - 1]);
                }
            }
        }
    }
}

proof fn lemma_run_err_stays(s: XidView, k: nat)
    ensures
        forall|i: int, j: int|
            0 <= i < j < k && (#[trigger] run(s, k)[i]) is Err ==> (#[trigger] run(s, k)[j]) is Err,
    decreases k,
{
    lemma_run_len(s, k);
    if k > 0 {
        if s.mask == 0 || s.increment == 0 {
            lemma_exhaustion_is_permanent(s, k);
        } else {
            let s2 = next_spec(s).1;
            lemma_run_err_stays(s2, (k - 1) as nat);
            assert forall|i: int, j: int|
                0 <= i < j < k && (#[trigger] run(s, k)[i]) is Err implies (#[trigger] run(
                    s,
                    k,
                )[j]) is Err by {
                assert(i > 0);
                assert(run(s, k)[i] == run(s2, (k - 1) as nat)[i - 1]);
                assert(run(s, k)[j] == run(s2, (k - 1) as nat)[j - 1]);
            }
        }
    }
}

/// After `setup` with a base and mask that do not overlap, in any run of
/// allocations: every id handed out agrees with the base outside the mask,
/// no id is handed out twice, and once an allocation fails with
/// `RanOutOfXid` every later one fails the same way.
pub proof fn lemma_setup_run(base: u32, mask: u32, k: nat)
    requires
        base & mask == 0,
    ensures
        run(setup_spec(base, mask), k).len() == k,
        forall|i: int|
            0 <= i < k && (#[trigger] run(setup_spec(base, mask), k)[i]) is Ok ==> run(
                setup_spec(base, mask),
                k,
            )[i]->Ok_0 & !mask == base & !mask,
        forall|i: int, j: int|
            0 <= i < j < k && (#[trigger] run(setup_spec(base, mask), k)[i]) is Ok
                && (#[trigger] run(setup_spec(base, mask), k)[j]) is Ok ==> run(
                setup_spec(base, mask),
                k,
            )[i]->Ok_0 != run(setup_spec(base, mask), k)[j]->Ok_0,
        forall|i: int|
            0 <= i < k ==> (#[trigger] run(setup_spec(base, mask), k)[i]) is Err ==> run(
                setup_spec(base, mask),
                k,
            )[i] == Err::<u32, XidError>(XidError::RanOutOfXid),
        forall|i: int, j: int|
            0 <= i < j < k && (#[trigger] run(setup_spec(base, mask), k)[i]) is Err ==> (
            #[trigger] run(setup_spec(base, mask), k)[j]) == Err::<u32, XidError>(
                XidError::RanOutOfXid,
            ),
{
    let s = setup_spec(base, mask);
    assert(0u32 & !mask == 0) by (bit_vector);
    lemma_run_ids_increase(s, k);
    lemma_run_in_range(s, k, mask);
    lemma_run_err_stays(s, k);
    lemma_run_errs_are_exhaustion(s, k);
}

proof fn lemma_run_errs_are_exhaustion(s: XidView, k: nat)
    ensures
        forall|i: int|
            0 <= i < k ==> (#[trigger] run(s, k)[i]) is Err ==> run(s, k)[i] == Err::<u32, XidError>(
                XidError::RanOutOfXid,
            ),
    decreases k,
{
    lemma_run_len(s, k);
    if k > 0 {
        let s2 = next_spec(s).1;
        lemma_run_errs_are_exhaustion(s2, (k - 1) as nat);
        assert forall|i: int| 0 <= i < k && (#[trigger] run(s, k)[i]) is Err implies run(s, k)[i]
            == Err::<u32, XidError>(XidError::RanOutOfXid) by {
            if i > 0 {
                assert(run(s, k)[i] == run(s2, (k - 1) as nat)[i - 1]);
            }
        }
    }
}

/// `setup` steps through the range by the lowest set bit of the mask: a
/// single bit of the mask below which the mask has no bit.
pub proof fn lemma_setup_increment(base: u32, mask: u32)
    ensures
        xid_wf(setup_spec(base, mask)),
        mask == 0 ==> setup_spec(base, mask).increment == 0,
        mask != 0 ==> {
            let inc = setup_spec(base, mask).increment;
            &&& inc != 0
            &&& inc & mask == inc
            &&& inc & (inc - 1) as u32 == 0
            &&& mask & (inc - 1) as u32 == 0
        },
{
    let inc = lowest_set_bit(mask);
    assert(0u32 & !mask == 0) by (bit_vector);
    assert(mask == 0 ==> mask & 0u32.wrapping_sub(mask) == 0) by (bit_vector);
    assert(mask != 0 ==> {
        let i = mask & 0u32.wrapping_sub(mask);
        &&& i != 0
        &&& i & mask == i
        &&& i & (i - 1) as u32 == 0
        &&& mask & (i - 1) as u32 == 0
    }) by (bit_vector);
}

} // verus!
