//! The timer wheel: an ordered list of `(relative delay, payload)` pairs.
//!
//! Entry *i*'s absolute deadline is `base + psum(delays, i + 1)`: the head's
//! delay is relative to the caller's base instant, every later entry's delay
//! is relative to its predecessor's deadline.  Insertion keeps the list
//! sorted by deadline and puts a new entry after every existing entry with
//! the same deadline, so entries of equal deadline stay in arrival order.

use vstd::prelude::*;

verus! {

/// The sum of the first `n` delays, as a mathematical integer.
pub open spec fn psum(dl: Seq<u64>, n: int) -> int
    decreases n,
{
    if n <= 0 || dl.len() == 0 {
        0
    } else {
        dl[0] + psum(dl.drop_first(), n - 1)
    }
}

/// Where a new entry of relative deadline `delta` comes to stand: after
/// every entry whose deadline is at most `delta`.
pub open spec fn insert_pos(dl: Seq<u64>, delta: int) -> int
    decreases dl.len(),
{
    if dl.len() == 0 {
        0
    } else if delta >= dl[0] {
        1 + insert_pos(dl.drop_first(), delta - dl[0])
    } else {
        0
    }
}

/// The delay sequence after inserting an entry of relative deadline `delta`:
/// the walk subtracts each passed delay from `delta`, and the entry displaced
/// to just after the new one keeps its deadline by giving up the inserted
/// remainder.
pub open spec fn inserted_delays(dl: Seq<u64>, delta: int) -> Seq<u64>
    decreases dl.len(),
{
    if dl.len() == 0 {
        seq![delta as u64]
    } else if delta >= dl[0] {
        seq![dl[0]].add(inserted_delays(dl.drop_first(), delta - dl[0]))
    } else {
        seq![delta as u64, (dl[0] - delta) as u64].add(dl.drop_first())
    }
}

/// An ordered list of pending timers, kept as parallel vectors of relative
/// delays and payloads.
pub struct DeltaList<T> {
    delays: Vec<u64>,
    items: Vec<T>,
}

impl<T> DeltaList<T> {
    /// Both vectors move in step.
    pub closed spec fn wf(self) -> bool {
        self.delays@.len() == self.items@.len()
    }

    /// The relative delays, head first.
    pub closed spec fn delay_seq(self) -> Seq<u64> {
        self.delays@
    }

    /// The payloads, head first.
    pub closed spec fn item_seq(self) -> Seq<T> {
        self.items@
    }

    /// Entry `i`'s deadline relative to the caller's base instant.
    pub open spec fn deadline_of(self, i: int) -> int {
        psum(self.delay_seq(), i + 1)
    }

    /// An empty list.
    pub fn new() -> (r: Self)
        ensures
            r.wf(),
            r.delay_seq() == Seq::<u64>::empty(),
            r.item_seq() == Seq::<T>::empty(),
    {
        DeltaList { delays: Vec::new(), items: Vec::new() }
    }

    /// Whether no timer is pending.
    pub fn is_empty(&self) -> (r: bool)
        requires
            self.wf(),
        ensures
            r == (self.delay_seq().len() == 0),
    {
        self.delays.len() == 0
    }

    /// How many timers are pending.
    pub fn len(&self) -> (r: usize)
        requires
            self.wf(),
        ensures
            r == self.delay_seq().len(),
    {
        self.delays.len()
    }

    /// The head's relative delay, without mutation.
    pub fn front_delta(&self) -> (r: Option<u64>)
        requires
            self.wf(),
        ensures
            self.delay_seq().len() == 0 ==> r is None,
            self.delay_seq().len() > 0 ==> r == Some(self.delay_seq()[0]),
    {
        if self.delays.len() == 0 {
            None
        } else {
            Some(self.delays[0])
        }
    }

    /// Push the whole list `extra` into the future, saturating at the
    /// largest representable delay.  Used when the base instant moves back.
    pub fn add_front_delay(&mut self, extra: u64)
        requires
            old(self).wf(),
            old(self).delay_seq().len() > 0,
        ensures
            final(self).wf(),
            final(self).item_seq() == old(self).item_seq(),
            final(self).delay_seq().len() == old(self).delay_seq().len(),
            final(self).delay_seq()[0]
                == if old(self).delay_seq()[0] + extra <= u64::MAX {
                    (old(self).delay_seq()[0] + extra) as u64
                } else {
                    u64::MAX
                },
            forall|k: int|
                1 <= k < final(self).delay_seq().len() ==> final(self).delay_seq()[k] == old(
                    self,
                ).delay_seq()[k],
    {
        let head = self.delays[0];
        let bumped = if head <= u64::MAX - extra {
            head + extra
        } else {
            u64::MAX
        };
        self.delays.set(0, bumped);
    }

    /// Insert a payload at relative deadline `delta`: walk past every entry
    /// whose deadline is at most `delta`, insert the remainder there, and
    /// charge the displaced successor's delay with the difference, so that
    /// every other entry keeps its deadline.
    pub fn insert(&mut self, delta: u64, value: T)
        requires
            old(self).wf(),
        ensures
            final(self).wf(),
            final(self).delay_seq() == inserted_delays(old(self).delay_seq(), delta as int),
            final(self).item_seq() == old(self).item_seq().insert(
                insert_pos(old(self).delay_seq(), delta as int),
                value,
            ),
    {
        let ghost ds = self.delays@;
        let n = self.delays.len();
        let mut i: usize = 0;
        let mut d: u64 = delta;
        proof {
            assert(ds.skip(0) =~= ds);
            assert(ds.take(0) =~= Seq::<u64>::empty());
            assert(ds.take(0).add(inserted_delays(ds.skip(0), delta as int)) =~= inserted_delays(
                ds,
                delta as int,
            ));
        }
        while i < n && d >= self.delays[i]
            invariant
                self.wf(),
                self.delays@ == ds,
                n == ds.len(),
                0 <= i <= n,
                insert_pos(ds, delta as int) == i + insert_pos(ds.skip(i as int), d as int),
                inserted_delays(ds, delta as int) == ds.take(i as int).add(
                    inserted_delays(ds.skip(i as int), d as int),
                ),
            decreases n - i,
        {
            proof {
                assert(ds.skip(i as int)[0] == ds[i as int]);
                assert(ds.skip(i as int).drop_first() =~= ds.skip(i as int + 1));
                assert(ds.take(i as int).push(ds[i as int]) =~= ds.take(i as int + 1));
                assert(ds.take(i as int + 1).add(
                    inserted_delays(ds.skip(i as int + 1), d as int - ds[i as int]),
                ) =~= ds.take(i as int).add(
                    seq![ds[i as int]].add(
                        inserted_delays(ds.skip(i as int + 1), d as int - ds[i as int]),
                    ),
                ));
            }
            d = d - self.delays[i];
            i = i + 1;
        }
        proof {
            if i < n {
                assert(ds.skip(i as int)[0] == ds[i as int]);
                assert(ds.skip(i as int).drop_first() =~= ds.skip(i as int + 1));
            } else {
                assert(ds.skip(i as int) =~= Seq::<u64>::empty());
            }
        }
        if i < n {
            let succ = self.delays[i];
            self.delays.set(i, succ - d);
        }
        self.delays.insert(i, d);
        self.items.insert(i, value);
        proof {
            if i < ds.len() {
                assert(self.delays@ =~= ds.take(i as int).add(
                    seq![d, (ds[i as int] - d) as u64].add(ds.skip(i as int).drop_first()),
                ));
            } else {
                assert(self.delays@ =~= ds.take(i as int).add(seq![d]));
            }
            assert(self.delays@ =~= inserted_delays(ds, delta as int));
            assert(self.items@ =~= old(self).items@.insert(
                insert_pos(ds, delta as int),
                value,
            ));
        }
    }

    /// Remove and return the head: its relative delay and its payload.
    pub fn pop(&mut self) -> (r: Option<(u64, T)>)
        requires
            old(self).wf(),
        ensures
            final(self).wf(),
            old(self).delay_seq().len() == 0 ==> {
                &&& r is None
                &&& final(self).delay_seq() == old(self).delay_seq()
                &&& final(self).item_seq() == old(self).item_seq()
            },
            old(self).delay_seq().len() > 0 ==> {
                &&& r == Some((old(self).delay_seq()[0], old(self).item_seq()[0]))
                &&& final(self).delay_seq() == old(self).delay_seq().drop_first()
                &&& final(self).item_seq() == old(self).item_seq().drop_first()
            },
    {
        if self.delays.len() == 0 {
            None
        } else {
            let d = self.delays.remove(0);
            let v = self.items.remove(0);
            proof {
                assert(self.delays@ =~= old(self).delays@.drop_first());
                assert(self.items@ =~= old(self).items@.drop_first());
            }
            Some((d, v))
        }
    }
}

/// The walk's stopping point lies inside the list.
pub proof fn lemma_insert_pos_range<T>(dl: Seq<u64>, delta: int)
    ensures
        0 <= insert_pos(dl, delta) <= dl.len(),
    decreases dl.len(),
{
    if dl.len() > 0 && delta >= dl[0] {
        lemma_insert_pos_range::<T>(dl.drop_first(), delta - dl[0]);
    }
}

/// A well-formed list has as many delays as payloads.
pub proof fn lemma_wf_len<T>(dl: DeltaList<T>)
    requires
        dl.wf(),
    ensures
        dl.delay_seq().len() == dl.item_seq().len(),
{
}

/// One more delay, one more entry.
pub proof fn lemma_inserted_len(dl: Seq<u64>, delta: int)
    ensures
        inserted_delays(dl, delta).len() == dl.len() + 1,
    decreases dl.len(),
{
    if dl.len() > 0 && delta >= dl[0] {
        lemma_inserted_len(dl.drop_first(), delta - dl[0]);
    }
}

/// One more delay extends the prefix sum by exactly that delay.
pub proof fn lemma_psum_step(dl: Seq<u64>, n: int)
    requires
        0 <= n < dl.len(),
    ensures
        psum(dl, n + 1) == psum(dl, n) + dl[n],
    decreases n,
{
    assert(psum(dl, n + 1) == dl[0] + psum(dl.drop_first(), n));
    if n == 0 {
        assert(psum(dl.drop_first(), 0) == 0);
        assert(psum(dl, 0) == 0);
    } else {
        lemma_psum_step(dl.drop_first(), n - 1);
        assert(psum(dl, n) == dl[0] + psum(dl.drop_first(), n - 1));
        assert(dl.drop_first()[n - 1] == dl[n]);
    }
}

/// Prefixing a delay shifts every prefix sum by it.
pub proof fn lemma_psum_cons(x: u64, s: Seq<u64>, n: int)
    requires
        n >= 1,
    ensures
        psum(seq![x].add(s), n) == x + psum(s, n - 1),
{
    assert(seq![x].add(s).drop_first() =~= s);
    assert(seq![x].add(s)[0] == x);
}

/// After removing the head and advancing the base instant by its delay,
/// every remaining entry keeps its absolute deadline.
pub proof fn lemma_pop_deadlines(dl: Seq<u64>, k: int)
    requires
        dl.len() > 0,
        k >= 0,
    ensures
        psum(dl, k + 1) == dl[0] + psum(dl.drop_first(), k),
{
}

/// Insertion leaves every other entry's absolute deadline unchanged and
/// gives the new entry the requested one: the prefix sum over the first `k`
/// delays still equals the deadline, minus the base instant, of the entry
/// those `k` delays lead to.
pub proof fn lemma_insert_deadlines(dl: Seq<u64>, delta: int)
    requires
        0 <= delta <= u64::MAX,
    ensures
        forall|k: int|
            1 <= k <= insert_pos(dl, delta) ==> #[trigger] psum(inserted_delays(dl, delta), k)
                == psum(dl, k),
        psum(inserted_delays(dl, delta), insert_pos(dl, delta) + 1) == delta,
        forall|k: int|
            insert_pos(dl, delta) + 1 < k <= dl.len() + 1 ==> #[trigger] psum(
                inserted_delays(dl, delta),
                k,
            ) == psum(dl, k - 1),
    decreases dl.len(),
{
    lemma_insert_pos_range::<u64>(dl, delta);
    let pos = insert_pos(dl, delta);
    let ins = inserted_delays(dl, delta);
    if dl.len() == 0 {
        assert(ins == seq![delta as u64]);
        assert(ins[0] == delta as u64);
        assert(psum(ins.drop_first(), 0) == 0);
        assert(psum(ins, 1) == delta);
    } else if delta >= dl[0] {
        let rest = dl.drop_first();
        let d2 = delta - dl[0];
        let pos2 = insert_pos(rest, d2);
        let ins2 = inserted_delays(rest, d2);
        lemma_insert_pos_range::<u64>(rest, d2);
        lemma_insert_deadlines(rest, d2);
        assert(pos == 1 + pos2);
        assert(ins == seq![dl[0]].add(ins2));
        assert(seq![dl[0]].add(rest) =~= dl);
        assert forall|k: int| 1 <= k <= pos implies #[trigger] psum(ins, k) == psum(dl, k) by {
            lemma_psum_cons(dl[0], ins2, k);
            lemma_psum_cons(dl[0], rest, k);
        }
        assert(psum(ins, pos + 1) == delta) by {
            lemma_psum_cons(dl[0], ins2, pos + 1);
        }
        assert forall|k: int| pos + 1 < k <= dl.len() + 1 implies #[trigger] psum(ins, k)
            == psum(dl, k - 1) by {
            lemma_psum_cons(dl[0], ins2, k);
            lemma_psum_cons(dl[0], rest, k - 1);
        }
    } else {
        let rest = dl.drop_first();
        assert(ins == seq![delta as u64, (dl[0] - delta) as u64].add(rest));
        assert(seq![delta as u64, (dl[0] - delta) as u64].add(rest) =~= seq![
            delta as u64,
        ].add(seq![(dl[0] - delta) as u64].add(rest)));
        assert(seq![dl[0]].add(rest) =~= dl);
        assert(psum(ins, 1) == delta) by {
            lemma_psum_cons(delta as u64, seq![(dl[0] - delta) as u64].add(rest), 1);
        }
        assert forall|k: int| 1 < k <= dl.len() + 1 implies #[trigger] psum(ins, k) == psum(
            dl,
            k - 1,
        ) by {
            lemma_psum_cons(delta as u64, seq![(dl[0] - delta) as u64].add(rest), k);
            lemma_psum_cons((dl[0] - delta) as u64, rest, k - 1);
            lemma_psum_cons(dl[0], rest, k - 1);
        }
    }
}

/// Inserting into an empty list makes exactly one entry, at the head,
/// with the requested delay and payload; with `pop`'s contract this gives
/// the round trip: insert one timer into an empty list, pop it, and get
/// it back unchanged.
pub proof fn lemma_single_insert_round_trip<T>(delta: u64, value: T)
    ensures
        inserted_delays(Seq::<u64>::empty(), delta as int) =~= seq![delta],
        insert_pos(Seq::<u64>::empty(), delta as int) == 0,
        Seq::<T>::empty().insert(0, value) =~= seq![value],
{
}

} // verus!
