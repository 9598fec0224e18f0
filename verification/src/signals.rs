//! Bookkeeping of forwarded signals: how many registrations forward each
//! signal (the forwarding handler is installed while there is one), and
//! which processes a signal goes to.

use vstd::prelude::*;

use crate::error::{Error, ErrorView};
use crate::text::{i32_to_decimal, signed_decimal};

verus! {

/// A signal that can be forwarded: a positive number that fits in one byte
/// of the forwarding pipe.
pub open spec fn forwardable(signal: i32) -> bool {
    0 < signal <= 255
}

/// Whether `signal` can be forwarded.
pub fn is_forwardable(signal: i32) -> (r: bool)
    ensures
        r == forwardable(signal),
{
    signal > 0 && signal <= 255
}

/// How many registrations forward `signal`.
pub open spec fn count_of(m: Map<i32, nat>, signal: i32) -> nat {
    if m.contains_key(signal) {
        m[signal]
    } else {
        0
    }
}

/// The counts after one more registration of `signal`.
pub open spec fn acquire_one(m: Map<i32, nat>, signal: i32) -> Map<i32, nat> {
    m.insert(signal, count_of(m, signal) + 1)
}

/// The counts after one registration of `signal` fewer; a signal that
/// nothing forwards is left alone.
pub open spec fn release_one(m: Map<i32, nat>, signal: i32) -> Map<i32, nat> {
    if count_of(m, signal) == 0 {
        m
    } else if count_of(m, signal) == 1 {
        m.remove(signal)
    } else {
        m.insert(signal, (count_of(m, signal) - 1) as nat)
    }
}

/// The counts after registering each of `signals`, in order.
pub open spec fn acquire_all(m: Map<i32, nat>, signals: Seq<i32>) -> Map<i32, nat>
    decreases signals.len(),
{
    if signals.len() == 0 {
        m
    } else {
        acquire_one(acquire_all(m, signals.drop_last()), signals.last())
    }
}

/// The counts after releasing each of `signals`, last first.
pub open spec fn release_all(m: Map<i32, nat>, signals: Seq<i32>) -> Map<i32, nat>
    decreases signals.len(),
{
    if signals.len() == 0 {
        m
    } else {
        release_all(release_one(m, signals.last()), signals.drop_last())
    }
}

/// The first signal of `signals` that cannot be forwarded.
pub open spec fn first_unforwardable(signals: Seq<i32>) -> Option<i32>
    decreases signals.len(),
{
    if signals.len() == 0 {
        None
    } else if !forwardable(signals[0]) {
        Some(signals[0])
    } else {
        first_unforwardable(signals.drop_first())
    }
}

/// The signals among `signals` whose forwarding starts when they are
/// registered in order on top of `m`: those whose count was zero.
pub open spec fn newly_forwarded(m: Map<i32, nat>, signals: Seq<i32>) -> Seq<i32>
    decreases signals.len(),
{
    if signals.len() == 0 {
        Seq::empty()
    } else {
        let rest = newly_forwarded(m, signals.drop_last());
        if count_of(acquire_all(m, signals.drop_last()), signals.last()) == 0 {
            rest.push(signals.last())
        } else {
            rest
        }
    }
}

/// The signals among `signals` whose forwarding ends when they are released
/// from `m`, last first: those whose count drops to zero.
pub open spec fn no_longer_forwarded(m: Map<i32, nat>, signals: Seq<i32>) -> Seq<i32>
    decreases signals.len(),
{
    if signals.len() == 0 {
        Seq::empty()
    } else {
        let head = if count_of(m, signals.last()) == 1 {
            seq![signals.last()]
        } else {
            Seq::empty()
        };
        head + no_longer_forwarded(release_one(m, signals.last()), signals.drop_last())
    }
}

/// No signal is counted as forwarded by nobody.
pub open spec fn counts_positive(m: Map<i32, nat>) -> bool {
    forall|k: i32| #[trigger] m.contains_key(k) ==> m[k] >= 1
}

/// Releasing a registration that was just made undoes it.
pub proof fn lemma_release_acquire(m: Map<i32, nat>, signal: i32)
    requires
        counts_positive(m),
    ensures
        release_one(acquire_one(m, signal), signal) == m,
        counts_positive(acquire_one(m, signal)),
{
    let a = acquire_one(m, signal);
    assert(count_of(a, signal) == count_of(m, signal) + 1);
    if count_of(m, signal) == 0 {
        assert(!m.contains_key(signal));
        assert(a.remove(signal) =~= m);
    } else {
        assert(a.insert(signal, count_of(m, signal)) =~= m);
    }
}

/// Registering signals keeps every count positive.
pub proof fn lemma_acquire_all_positive(m: Map<i32, nat>, signals: Seq<i32>)
    requires
        counts_positive(m),
    ensures
        counts_positive(acquire_all(m, signals)),
    decreases signals.len(),
{
    if signals.len() > 0 {
        lemma_acquire_all_positive(m, signals.drop_last());
        lemma_release_acquire(acquire_all(m, signals.drop_last()), signals.last());
    }
}

/// Registering a process for some signals and then unregistering it for
/// the same signals leaves every count as it was, so the handlers that are
/// installed are again exactly those of the other registrations.
pub proof fn law_register_unregister_restores(m: Map<i32, nat>, signals: Seq<i32>)
    requires
        counts_positive(m),
    ensures
        release_all(acquire_all(m, signals), signals) == m,
    decreases signals.len(),
{
    if signals.len() > 0 {
        let d = signals.drop_last();
        let a = acquire_all(m, d);
        lemma_acquire_all_positive(m, d);
        lemma_release_acquire(a, signals.last());
        law_register_unregister_restores(m, d);
    }
}

/// For each forwarded signal, the number of registrations that forward it.
///
/// Held as a `Vec` of (signal, count) pairs rather than a `HashMap`: the
/// table holds a handful of signals, and the well-formedness that gives its
/// map view (no signal twice, every count at least one) is stated over the
/// pairs directly.
#[derive(Debug, Default)]
pub struct SignalRefs {
    entries: Vec<(i32, usize)>,
}

impl SignalRefs {
    /// Each signal occurs once, with a count of at least one.
    pub closed spec fn wf(&self) -> bool {
        &&& forall|i: int, j: int|
            0 <= i < self.entries@.len() && 0 <= j < self.entries@.len() && i != j
                ==> #[trigger] self.entries@[i].0 != #[trigger] self.entries@[j].0
        &&& forall|i: int| 0 <= i < self.entries@.len() ==> #[trigger] self.entries@[i].1 >= 1
    }
}

impl View for SignalRefs {
    type V = Map<i32, nat>;

    closed spec fn view(&self) -> Map<i32, nat> {
        Map::new(
            |s: i32| exists|i: int| 0 <= i < self.entries@.len() && #[trigger] self.entries@[i].0 == s,
            |s: i32|
                self.entries@[choose|i: int| 0 <= i < self.entries@.len() && #[trigger] self.entries@[i].0 == s].1 as nat,
        )
    }
}

impl SignalRefs {
    /// A well-formed table counts every signal it holds at least once.
    pub proof fn lemma_view_positive(&self)
        requires
            self.wf(),
        ensures
            counts_positive(self@),
    {
        assert forall|k: i32| #[trigger] self@.contains_key(k) implies self@[k] >= 1 by {
            let i = choose|i: int| 0 <= i < self.entries@.len() && #[trigger] self.entries@[i].0 == k;
            self.lemma_view_at(i);
        }
    }

    /// No signal is forwarded.
    pub fn new() -> (r: Self)
        ensures
            r.wf(),
            r@ == Map::<i32, nat>::empty(),
    {
        let r = SignalRefs { entries: Vec::new() };
        assert(r@ =~= Map::<i32, nat>::empty());
        r
    }

    proof fn lemma_view_at(&self, i: int)
        requires
            self.wf(),
            0 <= i < self.entries@.len(),
        ensures
            self@.contains_key(self.entries@[i].0),
            self@[self.entries@[i].0] == self.entries@[i].1 as nat,
    {
        let s = self.entries@[i].0;
        let k = choose|k: int| 0 <= k < self.entries@.len() && #[trigger] self.entries@[k].0 == s;
        assert(self.entries@[k].0 == self.entries@[i].0);
    }

    fn find(&self, signal: i32) -> (r: Option<usize>)
        requires
            self.wf(),
        ensures
            match r {
                Some(i) => i < self.entries@.len() && self.entries@[i as int].0 == signal
                    && self@.contains_key(signal) && self@[signal] == self.entries@[i as int].1 as nat,
                None => !self@.contains_key(signal),
            },
    {
        let mut i: usize = 0;
        while i < self.entries.len()
            invariant
                self.wf(),
                i <= self.entries@.len(),
                forall|j: int| 0 <= j < i ==> #[trigger] self.entries@[j].0 != signal,
            decreases self.entries.len() - i,
        {
            if self.entries[i].0 == signal {
                proof {
                    self.lemma_view_at(i as int);
                }
                return Some(i);
            }
            i = i + 1;
        }
        None
    }

    /// How many registrations forward `signal`.
    pub fn count(&self, signal: i32) -> (r: usize)
        requires
            self.wf(),
        ensures
            r == count_of(self@, signal),
    {
        match self.find(signal) {
            Some(i) => self.entries[i].1,
            None => 0,
        }
    }

    /// One more registration forwards `signal`; the result tells whether it
    /// is the first, which must install the forwarding handler.
    pub fn acquire(&mut self, signal: i32) -> (first: bool)
        requires
            old(self).wf(),
            count_of(old(self)@, signal) < usize::MAX,
        ensures
            final(self).wf(),
            final(self)@ == old(self)@.insert(signal, count_of(old(self)@, signal) + 1),
            first == (count_of(old(self)@, signal) == 0),
    {
        let ghost before = self@;
        match self.find(signal) {
            Some(i) => {
                let c = self.entries[i].1;
                self.entries.set(i, (signal, c + 1));
                proof {
                    assert forall|s: i32| #[trigger] self@.contains_key(s) <==> before.insert(signal, (c + 1) as nat).contains_key(s) by {
                        if s == signal {
                            assert(self.entries@[i as int].0 == s);
                        }
                        if before.contains_key(s) && s != signal {
                            let k = choose|k: int| 0 <= k < old(self).entries@.len() && #[trigger] old(self).entries@[k].0 == s;
                            assert(self.entries@[k].0 == s);
                        }
                        if self@.contains_key(s) {
                            let k = choose|k: int| 0 <= k < self.entries@.len() && #[trigger] self.entries@[k].0 == s;
                            if k != i {
                                assert(old(self).entries@[k].0 == s);
                            }
                        }
                    }
                    assert forall|s: i32| #[trigger] self@.contains_key(s) implies self@[s] == before.insert(signal, (c + 1) as nat)[s] by {
                        let k = choose|k: int| 0 <= k < self.entries@.len() && #[trigger] self.entries@[k].0 == s;
                        self.lemma_view_at(k);
                        if k != i as int {
                            old(self).lemma_view_at(k);
                        }
                    }
                    assert(self@ =~= before.insert(signal, (c + 1) as nat));
                }
                false
            },
            None => {
                self.entries.push((signal, 1));
                proof {
                    let n = old(self).entries@.len() as int;
                    assert forall|s: i32| #[trigger] self@.contains_key(s) <==> before.insert(signal, 1).contains_key(s) by {
                        if before.contains_key(s) {
                            let k = choose|k: int| 0 <= k < old(self).entries@.len() && #[trigger] old(self).entries@[k].0 == s;
                            assert(self.entries@[k].0 == s);
                        }
                        if s == signal {
                            assert(self.entries@[n].0 == s);
                        }
                        if self@.contains_key(s) {
                            let k = choose|k: int| 0 <= k < self.entries@.len() && #[trigger] self.entries@[k].0 == s;
                            if k < n {
                                assert(old(self).entries@[k].0 == s);
                            }
                        }
                    }
                    assert forall|s: i32| #[trigger] self@.contains_key(s) implies self@[s] == before.insert(signal, 1)[s] by {
                        let k = choose|k: int| 0 <= k < self.entries@.len() && #[trigger] self.entries@[k].0 == s;
                        self.lemma_view_at(k);
                        if k < n {
                            old(self).lemma_view_at(k);
                        }
                    }
                    assert(self@ =~= before.insert(signal, 1));
                }
                true
            },
        }
    }

    /// One registration fewer forwards `signal`; the result tells whether it
    /// was the last, which must restore the previous handler. A signal that
    /// nothing forwards is left alone.
    pub fn release(&mut self, signal: i32) -> (last: bool)
        requires
            old(self).wf(),
        ensures
            final(self).wf(),
            count_of(old(self)@, signal) == 0 ==> final(self)@ == old(self)@ && !last,
            count_of(old(self)@, signal) == 1 ==> final(self)@ == old(self)@.remove(signal) && last,
            count_of(old(self)@, signal) > 1 ==> final(self)@ == old(self)@.insert(
                signal,
                (count_of(old(self)@, signal) - 1) as nat,
            ) && !last,
    {
        let ghost before = self@;
        match self.find(signal) {
            None => false,
            Some(i) => {
                let c = self.entries[i].1;
                if c > 1 {
                    self.entries.set(i, (signal, c - 1));
                    proof {
                        assert forall|s: i32| #[trigger] self@.contains_key(s) <==> before.insert(signal, (c - 1) as nat).contains_key(s) by {
                            if s == signal {
                                assert(self.entries@[i as int].0 == s);
                            }
                            if before.contains_key(s) && s != signal {
                                let k = choose|k: int| 0 <= k < old(self).entries@.len() && #[trigger] old(self).entries@[k].0 == s;
                                assert(self.entries@[k].0 == s);
                            }
                            if self@.contains_key(s) {
                                let k = choose|k: int| 0 <= k < self.entries@.len() && #[trigger] self.entries@[k].0 == s;
                                if k != i {
                                    assert(old(self).entries@[k].0 == s);
                                }
                            }
                        }
                        assert forall|s: i32| #[trigger] self@.contains_key(s) implies self@[s] == before.insert(signal, (c - 1) as nat)[s] by {
                            let k = choose|k: int| 0 <= k < self.entries@.len() && #[trigger] self.entries@[k].0 == s;
                            self.lemma_view_at(k);
                            if k != i as int {
                                old(self).lemma_view_at(k);
                            }
                        }
                        assert(self@ =~= before.insert(signal, (c - 1) as nat));
                    }
                    false
                } else {
                    let ghost old_entries = self.entries@;
                    self.entries.remove(i);
                    proof {
                        assert forall|s: i32| #[trigger] self@.contains_key(s) <==> before.remove(signal).contains_key(s) by {
                            if before.contains_key(s) && s != signal {
                                let k = choose|k: int| 0 <= k < old_entries.len() && #[trigger] old_entries[k].0 == s;
                                if k < i {
                                    assert(self.entries@[k].0 == s);
                                } else {
                                    assert(k != i);
                                    assert(self.entries@[k - 1].0 == s);
                                }
                            }
                            if self@.contains_key(s) {
                                let k = choose|k: int| 0 <= k < self.entries@.len() && #[trigger] self.entries@[k].0 == s;
                                if k < i {
                                    assert(old_entries[k].0 == s);
                                } else {
                                    assert(old_entries[k + 1].0 == s);
                                }
                            }
                        }
                        assert forall|s: i32| #[trigger] self@.contains_key(s) implies self@[s] == before.remove(signal)[s] by {
                            let k = choose|k: int| 0 <= k < self.entries@.len() && #[trigger] self.entries@[k].0 == s;
                            self.lemma_view_at(k);
                            if k < i {
                                old(self).lemma_view_at(k);
                            } else {
                                old(self).lemma_view_at(k + 1);
                            }
                        }
                        assert(self@ =~= before.remove(signal));
                    }
                    true
                }
            },
        }
    }

    /// Registers a process for `signals`, in order: each count goes up by
    /// one per occurrence. Refused, and nothing changed, when one of them
    /// cannot be forwarded. Gives the signals whose forwarding starts, in
    /// order; their handlers must be installed.
    pub fn register(&mut self, signals: &[i32]) -> (r: Result<Vec<i32>, Error>)
        requires
            old(self).wf(),
            forall|x: i32| signals@.contains(x) ==> count_of(old(self)@, x) + signals@.len() < usize::MAX,
        ensures
            final(self).wf(),
            match first_unforwardable(signals@) {
                Some(bad) => final(self)@ == old(self)@ && (r matches Err(e) && e@ == ErrorView::Process(
                    "signal "@ + signed_decimal(bad as int) + " cannot be forwarded"@,
                )),
                None => final(self)@ == acquire_all(old(self)@, signals@) && (r matches Ok(v) && v@
                    == newly_forwarded(old(self)@, signals@)),
            },
    {
        let mut k: usize = 0;
        assert(signals@.skip(0) =~= signals@);
        while k < signals.len()
            invariant
                k <= signals@.len(),
                self.wf(),
                first_unforwardable(signals@) == first_unforwardable(signals@.skip(k as int)),
            decreases signals.len() - k,
        {
            assert(signals@.skip(k as int).drop_first() =~= signals@.skip(k as int + 1));
            assert(signals@.skip(k as int)[0] == signals@[k as int]);
            if !is_forwardable(signals[k]) {
                let mut m = String::from_str("signal ");
                m.append(i32_to_decimal(signals[k]).as_str());
                m.append(" cannot be forwarded");
                return Err(Error::Process(m));
            }
            k = k + 1;
        }
        assert(signals@.skip(k as int).len() == 0);
        let ghost start = self@;
        let mut installs: Vec<i32> = Vec::new();
        let mut i: usize = 0;
        while i < signals.len()
            invariant
                i <= signals@.len(),
                self.wf(),
                self@ == acquire_all(start, signals@.take(i as int)),
                installs@ == newly_forwarded(start, signals@.take(i as int)),
                forall|x: i32| signals@.contains(x) ==> count_of(start, x) + signals@.len() < usize::MAX,
                forall|x: i32| count_of(self@, x) <= count_of(start, x) + i,
            decreases signals.len() - i,
        {
            let ghost pre = signals@.take(i as int);
            assert(signals@.take(i as int + 1).drop_last() =~= pre);
            assert(signals@.take(i as int + 1).last() == signals@[i as int]);
            let ghost before = self@;
            let ghost x = signals@[i as int];
            assert(count_of(before, x) <= count_of(start, x) + i);
            assert(signals@.contains(x));
            assert(count_of(start, x) + signals@.len() < usize::MAX);
            let first = self.acquire(signals[i]);
            if first {
                installs.push(signals[i]);
            }
            assert forall|x: i32| count_of(self@, x) <= count_of(start, x) + (i + 1) by {
                if x != signals@[i as int] {
                    assert(count_of(self@, x) == count_of(before, x));
                }
            }
            i = i + 1;
        }
        assert(signals@.take(signals@.len() as int) =~= signals@);
        Ok(installs)
    }

    /// Releases one registration of each of `signals`, last first. Gives the
    /// signals whose forwarding ends, in that order; their previous handlers
    /// must be restored.
    pub fn unregister(&mut self, signals: &[i32]) -> (r: Vec<i32>)
        requires
            old(self).wf(),
        ensures
            final(self).wf(),
            final(self)@ == release_all(old(self)@, signals@),
            r@ == no_longer_forwarded(old(self)@, signals@),
    {
        let mut restores: Vec<i32> = Vec::new();
        let mut i: usize = signals.len();
        let ghost start = self@;
        assert(signals@.take(i as int) =~= signals@);
        assert(restores@ + no_longer_forwarded(start, signals@) =~= no_longer_forwarded(start, signals@));
        while i > 0
            invariant
                i <= signals@.len(),
                self.wf(),
                release_all(start, signals@) == release_all(self@, signals@.take(i as int)),
                no_longer_forwarded(start, signals@) == restores@ + no_longer_forwarded(self@, signals@.take(i as int)),
            decreases i,
        {
            let ghost t = signals@.take(i as int);
            assert(t.drop_last() =~= signals@.take(i as int - 1));
            assert(t.last() == signals@[i as int - 1]);
            let ghost before = self@;
            let last = self.release(signals[i - 1]);
            let ghost rest = no_longer_forwarded(self@, signals@.take(i as int - 1));
            if last {
                restores.push(signals[i - 1]);
            }
            assert(restores@ + rest =~= no_longer_forwarded(start, signals@)) by {
                assert(no_longer_forwarded(before, t) == (if count_of(before, t.last()) == 1 {
                    seq![t.last()]
                } else {
                    Seq::<i32>::empty()
                }) + rest);
            }
            i = i - 1;
        }
        assert(signals@.take(0) =~= Seq::<i32>::empty());
        assert(restores@ + Seq::<i32>::empty() =~= restores@);
        restores
    }
}

/// The processes that `signal` goes to: those of the registrations (each a
/// process and the signals it wants) that list it, in order.
pub open spec fn forward_targets_spec(registrations: Seq<(u32, Seq<i32>)>, signal: i32) -> Seq<u32>
    decreases registrations.len(),
{
    if registrations.len() == 0 {
        Seq::empty()
    } else {
        let rest = forward_targets_spec(registrations.drop_last(), signal);
        if registrations.last().1.contains(signal) {
            rest.push(registrations.last().0)
        } else {
            rest
        }
    }
}

/// The registrations by their views.
pub open spec fn registration_views(r: Seq<(u32, Vec<i32>)>) -> Seq<(u32, Seq<i32>)> {
    r.map_values(|x: (u32, Vec<i32>)| (x.0, x.1@))
}

/// The processes that `signal` goes to.
pub fn forward_targets(registrations: &Vec<(u32, Vec<i32>)>, signal: i32) -> (r: Vec<u32>)
    ensures
        r@ == forward_targets_spec(registration_views(registrations@), signal),
{
    let ghost all = registration_views(registrations@);
    let mut r: Vec<u32> = Vec::new();
    let mut i: usize = 0;
    while i < registrations.len()
        invariant
            i <= registrations.len(),
            all == registration_views(registrations@),
            r@ == forward_targets_spec(all.take(i as int), signal),
        decreases registrations.len() - i,
    {
        assert(all.take(i as int + 1).drop_last() =~= all.take(i as int));
        assert(all.take(i as int + 1).last() == (registrations@[i as int].0, registrations@[i as int].1@));
        let (pid, signals) = (registrations[i].0, &registrations[i].1);
        let mut found = false;
        let mut k: usize = 0;
        while k < signals.len()
            invariant
                k <= signals.len(),
                found == (exists|j: int| 0 <= j < k && signals@[j] == signal),
            decreases signals.len() - k,
        {
            if signals[k] == signal {
                found = true;
            }
            k = k + 1;
        }
        assert(found == signals@.contains(signal));
        if found {
            r.push(pid);
        }
        i = i + 1;
    }
    assert(all.take(registrations.len() as int) =~= all);
    r
}

} // verus!
