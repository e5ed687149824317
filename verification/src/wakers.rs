//! Sets of wakers, and the signal that one task waits for and another gives.

use vstd::prelude::*;

verus! {

/// The wakers that wait for one condition, in the order in which they came; a waker that wakes a
/// task already in the set is left out.
pub struct WakerSet<W> {
    wakers: Vec<W>,
}

impl<W> View for WakerSet<W> {
    type V = Seq<W>;

    closed spec fn view(&self) -> Seq<W> {
        self.wakers@
    }
}

/// What registering a waker makes of a set, whatever the comparison answers: the set stays as it
/// was when the comparison with one of its members came out true, and gets the waker at its end
/// when the comparison with every member came out false.
pub open spec fn registered<W, F: Fn(&W, &W) -> bool>(
    before: Seq<W>,
    waker: W,
    will_wake: F,
    after: Seq<W>,
) -> bool {
    ||| (after == before && exists|i: int|
        0 <= i < before.len() && call_ensures(will_wake, (&#[trigger] before[i], &waker), true))
    ||| (after == before.push(waker) && forall|i: int|
        0 <= i < before.len() ==> call_ensures(will_wake, (&#[trigger] before[i], &waker), false))
}

impl<W> WakerSet<W> {
    pub fn new() -> (set: Self)
        ensures
            set@ == Seq::<W>::empty(),
    {
        WakerSet { wakers: Vec::new() }
    }

    /// Add a waker to the set; `will_wake` tells whether two wakers wake the same task.
    pub fn register<F: Fn(&W, &W) -> bool>(&mut self, waker: W, will_wake: F)
        requires
            forall|a: W, b: W| call_requires(will_wake, (&a, &b)),
        ensures
            registered(old(self)@, waker, will_wake, final(self)@),
    {
        let mut i: usize = 0;
        while i < self.wakers.len()
            invariant
                i <= self.wakers.len(),
                self.wakers@ == old(self).wakers@,
                forall|a: W, b: W| call_requires(will_wake, (&a, &b)),
                forall|j: int|
                    0 <= j < i ==> call_ensures(
                        will_wake,
                        (&#[trigger] self.wakers@[j], &waker),
                        false,
                    ),
            decreases self.wakers.len() - i,
        {
            let known = will_wake(&self.wakers[i], &waker);
            if known {
                assert(call_ensures(will_wake, (&old(self)@[i as int], &waker), true));
                return ;
            }
            i += 1;
        }
        self.wakers.push(waker);
    }

    /// Hand out every waker, in order, and leave the set empty.
    pub fn wake_all(&mut self) -> (woken: Vec<W>)
        ensures
            woken@ == old(self)@,
            final(self)@ == Seq::<W>::empty(),
    {
        let mut woken: Vec<W> = Vec::new();
        core::mem::swap(&mut woken, &mut self.wakers);
        woken
    }

    /// Forget every waker without waking it.
    pub fn clear(&mut self)
        ensures
            final(self)@ == Seq::<W>::empty(),
    {
        self.wakers.clear();
    }
}

/// A set of wakers never holds two that wake the same task, when the comparison of wakers is the
/// relation `same`.
pub proof fn law_a_task_is_registered_once<W, F: Fn(&W, &W) -> bool>(
    before: Seq<W>,
    waker: W,
    will_wake: F,
    after: Seq<W>,
    same: spec_fn(W, W) -> bool,
)
    requires
        registered(before, waker, will_wake, after),
        forall|a: W, b: W, r: bool|
            #[trigger] call_ensures(will_wake, (&a, &b), r) ==> r == same(a, b),
        forall|i: int, j: int| 0 <= i < j < before.len() ==> !same(before[i], before[j]),
    ensures
        forall|i: int, j: int| 0 <= i < j < after.len() ==> !same(after[i], after[j]),
{
    if after != before {
        assert forall|i: int, j: int| 0 <= i < j < after.len() implies !same(
            after[i],
            after[j],
        ) by {
            if j == before.len() {
                assert(call_ensures(will_wake, (&before[i], &waker), false));
            }
        }
    }
}

/// A signal that one task gives and one task waits for.  It is given at most once until it is
/// taken, and remembers who waits.
pub struct AsyncSignal<W> {
    pub waker: Option<W>,
    pub signaled: bool,
}

impl<W> AsyncSignal<W> {
    /// The signal after someone tried to take it.
    pub open spec fn waited_for(self, waker: W) -> Self {
        if self.signaled {
            AsyncSignal { signaled: false, ..self }
        } else {
            AsyncSignal { waker: Some(waker), ..self }
        }
    }

    /// The signal after it was given.
    pub open spec fn given(self) -> Self {
        AsyncSignal { signaled: true, waker: None }
    }

    pub fn new() -> (signal: Self)
        ensures
            signal == (AsyncSignal::<W> { waker: None, signaled: false }),
    {
        AsyncSignal { waker: None, signaled: false }
    }

    /// Take the signal if it was given (`true`); otherwise remember `waker`, in place of the one
    /// remembered before (`false`).
    pub fn poll_wait(&mut self, waker: W) -> (ready: bool)
        ensures
            ready == old(self).signaled,
            *final(self) == old(self).waited_for(waker),
    {
        if self.signaled {
            self.signaled = false;
            true
        } else {
            self.waker = Some(waker);
            false
        }
    }

    /// Give the signal; the waker that waits for it, if one does, is to be woken.
    pub fn signal(&mut self) -> (woken: Option<W>)
        ensures
            *final(self) == old(self).given(),
            woken == old(self).waker,
    {
        self.signaled = true;
        self.waker.take()
    }
}

/// A signal that was given is taken by the next one who waits, and by nobody after that until it is
/// given again; and whoever waits is woken when it is given.
pub proof fn law_a_signal_is_taken_once<W>(signal: AsyncSignal<W>, first: W, second: W)
    ensures
        signal.given().signaled,
        !signal.given().waited_for(first).signaled,
        signal.given().waited_for(first).waited_for(second).waker == Some(second),
        !signal.signaled ==> signal.waited_for(first).waker == Some(first),
{
}

/// Whoever registers is woken with the rest: everyone who waited still does, in their order, and the
/// newcomer is behind them, unless someone who wakes the same task is there already.
pub proof fn law_whoever_registers_is_there<W, F: Fn(&W, &W) -> bool>(
    before: Seq<W>,
    waker: W,
    will_wake: F,
    after: Seq<W>,
)
    requires
        registered(before, waker, will_wake, after),
    ensures
        before.len() <= after.len() <= before.len() + 1,
        forall|i: int| 0 <= i < before.len() ==> #[trigger] after[i] == before[i],
        after.contains(waker) || exists|i: int|
            0 <= i < after.len() && call_ensures(will_wake, (&#[trigger] after[i], &waker), true),
        (forall|i: int|
            0 <= i < before.len() ==> !call_ensures(
                will_wake,
                (&#[trigger] before[i], &waker),
                true,
            )) ==> after == before.push(waker),
        before.len() > 0 && (forall|i: int|
            0 <= i < before.len() ==> !call_ensures(
                will_wake,
                (&#[trigger] before[i], &waker),
                false,
            )) ==> after == before,
{
    if after == before.push(waker) {
        assert(after[before.len() as int] == waker);
        if before.len() > 0 {
            assert(call_ensures(will_wake, (&before[0], &waker), false));
        }
    }
}

/// Giving a signal leaves it given and nobody waiting; whoever then waits takes it and is not noted;
/// whoever waits for one that was not given is noted in place of whoever waited before, and takes
/// nothing.
pub proof fn law_a_signal_is_given_or_waited_for<W>(signal: AsyncSignal<W>, waker: W)
    ensures
        signal.given().signaled && signal.given().waker is None,
        signal.signaled ==> !signal.waited_for(waker).signaled && signal.waited_for(waker).waker
            == signal.waker,
        !signal.signaled ==> !signal.waited_for(waker).signaled && signal.waited_for(waker).waker
            == Some(waker),
{
}

} // verus!
