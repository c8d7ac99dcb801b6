//! The queue of errors shown to the user, each for a while.

use vstd::prelude::*;
use std::collections::VecDeque;

verus! {

/// Ticks that an error stays on screen: five seconds at thirty frames a second.
pub const TIMER_MAX: u8 = 150;

/// Errors waiting to be shown, oldest first, and the ticks left for the one
/// on screen.
pub struct Errors<E> {
    queue: VecDeque<E>,
    timer: Option<u8>,
}

/// The state of an error queue: its errors, oldest first, and its timer.
pub type ErrorsModel<E> = (Seq<E>, Option<u8>);

/// What pushing an error does.
pub open spec fn push_model<E>(s: ErrorsModel<E>, e: E) -> ErrorsModel<E> {
    (
        s.0.push(e),
        match s.1 {
            Some(t) => Some(t),
            None => Some(TIMER_MAX),
        },
    )
}

/// What one tick does: count down, and when the time is up drop the oldest
/// error and stop the timer.
pub open spec fn tick_model<E>(s: ErrorsModel<E>) -> ErrorsModel<E> {
    match s.1 {
        Some(t) => if t > 0 {
            (s.0, Some((t - 1) as u8))
        } else {
            (
                if s.0.len() > 0 {
                    s.0.drop_first()
                } else {
                    s.0
                },
                None,
            )
        },
        None => s,
    }
}

/// The state after `n` ticks.
pub open spec fn ticks_model<E>(s: ErrorsModel<E>, n: nat) -> ErrorsModel<E>
    decreases n,
{
    if n == 0 {
        s
    } else {
        ticks_model(tick_model(s), (n - 1) as nat)
    }
}

/// A queue that holds no errors runs no timer.
pub open spec fn model_ok<E>(s: ErrorsModel<E>) -> bool {
    s.0.len() == 0 ==> s.1 is None
}

impl<E> Errors<E> {
    #[verifier::type_invariant]
    spec fn timer_only_with_errors(self) -> bool {
        self.queue@.len() == 0 ==> self.timer is None
    }

    pub closed spec fn model(&self) -> ErrorsModel<E> {
        (self.queue@, self.timer)
    }

    /// No errors, no timer.
    pub fn new() -> (r: Errors<E>)
        ensures
            r.model() == (Seq::<E>::empty(), None::<u8>),
            model_ok(r.model()),
    {
        Errors { queue: VecDeque::new(), timer: None }
    }

    /// The error on screen: the oldest one.
    pub fn peek(&self) -> (r: Option<&E>)
        ensures
            self.model().0.len() == 0 ==> r is None,
            self.model().0.len() > 0 ==> r == Some(&self.model().0[0]),
            model_ok(self.model()),
    {
        proof {
            use_type_invariant(self);
        }
        if self.queue.len() == 0 {
            None
        } else {
            Some(&self.queue[0])
        }
    }

    /// Queues an error; starts the timer unless it runs already.
    pub fn push(&mut self, error: E)
        ensures
            final(self).model() == push_model(old(self).model(), error),
            model_ok(final(self).model()),
    {
        let mut taken = Errors::new();
        std::mem::swap(&mut taken, self);
        let Errors { mut queue, timer } = taken;
        queue.push_back(error);
        let timer = match timer {
            Some(t) => Some(t),
            None => Some(TIMER_MAX),
        };
        *self = Errors { queue, timer };
    }

    /// Counts down; when the time is up, drops the oldest error and stops
    /// the timer.
    pub fn tick(&mut self)
        ensures
            final(self).model() == tick_model(old(self).model()),
            model_ok(old(self).model()),
            model_ok(final(self).model()),
    {
        proof {
            use_type_invariant(&*self);
        }
        let mut taken = Errors::new();
        std::mem::swap(&mut taken, self);
        let Errors { mut queue, timer } = taken;
        let timer = match timer {
            Some(t) => if t > 0 {
                Some(t - 1)
            } else {
                let ghost before = queue@;
                let _ = queue.pop_front();
                assert(queue@ =~= if before.len() > 0 {
                    before.drop_first()
                } else {
                    before
                });
                None
            },
            None => None,
        };
        *self = Errors { queue, timer };
    }
}

/// A tick never adds, reorders or changes errors: it removes at most the
/// oldest one, leaves an empty queue as it is, and keeps an empty queue's
/// timer stopped.
pub proof fn lemma_tick_removes_at_most_front<E>(s: ErrorsModel<E>)
    requires
        model_ok(s),
    ensures
        tick_model(s).0 == s.0 || (s.0.len() >= 1 && tick_model(s).0 == s.0.drop_first()),
        s.0.len() == 0 ==> tick_model(s) == s,
        model_ok(tick_model(s)),
{
}

/// Pushing an error keeps an empty queue's timer stopped.
pub proof fn lemma_push_keeps_model_ok<E>(s: ErrorsModel<E>, e: E)
    ensures
        model_ok(push_model(s, e)),
{
}

/// An error pushed while no other is queued is on screen for the next
/// `TIMER_MAX` ticks and is gone after one more, which stops the timer.
pub proof fn lemma_error_shown_for_timer<E>(e: E, n: nat)
    ensures
        n <= TIMER_MAX ==> ticks_model(push_model((Seq::<E>::empty(), None::<u8>), e), n) == (
            seq![e],
            Some((TIMER_MAX - n) as u8),
        ),
        ticks_model(push_model((Seq::<E>::empty(), None::<u8>), e), (TIMER_MAX + 1) as nat) == (
            Seq::<E>::empty(),
            None::<u8>,
        ),
{
    let s0 = push_model((Seq::<E>::empty(), None::<u8>), e);
    assert(s0.0 =~= seq![e]);
    lemma_countdown(seq![e], TIMER_MAX, n);
    lemma_countdown(seq![e], TIMER_MAX, TIMER_MAX as nat);
    assert(tick_model((seq![e], Some(0u8))) == (Seq::<E>::empty(), None::<u8>)) by {
        assert(seq![e].drop_first() =~= Seq::<E>::empty());
    }
    lemma_ticks_split(s0, TIMER_MAX as nat);
}

proof fn lemma_countdown<E>(q: Seq<E>, t: u8, n: nat)
    ensures
        n <= t ==> ticks_model((q, Some(t)), n) == (q, Some((t - n) as u8)),
    decreases n,
{
    if n > 0 && n <= t {
        lemma_countdown(q, (t - 1) as u8, (n - 1) as nat);
    }
}

proof fn lemma_ticks_split<E>(s: ErrorsModel<E>, n: nat)
    ensures
        ticks_model(s, n + 1) == tick_model(ticks_model(s, n)),
    decreases n,
{
    reveal_with_fuel(ticks_model, 2);
    if n > 0 {
        lemma_ticks_split(tick_model(s), (n - 1) as nat);
        assert(ticks_model(s, n + 1) == ticks_model(tick_model(s), n));
    }
}

} // verus!
