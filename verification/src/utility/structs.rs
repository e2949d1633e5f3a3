use vstd::prelude::*;

verus! {

/// Which of the two buffers of a [`PingPongData`] is the current one.
enum POP {
    First,
    Second,
}

/// Two values of the same type of which one is "current" and the other the
/// "other"; `ping_pong` swaps the roles (double buffering).
pub struct PingPongData<T> {
    first: T,
    second: T,
    current: POP,
}

impl<T> PingPongData<T> {
    /// The value handed out by `pull_current`.
    pub closed spec fn current_value(&self) -> T {
        match self.current {
            POP::First => self.first,
            POP::Second => self.second,
        }
    }

    /// The value handed out by `pull_other`.
    pub closed spec fn other_value(&self) -> T {
        match self.current {
            POP::First => self.second,
            POP::Second => self.first,
        }
    }

    /// The value in the slot that `new` filled first.
    pub closed spec fn first_value(&self) -> T {
        self.first
    }

    /// The value in the slot that `new` filled second.
    pub closed spec fn second_value(&self) -> T {
        self.second
    }

    /// Whether the first value given to `new` is the current one.
    pub closed spec fn first_is_current(&self) -> bool {
        self.current is First
    }

    pub fn new(first: T, second: T) -> (res: Self)
        ensures
            res.current_value() == first,
            res.other_value() == second,
            res.first_value() == first,
            res.second_value() == second,
            res.first_is_current(),
    {
        PingPongData { first, second, current: POP::First }
    }

    pub fn pull_current(&self) -> (res: &T)
        ensures
            *res == self.current_value(),
    {
        match self.current {
            POP::First => &self.first,
            POP::Second => &self.second,
        }
    }

    pub fn pull_other(&self) -> (res: &T)
        ensures
            *res == self.other_value(),
    {
        match self.current {
            POP::First => &self.second,
            POP::Second => &self.first,
        }
    }

    pub fn ping_pong(&mut self)
        ensures
            final(self).current_value() == old(self).other_value(),
            final(self).other_value() == old(self).current_value(),
            final(self).first_is_current() == !old(self).first_is_current(),
            final(self).first_value() == old(self).first_value(),
            final(self).second_value() == old(self).second_value(),
    {
        self.current = match self.current {
            POP::First => POP::Second,
            POP::Second => POP::First,
        };
    }
}

/// Swapping twice restores the starting roles: after two calls of
/// `ping_pong` the current and the other value are those of before.
pub proof fn lemma_ping_pong_twice<T>(a: PingPongData<T>, b: PingPongData<T>, c: PingPongData<T>)
    requires
        b.current_value() == a.other_value(),
        b.other_value() == a.current_value(),
        c.current_value() == b.other_value(),
        c.other_value() == b.current_value(),
    ensures
        c.current_value() == a.current_value(),
        c.other_value() == a.other_value(),
{
}

/// The two roles name the two slots: the current value is the one in the
/// first slot exactly when the first slot is current, and the other value
/// is then the one in the second slot (and the other way round).
pub proof fn lemma_roles_are_the_two_slots<T>(p: PingPongData<T>)
    ensures
        p.current_value() == (if p.first_is_current() { p.first_value() } else { p.second_value() }),
        p.other_value() == (if p.first_is_current() { p.second_value() } else { p.first_value() }),
{
}

/// `q` is `p` after one `ping_pong`, as its contract states.
pub open spec fn swap_step<T>(p: PingPongData<T>, q: PingPongData<T>) -> bool {
    &&& q.current_value() == p.other_value()
    &&& q.other_value() == p.current_value()
    &&& q.first_is_current() == !p.first_is_current()
    &&& q.first_value() == p.first_value()
    &&& q.second_value() == p.second_value()
}

/// After `n` swaps of a buffer whose current value was `a` and other value
/// `b`, the current value is `a` and the other `b` when `n` is even, and the
/// other way round when `n` is odd. `states` holds the buffer before the
/// first swap and after each one.
pub proof fn lemma_ping_pong_n<T>(states: Seq<PingPongData<T>>, a: T, b: T)
    requires
        states.len() > 0,
        states[0].current_value() == a,
        states[0].other_value() == b,
        forall|i: int| 0 <= i < states.len() - 1 ==> #[trigger] swap_step(states[i], states[i + 1]),
    ensures
        states.last().current_value() == (if (states.len() - 1) % 2 == 0 { a } else { b }),
        states.last().other_value() == (if (states.len() - 1) % 2 == 0 { b } else { a }),
    decreases states.len(),
{
    if states.len() > 1 {
        let prefix = states.drop_last();
        assert forall|i: int| 0 <= i < prefix.len() - 1 implies #[trigger] swap_step(prefix[i], prefix[i + 1]) by {
            assert(swap_step(states[i], states[i + 1]));
        }
        lemma_ping_pong_n(prefix, a, b);
        let k = states.len() - 2;
        assert(swap_step(states[k], states[k + 1]));
        assert(prefix.last() == states[k]);
    }
}

} // verus!
