//! Edge detection for mechanical signals: a level that stays high for many
//! ticks triggers its actuator once.

use vstd::prelude::*;

verus! {

/// The remembered level of one mechanical signal line. `false` is idle
/// (last seen low), `true` is active (last seen high).
#[derive(Clone, Copy, Debug, PartialEq, Eq, Structural)]
pub struct Latch {
    pub level: bool,
}

/// Whether a line that was at `previous` and is now at `current` has just
/// risen.
pub open spec fn rising(previous: bool, current: bool) -> bool {
    !previous && current
}

/// The level that a latch starting at `initial` has seen just before tick
/// `i` of `levels`.
pub open spec fn level_before(initial: bool, levels: Seq<bool>, i: int) -> bool {
    if i <= 0 {
        initial
    } else {
        levels[i - 1]
    }
}

/// The pulses that a latch starting at `initial` emits over `levels`, one
/// per tick: a pulse exactly where the line rises.
pub open spec fn pulses(initial: bool, levels: Seq<bool>) -> Seq<bool> {
    Seq::new(levels.len(), |i: int| rising(level_before(initial, levels, i), levels[i]))
}

/// The number of pulses in `pulses`.
pub open spec fn count_pulses(pulses: Seq<bool>) -> nat
    decreases pulses.len(),
{
    if pulses.len() == 0 {
        0
    } else {
        count_pulses(pulses.drop_last()) + if pulses.last() {
            1nat
        } else {
            0nat
        }
    }
}

impl Latch {
    /// A latch in the idle state.
    pub fn new() -> (latch: Latch)
        ensures
            !latch.level,
    {
        Latch { level: false }
    }

    /// Feeds the line's current level for this tick. Returns the one-shot
    /// pulse: true exactly when the line was low and is now high. The latch
    /// then remembers the current level.
    pub fn update(&mut self, level: bool) -> (pulse: bool)
        ensures
            pulse == rising(old(self).level, level),
            final(self).level == level,
    {
        let pulse = !self.level && level;
        self.level = level;
        pulse
    }

    /// Feeds a whole trace of levels, one per tick, and returns the pulse of
    /// each tick.
    pub fn extract(&mut self, levels: &Vec<bool>) -> (out: Vec<bool>)
        ensures
            out@ == pulses(old(self).level, levels@),
            final(self).level == level_before(old(self).level, levels@, levels@.len() as int),
    {
        let mut out: Vec<bool> = Vec::new();
        let mut i: usize = 0;
        while i < levels.len()
            invariant
                i <= levels.len(),
                out@.len() == i,
                self.level == level_before(old(self).level, levels@, i as int),
                forall|k: int|
                    0 <= k < i ==> out@[k] == rising(
                        level_before(old(self).level, levels@, k),
                        levels@[k],
                    ),
            decreases levels.len() - i,
        {
            let pulse = self.update(levels[i]);
            out.push(pulse);
            i += 1;
        }
        proof {
            assert(out@ =~= pulses(old(self).level, levels@));
        }
        out
    }
}

/// A pulse is emitted at tick `i` if and only if the line is high at `i`
/// and was low just before it.
pub proof fn lemma_pulse_iff_rising(initial: bool, levels: Seq<bool>, i: int)
    requires
        0 <= i < levels.len(),
    ensures
        pulses(initial, levels)[i] == (levels[i] && !level_before(initial, levels, i)),
        i > 0 ==> pulses(initial, levels)[i] == (levels[i] && !levels[i - 1]),
{
}

/// A line that stays asserted triggers once, not once per tick: two
/// consecutive ticks never both pulse.
pub proof fn lemma_no_repeated_pulse(initial: bool, levels: Seq<bool>, i: int)
    requires
        0 <= i,
        i + 1 < levels.len(),
    ensures
        !(pulses(initial, levels)[i] && pulses(initial, levels)[i + 1]),
{
}

/// A line held at one level never pulses after the first tick, and an idle
/// latch watching a line held low never pulses at all.
pub proof fn lemma_constant_line(initial: bool, levels: Seq<bool>, level: bool)
    requires
        forall|i: int| 0 <= i < levels.len() ==> levels[i] == level,
    ensures
        forall|i: int| 1 <= i < levels.len() ==> !#[trigger] pulses(initial, levels)[i],
        (initial || !level) ==> count_pulses(pulses(initial, levels)) == 0,
{
    let p = pulses(initial, levels);
    assert forall|i: int| 1 <= i < levels.len() implies !#[trigger] p[i] by {
        assert(levels[i - 1] == level);
    }
    if initial || !level {
        assert forall|i: int| 0 <= i < p.len() implies !#[trigger] p[i] by {
            if i > 0 {
                assert(levels[i - 1] == level);
            }
        }
        lemma_count_silent(p);
    }
}

/// A trace without any pulse counts zero.
pub proof fn lemma_count_silent(pulses: Seq<bool>)
    requires
        forall|i: int| 0 <= i < pulses.len() ==> !#[trigger] pulses[i],
    ensures
        count_pulses(pulses) == 0,
    decreases pulses.len(),
{
    if pulses.len() > 0 {
        lemma_count_silent(pulses.drop_last());
    }
}

} // verus!
