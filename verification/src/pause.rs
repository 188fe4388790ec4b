use vstd::prelude::*;

verus! {

/// A snapshot of the pause gate: bit 0 is the paused flag, the remaining bits
/// are a generation counter that moves forward on every update, so an update
/// taken before a newer one can be recognised as stale.
#[derive(Clone, Copy, Debug, PartialEq, Eq, Structural)]
pub struct PauseUpdate {
    pub state: u64,
}

/// The paused flag held in a gate word.
pub open spec fn word_paused(word: u64) -> bool {
    word % 2 == 1
}

/// The generation counter held in a gate word.
pub open spec fn word_generation(word: u64) -> int {
    (word / 2) as int
}

/// The word that follows `current` when an update asks for `paused`: the
/// generation moves on by one (wrapping at 2^63) and the flag is replaced.
pub open spec fn next_word(current: u64, paused: bool) -> u64 {
    (((word_generation(current) + 1) % 0x8000_0000_0000_0000) * 2 + (if paused { 1int } else { 0int })) as u64
}

/// The word a paused update is reset to: same generation slot moved on by
/// the reset (the odd word plus one, wrapping), with the flag cleared.
pub open spec fn reset_word(current: u64) -> u64 {
    ((current as int + 1) % 0x1_0000_0000_0000_0000) as u64
}

proof fn lemma_low_bit(x: u64)
    ensures
        (x & 1u64 != 0) == (x % 2 == 1),
{
    assert((x & 1u64 != 0) == (x % 2 == 1)) by (bit_vector);
}

impl PauseUpdate {
    /// The update every gate starts from: generation zero, not paused.
    pub fn initial() -> (update: PauseUpdate)
        ensures
            update.state == 0,
            !word_paused(update.state),
    {
        PauseUpdate { state: 0 }
    }

    /// Whether this update pauses actions.
    pub fn paused(self) -> (paused: bool)
        ensures
            paused == word_paused(self.state),
    {
        proof {
            lemma_low_bit(self.state);
        }
        self.state & 1 != 0
    }
}

/// The pause gate that host actions consult before acting.
#[derive(Clone, Copy, Debug, Default)]
pub struct ActionGate {
    pub state: u64,
}

impl ActionGate {
    /// A gate in its initial state.
    pub fn new() -> (gate: ActionGate)
        ensures
            gate.state == 0,
    {
        ActionGate { state: 0 }
    }

    /// Whether actions are currently paused.
    pub fn is_paused(&self) -> (paused: bool)
        ensures
            paused == word_paused(self.state),
    {
        proof {
            lemma_low_bit(self.state);
        }
        self.state & 1 != 0
    }

    pub fn is_current(&self, update: PauseUpdate) -> (current: bool)
        ensures
            current == (self.state == update.state),
    {
        self.state == update.state
    }

    pub fn current_update(&self) -> (update: PauseUpdate)
        ensures
            update.state == self.state,
    {
        PauseUpdate { state: self.state }
    }

    fn advance(&mut self, paused: bool) -> (update: PauseUpdate)
        ensures
            final(self).state == next_word(old(self).state, paused),
            update.state == final(self).state,
    {
        let generation = self.state / 2;
        let next_generation: u64 = if generation == 0x7fff_ffff_ffff_ffff { 0 } else { generation + 1 };
        let flag: u64 = if paused { 1 } else { 0 };
        let next = next_generation * 2 + flag;
        self.state = next;
        PauseUpdate { state: next }
    }

    /// Sets the paused flag, moving to a new generation.
    pub fn set_paused(&mut self, paused: bool) -> (update: PauseUpdate)
        ensures
            final(self).state == next_word(old(self).state, paused),
            update.state == final(self).state,
    {
        self.advance(paused)
    }

    /// Flips the paused flag, moving to a new generation.
    pub fn toggle(&mut self) -> (update: PauseUpdate)
        ensures
            final(self).state == next_word(old(self).state, !word_paused(old(self).state)),
            update.state == final(self).state,
    {
        let paused = self.is_paused();
        self.advance(!paused)
    }

    /// Clears a pause that is still the most recent one. A resume update is
    /// only checked for being current; a stale update changes nothing.
    pub fn reset_if_current(&mut self, update: PauseUpdate) -> (reset: bool)
        ensures
            !word_paused(update.state) ==> reset == (old(self).state == update.state)
                && final(self).state == old(self).state,
            word_paused(update.state) ==> reset == (old(self).state == update.state),
            word_paused(update.state) && reset ==> final(self).state == reset_word(update.state),
            !reset ==> final(self).state == old(self).state,
    {
        if !update.paused() {
            return self.is_current(update);
        }
        if self.state == update.state {
            let next: u64 = if update.state == u64::MAX { 0 } else { update.state + 1 };
            self.state = next;
            true
        } else {
            false
        }
    }
}

/// Law: every update leaves the pause gate on a word it was not on before, so a
/// snapshot taken before it is no longer current (a stale resume cannot be
/// mistaken for the newest one); the word carries the requested flag, and
/// clearing a pause leaves the pause gate resumed on a new word.
pub proof fn law_updates_make_older_snapshots_stale(word: u64, paused: bool)
    ensures
        next_word(word, paused) != word,
        word_paused(next_word(word, paused)) == paused,
        word_paused(word) ==> reset_word(word) != word && !word_paused(reset_word(word)),
{
    let g = word_generation(word);
    let f: int = if paused { 1 } else { 0 };
    let n = (g + 1) % 0x8000_0000_0000_0000;
    assert(0 <= g < 0x8000_0000_0000_0000);
    assert(n == g + 1 || (g + 1 == 0x8000_0000_0000_0000 && n == 0));
    assert(word as int == 2 * g + word % 2);
    assert(next_word(word, paused) as int == n * 2 + f);
}

} // verus!
