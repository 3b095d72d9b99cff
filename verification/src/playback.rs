//! The playback driver's decision core: which queue position plays next
//! and whether playback continues after each player exit. The session loop
//! that actually spawns the player feeds exit codes in through
//! `record_exit` and reads the next entry from `current`.

use crate::catalog::CatalogEntry;
use vstd::prelude::*;

verus! {

/// Playback goes on after an entry exactly when the player exited cleanly
/// and autoplay-next is on.
pub open spec fn continues(exit_code: i32, autoplay: bool) -> bool {
    exit_code == 0 && autoplay
}

/// The continuation decision the driver takes after one entry.
pub fn should_continue(exit_code: i32, autoplay: bool) -> (r: bool)
    ensures
        r == continues(exit_code, autoplay),
{
    exit_code == 0 && autoplay
}

/// How many queue positions a session plays, given the exit code each
/// position would produce and a fixed autoplay flag: every entry up to and
/// including the first one that stops continuation, all of them when
/// nothing stops it.
pub open spec fn played_count(codes: Seq<i32>, autoplay: bool) -> nat
    decreases codes.len(),
{
    if codes.len() == 0 {
        0
    } else if continues(codes[0], autoplay) {
        (1 + played_count(codes.drop_first(), autoplay)) as nat
    } else {
        1
    }
}

/// With autoplay on and a clean exit for every queued entry, the whole
/// queue is played: nothing halts early.
pub proof fn lemma_playback_plays_all(codes: Seq<i32>, autoplay: bool)
    requires
        autoplay,
        forall|i: int| 0 <= i < codes.len() ==> codes[i] == 0,
    ensures
        played_count(codes, autoplay) == codes.len(),
    decreases codes.len(),
{
    if codes.len() > 0 {
        lemma_playback_plays_all(codes.drop_first(), autoplay);
    }
}

/// A non-zero exit at position `k` (counting from zero, clean exits before
/// it) halts playback at once: exactly `k + 1` entries run, the rest never
/// start.
pub proof fn lemma_playback_halts_at(codes: Seq<i32>, autoplay: bool, k: int)
    requires
        autoplay,
        0 <= k < codes.len(),
        codes[k] != 0,
        forall|j: int| 0 <= j < k ==> codes[j] == 0,
    ensures
        played_count(codes, autoplay) == k + 1,
    decreases k,
{
    if k > 0 {
        assert(forall|j: int|
            0 <= j < k - 1 ==> codes.drop_first()[j] == codes[j + 1] && codes[j + 1] == 0);
        assert(codes.drop_first()[k - 1] != 0);
        lemma_playback_halts_at(codes.drop_first(), autoplay, k - 1);
    }
}

/// Turning autoplay off halts after the first entry, whatever its exit.
pub proof fn lemma_playback_single_without_autoplay(codes: Seq<i32>)
    requires
        codes.len() > 0,
    ensures
        played_count(codes, false) == 1,
{
}

/// One playback session: the immutable queue and how far it has run.
pub struct PlaybackSession {
    pub queue: Vec<CatalogEntry>,
    pub pos: usize,
    pub halted: bool,
}

impl PlaybackSession {
    /// The position never leaves the queue.
    pub open spec fn wf(&self) -> bool {
        self.pos <= self.queue@.len()
    }

    /// A fresh session at the head of a queue.
    pub fn new(queue: Vec<CatalogEntry>) -> (r: PlaybackSession)
        ensures
            r.wf(),
            r.queue == queue,
            r.pos == 0,
            !r.halted,
    {
        PlaybackSession { queue, pos: 0, halted: false }
    }

    /// The entry to hand to the player now, or nothing when the session is
    /// over (halted, or the queue exhausted).
    pub fn current(&self) -> (r: Option<&CatalogEntry>)
        requires
            self.wf(),
        ensures
            match r {
                Some(e) => !self.halted && self.pos < self.queue@.len() && *e
                    == self.queue@[self.pos as int],
                None => self.halted || self.pos == self.queue@.len(),
            },
    {
        if self.halted || self.pos >= self.queue.len() {
            None
        } else {
            Some(&self.queue[self.pos])
        }
    }

    /// Records the player's exit status for the current entry: the session
    /// advances one position and halts unless continuation is allowed.
    pub fn record_exit(&mut self, exit_code: i32, autoplay: bool)
        requires
            old(self).wf(),
            !old(self).halted,
            old(self).pos < old(self).queue@.len(),
        ensures
            final(self).wf(),
            final(self).queue == old(self).queue,
            final(self).pos == old(self).pos + 1,
            final(self).halted == !continues(exit_code, autoplay),
    {
        let n: usize = self.queue.len();
        assert(self.pos < n);
        self.pos = self.pos + 1;
        if !should_continue(exit_code, autoplay) {
            self.halted = true;
        }
    }
}

} // verus!
