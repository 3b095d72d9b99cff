//! The selection state machine: cursor movement over the catalog plus the
//! synthetic random-pick slot, the modal text-input overlay, the session
//! toggle flags, and the idle timeout that forces a random playback
//! decision. Every transition is a pure step from state and input event to
//! new state and requested action.

use vstd::prelude::*;

verus! {

/// Seconds of inactivity after which browsing decides on its own.
pub const IDLE_TIMEOUT_SECONDS: u64 = 30;

/// Session-context toggle flags, read at decision time.
#[derive(Clone, Copy, Debug, PartialEq, Eq, Structural)]
pub struct PlayerFlags {
    pub auto_play_next: bool,
    pub shuffle_queue: bool,
}

impl PlayerFlags {
    /// Autoplay starts on, shuffle starts off.
    pub fn new() -> (r: PlayerFlags)
        ensures
            r.auto_play_next,
            !r.shuffle_queue,
    {
        PlayerFlags { auto_play_next: true, shuffle_queue: false }
    }

    pub fn toggle_auto_play_next(&mut self)
        ensures
            final(self).auto_play_next == !old(self).auto_play_next,
            final(self).shuffle_queue == old(self).shuffle_queue,
    {
        self.auto_play_next = !self.auto_play_next;
    }

    pub fn check_auto_play_next(&self) -> (r: bool)
        ensures
            r == self.auto_play_next,
    {
        self.auto_play_next
    }

    pub fn toggle_shuffle_queue(&mut self)
        ensures
            final(self).shuffle_queue == !old(self).shuffle_queue,
            final(self).auto_play_next == old(self).auto_play_next,
    {
        self.shuffle_queue = !self.shuffle_queue;
    }

    pub fn check_shuffle_queue(&self) -> (r: bool)
        ensures
            r == self.shuffle_queue,
    {
        self.shuffle_queue
    }
}

/// One discrete input event, as the terminal layer reports it.
#[derive(Clone, Copy, Debug, PartialEq, Eq, Structural)]
pub enum KeyInput {
    MoveUp,
    MoveDown,
    Confirm,
    ToggleAutoplay,
    ToggleShuffle,
    OpenOverlay,
    Cancel,
    CharKey(char),
    Backspace,
    CursorLeft,
    CursorRight,
    Home,
    End,
}

/// What the session loop should do after a step. `PlayRandom` stands for a
/// decision with a uniformly random start index and shuffle forced on;
/// `resolve_random_play` turns it into concrete values.
#[derive(Clone, Copy, Debug, PartialEq, Eq, Structural)]
pub enum Action {
    Stay,
    Play { start_index: usize, shuffle: bool },
    PlayRandom,
    Exit,
}

/// The interactive selection screen's state. `cursor == catalog_len` is the
/// synthetic random-pick slot.
pub struct SelectionState {
    pub catalog_len: usize,
    pub cursor: usize,
    pub overlay_open: bool,
    pub overlay_text: Vec<char>,
    pub overlay_cursor: usize,
    pub last_input_at: u64,
}

/// Ghost image of the selection state.
#[verifier::ext_equal]
pub ghost struct StateView {
    pub catalog_len: nat,
    pub cursor: nat,
    pub overlay_open: bool,
    pub overlay_text: Seq<char>,
    pub overlay_cursor: nat,
    pub last_input_at: nat,
}

impl View for SelectionState {
    type V = StateView;

    open spec fn view(&self) -> StateView {
        StateView {
            catalog_len: self.catalog_len as nat,
            cursor: self.cursor as nat,
            overlay_open: self.overlay_open,
            overlay_text: self.overlay_text@,
            overlay_cursor: self.overlay_cursor as nat,
            last_input_at: self.last_input_at as nat,
        }
    }
}

/// The state invariant: the cursor stays inside the catalog plus the
/// random-pick slot, the overlay cursor inside the overlay text.
pub open spec fn state_wf(s: StateView) -> bool {
    s.cursor <= s.catalog_len && s.overlay_cursor <= s.overlay_text.len()
}

/// The transition relation of the selection screen: from state, flags and
/// input event to new state, new flags and requested action. Every input
/// re-arms the idle clock.
pub open spec fn spec_handle(s: StateView, f: PlayerFlags, key: KeyInput, now: nat) -> (
    StateView,
    PlayerFlags,
    Action,
) {
    let t = StateView { last_input_at: now, ..s };
    if !s.overlay_open {
        match key {
            KeyInput::MoveUp => (
                StateView {
                    cursor: if s.cursor > 0 {
                        (s.cursor - 1) as nat
                    } else {
                        s.catalog_len
                    },
                    ..t
                },
                f,
                Action::Stay,
            ),
            KeyInput::MoveDown => (
                StateView {
                    cursor: if s.cursor < s.catalog_len {
                        (s.cursor + 1) as nat
                    } else {
                        0
                    },
                    ..t
                },
                f,
                Action::Stay,
            ),
            KeyInput::Confirm => if s.cursor == s.catalog_len {
                (t, f, Action::PlayRandom)
            } else {
                (
                    t,
                    f,
                    Action::Play { start_index: s.cursor as usize, shuffle: f.shuffle_queue },
                )
            },
            KeyInput::ToggleAutoplay => (
                t,
                PlayerFlags { auto_play_next: !f.auto_play_next, ..f },
                Action::Stay,
            ),
            KeyInput::ToggleShuffle => (
                t,
                PlayerFlags { shuffle_queue: !f.shuffle_queue, ..f },
                Action::Stay,
            ),
            KeyInput::OpenOverlay => (
                StateView {
                    overlay_open: true,
                    overlay_text: Seq::empty(),
                    overlay_cursor: 0,
                    ..t
                },
                f,
                Action::Stay,
            ),
            KeyInput::Cancel => (t, f, Action::Exit),
            _ => (t, f, Action::Stay),
        }
    } else {
        match key {
            KeyInput::CharKey(c) => if s.overlay_text.len() < usize::MAX {
                (
                    StateView {
                        overlay_text: s.overlay_text.insert(s.overlay_cursor as int, c),
                        overlay_cursor: s.overlay_cursor + 1,
                        ..t
                    },
                    f,
                    Action::Stay,
                )
            } else {
                (t, f, Action::Stay)
            },
            KeyInput::Backspace => if s.overlay_cursor > 0 {
                (
                    StateView {
                        overlay_text: s.overlay_text.remove(s.overlay_cursor - 1),
                        overlay_cursor: (s.overlay_cursor - 1) as nat,
                        ..t
                    },
                    f,
                    Action::Stay,
                )
            } else {
                (t, f, Action::Stay)
            },
            KeyInput::CursorLeft => (
                StateView {
                    overlay_cursor: if s.overlay_cursor > 0 {
                        (s.overlay_cursor - 1) as nat
                    } else {
                        0
                    },
                    ..t
                },
                f,
                Action::Stay,
            ),
            KeyInput::CursorRight => (
                StateView {
                    overlay_cursor: if s.overlay_cursor < s.overlay_text.len() {
                        s.overlay_cursor + 1
                    } else {
                        s.overlay_text.len()
                    },
                    ..t
                },
                f,
                Action::Stay,
            ),
            KeyInput::Home => (StateView { overlay_cursor: 0, ..t }, f, Action::Stay),
            KeyInput::End => (
                StateView { overlay_cursor: s.overlay_text.len(), ..t },
                f,
                Action::Stay,
            ),
            KeyInput::Cancel => (
                StateView {
                    overlay_open: false,
                    overlay_text: Seq::empty(),
                    overlay_cursor: 0,
                    ..t
                },
                f,
                Action::Stay,
            ),
            _ => (t, f, Action::Stay),
        }
    }
}

/// Seconds since the last input, zero if the clock ran backwards.
pub open spec fn idle_elapsed(s: StateView, now: nat) -> nat {
    if now >= s.last_input_at {
        (now - s.last_input_at) as nat
    } else {
        0
    }
}

/// The idle timeout fires only while browsing.
pub open spec fn idle_expired(s: StateView, now: nat) -> bool {
    !s.overlay_open && idle_elapsed(s, now) >= IDLE_TIMEOUT_SECONDS
}

impl SelectionState {
    /// A fresh selection screen over a catalog of `catalog_len` entries.
    pub fn new(catalog_len: usize, now: u64) -> (r: SelectionState)
        ensures
            state_wf(r@),
            r@ == (StateView {
                catalog_len: catalog_len as nat,
                cursor: 0,
                overlay_open: false,
                overlay_text: Seq::empty(),
                overlay_cursor: 0,
                last_input_at: now as nat,
            }),
    {
        let r = SelectionState {
            catalog_len,
            cursor: 0,
            overlay_open: false,
            overlay_text: Vec::new(),
            overlay_cursor: 0,
            last_input_at: now,
        };
        proof {
            assert(r@ =~= StateView {
                catalog_len: catalog_len as nat,
                cursor: 0,
                overlay_open: false,
                overlay_text: Seq::empty(),
                overlay_cursor: 0,
                last_input_at: now as nat,
            });
        }
        r
    }

    /// Clamps a prospective overlay cursor to the overlay text.
    pub fn clamp_cursor(&self, new_cursor_pos: usize) -> (r: usize)
        ensures
            r == if new_cursor_pos <= self.overlay_text@.len() {
                new_cursor_pos as int
            } else {
                self.overlay_text@.len() as int
            },
    {
        let len = self.overlay_text.len();
        if new_cursor_pos <= len {
            new_cursor_pos
        } else {
            len
        }
    }

    /// Moves the overlay cursor one place left, stopping at the start.
    pub fn move_cursor_left(&mut self)
        requires
            state_wf(old(self)@),
        ensures
            final(self)@ == (StateView {
                overlay_cursor: if old(self)@.overlay_cursor > 0 {
                    (old(self)@.overlay_cursor - 1) as nat
                } else {
                    0
                },
                ..old(self)@
            }),
    {
        let moved: usize = if self.overlay_cursor > 0 {
            self.overlay_cursor - 1
        } else {
            0
        };
        self.overlay_cursor = self.clamp_cursor(moved);
        proof {
            assert(final(self)@ =~= StateView {
                overlay_cursor: if old(self)@.overlay_cursor > 0 {
                    (old(self)@.overlay_cursor - 1) as nat
                } else {
                    0
                },
                ..old(self)@
            });
        }
    }

    /// Moves the overlay cursor one place right, stopping at the end.
    pub fn move_cursor_right(&mut self)
        requires
            state_wf(old(self)@),
        ensures
            final(self)@ == (StateView {
                overlay_cursor: if old(self)@.overlay_cursor < old(self)@.overlay_text.len() {
                    old(self)@.overlay_cursor + 1
                } else {
                    old(self)@.overlay_text.len()
                },
                ..old(self)@
            }),
    {
        let moved: usize = if self.overlay_cursor < self.overlay_text.len() {
            self.overlay_cursor + 1
        } else {
            self.overlay_cursor
        };
        self.overlay_cursor = self.clamp_cursor(moved);
        proof {
            assert(final(self)@ =~= StateView {
                overlay_cursor: if old(self)@.overlay_cursor < old(self)@.overlay_text.len() {
                    old(self)@.overlay_cursor + 1
                } else {
                    old(self)@.overlay_text.len()
                },
                ..old(self)@
            });
        }
    }

    /// Inserts one character at the overlay cursor and advances it.
    pub fn enter_char(&mut self, new_char: char)
        requires
            state_wf(old(self)@),
        ensures
            state_wf(final(self)@),
            old(self)@.overlay_text.len() < usize::MAX ==> final(self)@ == (StateView {
                overlay_text: old(self)@.overlay_text.insert(
                    old(self)@.overlay_cursor as int,
                    new_char,
                ),
                overlay_cursor: old(self)@.overlay_cursor + 1,
                ..old(self)@
            }),
            old(self)@.overlay_text.len() >= usize::MAX ==> final(self)@ == old(self)@,
    {
        if self.overlay_text.len() < usize::MAX {
            self.overlay_text.insert(self.overlay_cursor, new_char);
            self.overlay_cursor = self.overlay_cursor + 1;
            proof {
                assert(final(self)@ =~= StateView {
                    overlay_text: old(self)@.overlay_text.insert(
                        old(self)@.overlay_cursor as int,
                        new_char,
                    ),
                    overlay_cursor: old(self)@.overlay_cursor + 1,
                    ..old(self)@
                });
            }
        } else {
            proof {
                assert(final(self)@ =~= old(self)@);
            }
        }
    }

    /// Removes the character left of the overlay cursor, if any, and moves
    /// the cursor back.
    pub fn delete_char(&mut self)
        requires
            state_wf(old(self)@),
        ensures
            state_wf(final(self)@),
            old(self)@.overlay_cursor > 0 ==> final(self)@ == (StateView {
                overlay_text: old(self)@.overlay_text.remove(old(self)@.overlay_cursor - 1),
                overlay_cursor: (old(self)@.overlay_cursor - 1) as nat,
                ..old(self)@
            }),
            old(self)@.overlay_cursor == 0 ==> final(self)@ == old(self)@,
    {
        if self.overlay_cursor != 0 {
            self.overlay_text.remove(self.overlay_cursor - 1);
            self.overlay_cursor = self.overlay_cursor - 1;
            proof {
                assert(final(self)@ =~= StateView {
                    overlay_text: old(self)@.overlay_text.remove(old(self)@.overlay_cursor - 1),
                    overlay_cursor: (old(self)@.overlay_cursor - 1) as nat,
                    ..old(self)@
                });
            }
        } else {
            proof {
                assert(final(self)@ =~= old(self)@);
            }
        }
    }

    /// Puts the overlay cursor at the start of the text.
    pub fn reset_cursor(&mut self)
        ensures
            final(self)@ == (StateView { overlay_cursor: 0, ..old(self)@ }),
    {
        self.overlay_cursor = 0;
        proof {
            assert(final(self)@ =~= StateView { overlay_cursor: 0, ..old(self)@ });
        }
    }

    /// Empties the overlay text and rests the cursor at the start.
    pub fn clear_input(&mut self)
        ensures
            final(self)@ == (StateView {
                overlay_text: Seq::empty(),
                overlay_cursor: 0,
                ..old(self)@
            }),
    {
        self.overlay_text.clear();
        self.reset_cursor();
        proof {
            assert(final(self)@ =~= StateView {
                overlay_text: Seq::empty(),
                overlay_cursor: 0,
                ..old(self)@
            });
        }
    }

    /// Applies one input event: the exec side of `spec_handle`.
    pub fn handle_key(&mut self, flags: &mut PlayerFlags, key: KeyInput, now: u64) -> (a: Action)
        requires
            state_wf(old(self)@),
        ensures
            state_wf(final(self)@),
            (final(self)@, *final(flags), a) == spec_handle(
                old(self)@,
                *old(flags),
                key,
                now as nat,
            ),
    {
        self.last_input_at = now;
        if !self.overlay_open {
            match key {
                KeyInput::MoveUp => {
                    if self.cursor > 0 {
                        self.cursor = self.cursor - 1;
                    } else {
                        self.cursor = self.catalog_len;
                    }
                    Action::Stay
                },
                KeyInput::MoveDown => {
                    if self.cursor < self.catalog_len {
                        self.cursor = self.cursor + 1;
                    } else {
                        self.cursor = 0;
                    }
                    Action::Stay
                },
                KeyInput::Confirm => {
                    if self.cursor == self.catalog_len {
                        Action::PlayRandom
                    } else {
                        Action::Play { start_index: self.cursor, shuffle: flags.shuffle_queue }
                    }
                },
                KeyInput::ToggleAutoplay => {
                    flags.toggle_auto_play_next();
                    Action::Stay
                },
                KeyInput::ToggleShuffle => {
                    flags.toggle_shuffle_queue();
                    Action::Stay
                },
                KeyInput::OpenOverlay => {
                    self.overlay_open = true;
                    self.clear_input();
                    Action::Stay
                },
                KeyInput::Cancel => Action::Exit,
                _ => Action::Stay,
            }
        } else {
            match key {
                KeyInput::CharKey(c) => {
                    self.enter_char(c);
                    Action::Stay
                },
                KeyInput::Backspace => {
                    self.delete_char();
                    Action::Stay
                },
                KeyInput::CursorLeft => {
                    self.move_cursor_left();
                    Action::Stay
                },
                KeyInput::CursorRight => {
                    self.move_cursor_right();
                    Action::Stay
                },
                KeyInput::Home => {
                    self.reset_cursor();
                    Action::Stay
                },
                KeyInput::End => {
                    self.overlay_cursor = self.overlay_text.len();
                    Action::Stay
                },
                KeyInput::Cancel => {
                    self.overlay_open = false;
                    self.clear_input();
                    Action::Stay
                },
                _ => Action::Stay,
            }
        }
    }

    /// One cooperative tick of the browsing loop: reports whether the idle
    /// deadline has passed and a random decision is due.
    pub fn on_tick(&self, now: u64) -> (a: Action)
        ensures
            a == (if idle_expired(self@, now as nat) {
                Action::PlayRandom
            } else {
                Action::Stay
            }),
    {
        if !self.overlay_open && now >= self.last_input_at && now - self.last_input_at
            >= IDLE_TIMEOUT_SECONDS {
            Action::PlayRandom
        } else {
            Action::Stay
        }
    }
}

/// Turns the random-pick decision into concrete playback parameters: a
/// start index inside the catalog, with shuffle forced on.
pub fn resolve_random_play(catalog_len: usize) -> (r: (usize, bool))
    requires
        catalog_len > 0,
    ensures
        r.0 < catalog_len,
        r.1,
{
    (crate::rng::random_index(catalog_len), true)
}

/// Every input event, in every state, re-arms the idle clock.
pub proof fn lemma_input_rearms_idle(s: StateView, f: PlayerFlags, key: KeyInput, now: nat)
    ensures
        spec_handle(s, f, key, now).0.last_input_at == now,
{
}

/// The selection cursor wraps at both ends: moving up from the first entry
/// lands on the random-pick slot, moving down from the random-pick slot
/// lands on the first entry.
pub proof fn lemma_cursor_wraps(s: StateView, f: PlayerFlags, now: nat)
    requires
        !s.overlay_open,
    ensures
        s.cursor == 0 ==> spec_handle(s, f, KeyInput::MoveUp, now).0.cursor == s.catalog_len,
        s.cursor == s.catalog_len ==> spec_handle(s, f, KeyInput::MoveDown, now).0.cursor == 0,
{
}

} // verus!
