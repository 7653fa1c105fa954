//! The PTY probe: a minimal application that a harness drives over a control socket, used
//! to check how the terminal framework renders, resizes and edits.

use vstd::prelude::*;
use crate::draft::{Draft, DraftView, InputEvent};
use crate::text::{decimal, decimal_of, fold_line_breaks, folded, lemma_folded_single_line, push_char, same_text};

verus! {

/// A state update from the harness.
pub struct FrameUpdate {
    pub items: Option<Vec<String>>,
    pub frame: Option<u32>,
    pub fail: Option<bool>,
}

/// A control command from the harness.
pub struct ProbeCommand {
    pub id: Option<u32>,
    pub action: Option<String>,
    pub state: Option<FrameUpdate>,
}

/// What reaches the probe.
pub enum ProbeMsg {
    Command(ProbeCommand),
    Edit(InputEvent),
    Submit,
    Resize(u16, u16),
    Quit(u8),
}

/// What the probe asks its driver to do.
pub enum ProbeAction {
    /// Write a line into the scrollback.
    Push(String),
    /// Acknowledge the command with this id on the control socket.
    Ack(u32),
    /// Leave with this exit code.
    Exit(u8),
}

/// The probe's state.
pub struct Probe {
    pub input: Draft,
    pub frame: u32,
    pub fail: bool,
    pub committed: usize,
    pub columns: u16,
    pub rows: u16,
}

/// The live line `index` of frame `frame`: `LIVE<frame>:<index>`.
pub open spec fn live_line(frame: u32, index: int) -> Seq<char> {
    "LIVE"@ + decimal_of(frame as nat) + seq![':'] + decimal_of(index as nat)
}

impl ProbeCommand {
    /// The command asks the probe to close.
    pub open spec fn closes(self) -> bool {
        self.action matches Some(a) && a@ == "close"@
    }

    /// The command lists items, and the probe has not pushed more than it lists.
    pub open spec fn items_in_range(self, committed: usize) -> bool {
        self.closes() || match self.state {
            Some(s) => match s.items {
                Some(items) => committed <= items@.len(),
                None => true,
            },
            None => true,
        }
    }
}

impl Probe {
    pub open spec fn wf(self) -> bool {
        self.input.wf()
    }

    /// The initial probe for an 80 by 24 terminal.
    pub fn new() -> (p: Probe)
        ensures
            p.wf(),
            p.input@ == DraftView::empty(),
            p.frame == 0,
            !p.fail,
            p.committed == 0,
            p.columns == 80,
            p.rows == 24,
    {
        Probe { input: Draft::new(), frame: 0, fail: false, committed: 0, columns: 80, rows: 24 }
    }

    /// What a command does: `close` exits with 0; a state update pushes the items not yet
    /// pushed, in order, and takes the frame number and failure flag it carries; a command
    /// with an id is acknowledged last.
    pub open spec fn command_step(self, post: Probe, c: ProbeCommand, acts: Seq<ProbeAction>) -> bool {
        if c.closes() {
            post == self && acts == seq![ProbeAction::Exit(0)]
        } else {
            let (pushed, committed) = match c.state {
                Some(s) => match s.items {
                    Some(items) => (items@.skip(self.committed as int), items@.len() as usize),
                    None => (Seq::empty(), self.committed),
                },
                None => (Seq::empty(), self.committed),
            };
            let frame = match c.state {
                Some(s) => match s.frame {
                    Some(f) => f,
                    None => self.frame,
                },
                None => self.frame,
            };
            let fail = match c.state {
                Some(s) => match s.fail {
                    Some(f) => f,
                    None => self.fail,
                },
                None => self.fail,
            };
            let acks = match c.id {
                Some(id) => seq![ProbeAction::Ack(id)],
                None => Seq::empty(),
            };
            &&& post == (Probe { committed, frame, fail, ..self })
            &&& acts == pushed.map_values(|t: String| ProbeAction::Push(t)) + acks
        }
    }

    /// What every message does.
    pub open spec fn step(self, post: Probe, msg: ProbeMsg, acts: Seq<ProbeAction>) -> bool {
        match msg {
            ProbeMsg::Command(c) => self.command_step(post, c, acts),
            ProbeMsg::Edit(ev) => {
                let d = match ev {
                    InputEvent::Paste(v) => self.input@.insert_inline(folded(v@, false)),
                    InputEvent::Key(k) => self.input@.key(k),
                    InputEvent::Other => self.input@,
                };
                post.input@ == d && post == (Probe { input: post.input, ..self }) && acts.len()
                    == 0
            },
            ProbeMsg::Submit => {
                &&& post.input@ == DraftView::empty()
                &&& post == (Probe { input: post.input, ..self })
                &&& acts.len() == 1
                &&& acts[0] matches ProbeAction::Push(t) && t@ == "INPUT:"@ + self.input@.text()
            },
            ProbeMsg::Resize(columns, rows) => post == (Probe { columns, rows, ..self })
                && acts.len() == 0,
            ProbeMsg::Quit(code) => post == self && acts == seq![ProbeAction::Exit(code)],
        }
    }

    /// Answer one message (see [`Probe::step`]). A state update must not list fewer items
    /// than were already pushed.
    pub fn update(&mut self, msg: ProbeMsg) -> (acts: Vec<ProbeAction>)
        requires
            old(self).wf(),
            msg matches ProbeMsg::Command(c) ==> c.items_in_range(old(self).committed),
        ensures
            final(self).wf(),
            old(self).step(*final(self), msg, acts@),
    {
        let mut acts: Vec<ProbeAction> = Vec::new();
        match msg {
            ProbeMsg::Command(c) => {
                proof {
                    reveal_strlit("close");
                }
                let closes = match &c.action {
                    Some(a) => same_text(a.as_str(), "close"),
                    None => false,
                };
                if closes {
                    acts.push(ProbeAction::Exit(0));
                    return acts;
                }
                let ghost pre = *self;
                if let Some(state) = c.state {
                    if let Some(items) = state.items {
                        let n = items.len();
                        let start = self.committed;
                        for i in start..n
                            invariant
                                start <= n,
                                n == items@.len(),
                                acts@ == items@.subrange(start as int, i as int).map_values(
                                    |t: String| ProbeAction::Push(t),
                                ),
                        {
                            acts.push(ProbeAction::Push(items[i].clone()));
                            assert(items@.subrange(start as int, i + 1) =~= items@.subrange(
                                start as int,
                                i as int,
                            ).push(items@[i as int]));
                            assert(acts@ =~= items@.subrange(start as int, i + 1).map_values(
                                |t: String| ProbeAction::Push(t),
                            ));
                        }
                        assert(items@.subrange(start as int, n as int) =~= items@.skip(start as int));
                        self.committed = n;
                    }
                    if let Some(frame) = state.frame {
                        self.frame = frame;
                    }
                    if let Some(fail) = state.fail {
                        self.fail = fail;
                    }
                }
                let ghost pushed = acts@;
                if let Some(id) = c.id {
                    acts.push(ProbeAction::Ack(id));
                }
                assert(acts@ =~= pushed + match c.id {
                    Some(id) => seq![ProbeAction::Ack(id)],
                    None => Seq::empty(),
                });
                acts
            },
            ProbeMsg::Edit(ev) => {
                match ev {
                    InputEvent::Paste(v) => {
                        let line = fold_line_breaks(v.as_str(), false);
                        proof {
                            lemma_folded_single_line(v@, false);
                        }
                        self.input.insert_inline(line.as_str());
                    },
                    InputEvent::Key(k) => self.input.handle_key(k),
                    InputEvent::Other => {},
                }
                acts
            },
            ProbeMsg::Submit => {
                let mut t = String::from_str("INPUT:");
                t.append(self.input.take_text().as_str());
                proof {
                    reveal_strlit("INPUT:");
                }
                acts.push(ProbeAction::Push(t));
                acts
            },
            ProbeMsg::Resize(columns, rows) => {
                self.columns = columns;
                self.rows = rows;
                acts
            },
            ProbeMsg::Quit(code) => {
                acts.push(ProbeAction::Exit(code));
                acts
            },
        }
    }

    /// Rows of the probe's live area: one less than the terminal, between one and four.
    pub open spec fn live_height(self) -> int {
        let h = if self.rows >= 1 {
            self.rows - 1
        } else {
            0
        };
        if h < 1 {
            1
        } else if h > 4 {
            4
        } else {
            h
        }
    }

    /// The live lines above the input: one per row but the input's, each cut to the
    /// terminal's width in characters.
    pub open spec fn live_lines(self) -> Seq<Seq<char>> {
        Seq::new(
            (self.live_height() - 1) as nat,
            |i: int| {
                let l = live_line(self.frame, i);
                l.take(if (self.columns as int) < l.len() {
                    self.columns as int
                } else {
                    l.len() as int
                })
            },
        )
    }

    /// The live lines (see [`Probe::live_lines`]); the input row follows them. A probe told
    /// to fail must not be drawn.
    pub fn tail(&self) -> (lines: Vec<String>)
        requires
            !self.fail,
        ensures
            crate::text::views(lines@) == self.live_lines(),
            lines@.len() <= 3,
            forall|i: int| 0 <= i < lines@.len() ==> #[trigger] lines@[i]@.len() <= self.columns,
    {
        let h: u16 = if self.rows >= 1 {
            self.rows - 1
        } else {
            0
        };
        let height: u16 = if h < 1 {
            1
        } else if h > 4 {
            4
        } else {
            h
        };
        let mut lines: Vec<String> = Vec::new();
        for index in 0..height - 1
            invariant
                height == self.live_height(),
                crate::text::views(lines@) == self.live_lines().take(index as int),
        {
            let mut full = String::from_str("LIVE");
            full.append(decimal(self.frame as usize).as_str());
            push_char(&mut full, ':');
            full.append(decimal(index as usize).as_str());
            proof {
                reveal_strlit("LIVE");
            }
            assert(full@ =~= live_line(self.frame, index as int));
            let n = full.unicode_len();
            let keep = if (self.columns as usize) < n {
                self.columns as usize
            } else {
                n
            };
            let line = String::from_str(full.as_str().substring_char(0, keep));
            assert(full@.subrange(0, keep as int) =~= full@.take(keep as int));
            let ghost before = lines@;
            lines.push(line);
            assert(lines@ == before.push(line));
            assert(crate::text::views(lines@) =~= crate::text::views(before).push(line@));
            assert(self.live_lines()[index as int] == full@.take(keep as int));
            assert(crate::text::views(lines@) =~= self.live_lines().take(index + 1));
        }
        assert(self.live_lines().take((height - 1) as int) =~= self.live_lines());
        assert forall|i: int| 0 <= i < lines@.len() implies #[trigger] lines@[i]@.len()
            <= self.columns by {
            assert(crate::text::views(lines@)[i] == lines@[i]@);
        }
        lines
    }
}

} // verus!

verus! {

/// A probe key binding: `scoped` bindings apply while the input has focus.
pub struct ProbeBinding {
    pub key: crate::draft::KeyPress,
    pub msg: ProbeMsg,
    pub scoped: bool,
}

impl Probe {
    /// Ctrl+C quits with 130, Ctrl+D with 0, Enter submits; every other key edits.
    pub fn keymap() -> (r: Vec<ProbeBinding>)
        ensures
            r@ == seq![
                ProbeBinding { key: crate::update::ctrl('c'), msg: ProbeMsg::Quit(130), scoped: false },
                ProbeBinding { key: crate::update::ctrl('d'), msg: ProbeMsg::Quit(0), scoped: false },
                ProbeBinding {
                    key: crate::update::bare(crate::draft::KeyCode::Enter),
                    msg: ProbeMsg::Submit,
                    scoped: true,
                },
            ],
    {
        let mut r = Vec::new();
        r.push(ProbeBinding {
            key: crate::draft::KeyPress { code: crate::draft::KeyCode::Char('c'), ctrl: true, alt: false },
            msg: ProbeMsg::Quit(130),
            scoped: false,
        });
        r.push(ProbeBinding {
            key: crate::draft::KeyPress { code: crate::draft::KeyCode::Char('d'), ctrl: true, alt: false },
            msg: ProbeMsg::Quit(0),
            scoped: false,
        });
        r.push(ProbeBinding {
            key: crate::draft::KeyPress { code: crate::draft::KeyCode::Enter, ctrl: false, alt: false },
            msg: ProbeMsg::Submit,
            scoped: true,
        });
        assert(r@ =~= seq![
            ProbeBinding { key: crate::update::ctrl('c'), msg: ProbeMsg::Quit(130), scoped: false },
            ProbeBinding { key: crate::update::ctrl('d'), msg: ProbeMsg::Quit(0), scoped: false },
            ProbeBinding {
                key: crate::update::bare(crate::draft::KeyCode::Enter),
                msg: ProbeMsg::Submit,
                scoped: true,
            },
        ]);
        r
    }
}

} // verus!
