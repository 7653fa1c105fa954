//! How the terminal application answers each message: the new state, and what it asks
//! its driver to do.

use vstd::prelude::*;
use crate::draft::{Draft, DraftView, InputEvent, KeyCode, KeyPress};
use crate::terminal::{
    accent, accent_color, frame_key, Action, Block, Entry, EntryKind, Event, Frame,
    MarkdownTheme, Msg, Style, TerminalApp, Color, plain,
};
use crate::text::{all_white, same_text, is_blank};
use crate::unicode::{grapheme_count, graphemes_of};
use vstd::arithmetic::div_mod::{lemma_add_mod_noop, lemma_mod_add_multiples_vanish, lemma_small_mod};

verus! {

impl TerminalApp {
    /// The block a finished entry becomes: the user's words bold in the accent, the
    /// assistant's as Markdown, tool lines green, errors red, notices plain; user and
    /// assistant entries get a blank line above.
    pub open spec fn entry_block(self, e: Entry) -> Block {
        match e.kind {
            EntryKind::User => Block::Text {
                text: e.text,
                style: if self.color {
                    Style { fg: Some(accent()), bold: true }
                } else {
                    plain()
                },
                pad_top: 1,
            },
            EntryKind::Assistant => Block::Markdown {
                text: e.text,
                theme: if self.color {
                    MarkdownTheme::Accent
                } else {
                    MarkdownTheme::Plain
                },
                pad_top: 1,
            },
            EntryKind::Tool => Block::Text {
                text: e.text,
                style: self.style_of(Color::Green),
                pad_top: 0,
            },
            EntryKind::Notice => Block::Text { text: e.text, style: plain(), pad_top: 0 },
            EntryKind::Error => Block::Text {
                text: e.text,
                style: self.style_of(Color::Red),
                pad_top: 0,
            },
        }
    }

    /// A new frame: its finished entries go to the scrollback in order and the frame is kept
    /// without them. When the open interaction or picker changes, the menu resets; opening
    /// one from none puts the draft aside, closing the last one brings it back, and moving
    /// from one to another clears the draft.
    pub open spec fn frame_step(self, post: TerminalApp, f: Frame, acts: Seq<Action>) -> bool {
        &&& acts == f.committed@.map_values(|e: Entry| Action::Push(self.entry_block(e)))
        &&& post.frame == (Frame { committed: post.frame.committed, ..f })
        &&& post.frame.committed@.len() == 0
        &&& if frame_key(self.frame) == frame_key(f) {
            post == (TerminalApp { frame: post.frame, ..self })
        } else {
            &&& match (frame_key(self.frame), frame_key(f)) {
                (None, Some(_)) => post.saved_input == Some(self.input) && post.input@
                    == DraftView::empty(),
                (Some(_), None) => Some(post.input) == self.saved_input && post.saved_input
                    is None,
                _ => post.input@ == DraftView::empty() && post.saved_input == self.saved_input,
            }
            &&& post == (TerminalApp {
                frame: post.frame,
                input: post.input,
                saved_input: post.saved_input,
                candidate: 0,
                menu_dismissed: false,
                ..self
            })
        }
    }

    /// The initial state for a terminal of the given size.
    pub fn new(header: String, cols: u16, rows: u16, color: bool) -> (app: TerminalApp)
        ensures
            app.wf(),
            app.header == header,
            app.frame.is_idle_default(),
            app.input@ == DraftView::empty(),
            app.saved_input is None,
            app.history@.len() == 0,
            app.history_index is None,
            app.history_draft is None,
            app.candidate == 0,
            !app.menu_dismissed,
            app.cols == cols,
            app.rows == rows,
            app.color == color,
    {
        TerminalApp {
            header,
            frame: Frame::idle(),
            input: Draft::new(),
            saved_input: None,
            history: Vec::new(),
            history_index: None,
            history_draft: None,
            candidate: 0,
            menu_dismissed: false,
            rows,
            cols,
            color,
        }
    }

    /// On start: the header goes to the scrollback in the accent, and the host hears that
    /// the terminal is ready.
    pub fn init(&self) -> (acts: Vec<Action>)
        ensures
            acts@ == seq![
                Action::Push(Block::Text { text: self.header, style: self.style_of(accent()), pad_top: 0 }),
                Action::Send(Event::Ready),
            ],
    {
        let mut acts = Vec::new();
        acts.push(
            Action::Push(
                Block::Text {
                    text: self.header.clone(),
                    style: self.style(accent_color()),
                    pad_top: 0,
                },
            ),
        );
        acts.push(Action::Send(Event::Ready));
        acts
    }

    fn block_for(&self, e: &Entry) -> (b: Block)
        ensures
            b == self.entry_block(*e),
    {
        let text = e.text.clone();
        match e.kind {
            EntryKind::User => {
                let style = if self.color {
                    Style { fg: Some(accent_color()), bold: true }
                } else {
                    Style { fg: None, bold: false }
                };
                Block::Text { text, style, pad_top: 1 }
            },
            EntryKind::Assistant => Block::Markdown {
                text,
                theme: if self.color {
                    MarkdownTheme::Accent
                } else {
                    MarkdownTheme::Plain
                },
                pad_top: 1,
            },
            EntryKind::Tool => Block::Text { text, style: self.style(Color::Green), pad_top: 0 },
            EntryKind::Notice => Block::Text {
                text,
                style: Style { fg: None, bold: false },
                pad_top: 0,
            },
            EntryKind::Error => Block::Text { text, style: self.style(Color::Red), pad_top: 0 },
        }
    }

    /// Take a new frame (see [`TerminalApp::frame_step`]).
    fn on_frame(&mut self, f: Frame) -> (acts: Vec<Action>)
        requires
            old(self).wf(),
        ensures
            final(self).wf(),
            old(self).frame_step(*final(self), f, acts@),
    {
        let ghost pre = *self;
        let mut frame = f;
        if !same_key(&self.frame, &frame) {
            self.candidate = 0;
            self.menu_dismissed = false;
            let was_open = self.frame.interaction.is_some() || self.frame.picker.is_some();
            let now_open = frame.interaction.is_some() || frame.picker.is_some();
            if !was_open && now_open {
                let mut put_aside = Draft::new();
                core::mem::swap(&mut put_aside, &mut self.input);
                self.saved_input = Some(put_aside);
            } else if was_open && !now_open {
                let back = self.saved_input.take();
                self.input = back.unwrap();
            } else {
                self.input.take_text();
            }
        }
        let mut committed: Vec<Entry> = Vec::new();
        core::mem::swap(&mut committed, &mut frame.committed);
        let mut acts: Vec<Action> = Vec::new();
        let n = committed.len();
        for i in 0..n
            invariant
                n == committed@.len(),
                committed@ == f.committed@,
                acts@ == committed@.take(i as int).map_values(
                    |e: Entry| Action::Push(pre.entry_block(e)),
                ),
                self.color == pre.color,
        {
            let b = self.block_for(&committed[i]);
            acts.push(Action::Push(b));
            assert(committed@.take(i + 1) =~= committed@.take(i as int).push(committed@[i as int]));
            assert(acts@ =~= committed@.take(i + 1).map_values(
                |e: Entry| Action::Push(pre.entry_block(e)),
            ));
        }
        assert(committed@.take(n as int) =~= committed@);
        self.frame = frame;
        acts
    }
}

/// Whether two frames have the same open interaction or picker.
fn same_key(a: &Frame, b: &Frame) -> (r: bool)
    ensures
        r == (frame_key(*a) == frame_key(*b)),
{
    let x = match &a.interaction {
        Some(p) => Some(&p.id),
        None => match &a.picker {
            Some(k) => Some(&k.id),
            None => None,
        },
    };
    let y = match &b.interaction {
        Some(p) => Some(&p.id),
        None => match &b.picker {
            Some(k) => Some(&k.id),
            None => None,
        },
    };
    match (x, y) {
        (None, None) => true,
        (Some(s), Some(t)) => same_text(s.as_str(), t.as_str()),
        _ => false,
    }
}

} // verus!

verus! {

/// The menu selection after moving by `step` among `count` entries, wrapping around.
pub open spec fn wrapped(candidate: int, step: int, count: int) -> int {
    (candidate + step) % count
}

/// Clusters skipped going back from position `k` while they are (or are not) all white space.
pub open spec fn skip_back(gs: Seq<Seq<char>>, k: int, white: bool) -> int
    decreases k,
{
    if 0 < k <= gs.len() && all_white(gs[k - 1]) == white {
        skip_back(gs, k - 1, white)
    } else {
        k
    }
}

/// Where the word before the cursor starts: back over white space, then back over the word.
pub open spec fn word_start(text: Seq<char>, col: int) -> int {
    let gs = graphemes_of(text);
    let k = if col < gs.len() {
        col
    } else {
        gs.len() as int
    };
    skip_back(gs, skip_back(gs, k, true), false)
}

/// One message, `acts` sent; `pick` is what the pick event would carry.
pub open spec fn sends_pick(acts: Seq<Action>, pick: Option<(Seq<char>, Seq<char>)>, save: bool) -> bool {
    match pick {
        None => acts.len() == 0,
        Some((id, v)) => acts.len() == 1 && match acts[0] {
            Action::Send(Event::Pick { id: i, value: Some(val), save: s }) => i@ == id && val@ == v
                && s == save,
            _ => false,
        },
    }
}

pub open spec fn prompt_id(f: Frame) -> Option<String> {
    match f.interaction {
        Some(p) => Some(p.id),
        None => None,
    }
}

impl TerminalApp {
    /// The text a submission carries: the draft, after completing a matching command.
    pub open spec fn submitted_text(self) -> Seq<char> {
        if self.completion_indices().len() > 0 {
            self.completion_text(false)
        } else {
            self.input@.text()
        }
    }

    /// Enter: with a picker showing, pick the highlighted choice; while a command runs,
    /// nothing; else complete a matching command, take the draft and submit it, recording it
    /// in the history unless it is blank or answers an interaction.
    pub open spec fn submit_step(self, post: TerminalApp, acts: Seq<Action>) -> bool {
        if self.picking() {
            post == self && sends_pick(acts, self.pick_event(false), false)
        } else if self.mode_is("command"@) {
            post == self && acts.len() == 0
        } else {
            let t = self.submitted_text();
            let record = self.frame.interaction is None && !all_white(t);
            &&& acts.len() == 1
            &&& match acts[0] {
                Action::Send(Event::Submit { text, interaction_id }) => {
                    &&& text@ == t
                    &&& interaction_id == prompt_id(self.frame)
                    &&& record ==> post.history@ == self.history@.push(text)
                },
                _ => false,
            }
            &&& post.input@ == DraftView::empty()
            &&& post.menu_dismissed == (self.menu_dismissed || self.completion_indices().len() > 0)
            &&& if record {
                post.history_index is None && post.history_draft is None
            } else {
                post.history == self.history && post.history_index == self.history_index
                    && post.history_draft == self.history_draft
            }
            &&& post == (TerminalApp {
                input: post.input,
                menu_dismissed: post.menu_dismissed,
                history: post.history,
                history_index: post.history_index,
                history_draft: post.history_draft,
                ..self
            })
        }
    }

    /// Esc: with a picker showing, tell the host nothing was picked; with completions
    /// showing, close the menu; when idle, clear the draft; else tell the host.
    pub open spec fn escape_step(self, post: TerminalApp, acts: Seq<Action>) -> bool {
        if self.picking() {
            post == self && acts == seq![
                Action::Send(Event::Pick { id: self.frame.picker.unwrap().id, value: None, save: false }),
            ]
        } else if self.completion_indices().len() > 0 {
            post == (TerminalApp { menu_dismissed: true, ..self }) && acts.len() == 0
        } else if self.mode_is("idle"@) {
            post.input@ == DraftView::empty() && post == (TerminalApp { input: post.input, ..self })
                && acts.len() == 0
        } else {
            post == self && acts == seq![Action::Send(Event::Escape { mode: self.frame.mode })]
        }
    }

    /// Ctrl+C: when idle with a draft, clear it; else tell the host.
    pub open spec fn interrupt_step(self, post: TerminalApp, acts: Seq<Action>) -> bool {
        if self.mode_is("idle"@) && self.input@.text().len() > 0 {
            post.input@ == DraftView::empty() && post == (TerminalApp { input: post.input, ..self })
                && acts.len() == 0
        } else {
            post == self && acts == seq![Action::Send(Event::Interrupt { mode: self.frame.mode })]
        }
    }

    /// Ctrl+D: end of input, told to the host only when the draft is empty.
    pub open spec fn eof_step(self, post: TerminalApp, acts: Seq<Action>) -> bool {
        &&& post == self
        &&& acts == if self.input@.text().len() == 0 {
            seq![Action::Send(Event::Eof { mode: self.frame.mode })]
        } else {
            Seq::empty()
        }
    }

    /// Entries Up and Down move through: the picker's choices, else the completions.
    pub open spec fn menu_count(self) -> int {
        if self.frame.picker is Some {
            self.choice_indices().len() as int
        } else {
            self.completion_indices().len() as int
        }
    }

    /// Up (`previous`) or Down: move through an open menu, wrapping around; else, outside
    /// interactions and pickers, walk the input history, putting the draft aside on the way
    /// up and bringing it back past the newest entry.
    pub open spec fn history_step(self, post: TerminalApp, previous: bool, acts: Seq<Action>) -> bool {
        let count = self.menu_count();
        let len = self.history@.len() as int;
        &&& acts.len() == 0
        &&& if count > 0 {
            post == (TerminalApp {
                candidate: wrapped(
                    self.candidate as int,
                    if previous {
                        count - 1
                    } else {
                        1
                    },
                    count,
                ) as usize,
                ..self
            })
        } else if self.frame.interaction is Some || self.frame.picker is Some || len == 0 {
            post == self
        } else if previous {
            let i = match self.history_index {
                Some(i) => if i > 0 {
                    i - 1
                } else {
                    0
                },
                None => len - 1,
            };
            &&& post.history_index == Some(i as usize)
            &&& post.input@ == DraftView::holding(self.history@[i]@)
            &&& post.history_draft == if self.history_index is None {
                Some(self.input)
            } else {
                self.history_draft
            }
            &&& post == (TerminalApp {
                input: post.input,
                history_index: post.history_index,
                history_draft: post.history_draft,
                ..self
            })
        } else {
            match self.history_index {
                None => post == self,
                Some(i) => if i + 1 < len {
                    &&& post.history_index == Some((i + 1) as usize)
                    &&& post.input@ == DraftView::holding(self.history@[i + 1]@)
                    &&& post == (TerminalApp {
                        input: post.input,
                        history_index: post.history_index,
                        ..self
                    })
                } else {
                    &&& post.history_index is None
                    &&& Some(post.input) == self.history_draft
                    &&& post.history_draft is None
                    &&& post == (TerminalApp {
                        input: post.input,
                        history_index: None,
                        history_draft: None,
                        ..self
                    })
                },
            }
        }
    }

    /// Only the draft changed, to `d`.
    pub open spec fn draft_step(self, post: TerminalApp, d: DraftView, acts: Seq<Action>) -> bool {
        post.input@ == d && post == (TerminalApp { input: post.input, ..self }) && acts.len() == 0
    }

    /// Ordinary editing: the menu reopens at its first entry and the draft takes the event;
    /// a paste goes in on one line, its line breaks and tabs folded into spaces.
    pub open spec fn edit_step(self, post: TerminalApp, ev: InputEvent, acts: Seq<Action>) -> bool {
        let d = match ev {
            InputEvent::Paste(v) => self.input@.insert_inline(crate::text::folded(v@, true)),
            InputEvent::Key(k) => self.input@.key(k),
            InputEvent::Other => self.input@,
        };
        TerminalApp { candidate: 0, menu_dismissed: false, ..self }.draft_step(post, d, acts)
    }

    /// Ctrl+U (`left`) deletes to the start of the line, Ctrl+K to its end, one cluster at a
    /// time.
    pub open spec fn kill_line_draft(self, left: bool) -> DraftView {
        let col = self.input@.col;
        if left {
            self.input@.backspaces(col as nat)
        } else {
            let n = grapheme_count(self.input@.text()) as int;
            self.input@.deletes((if n > col {
                n - col
            } else {
                0
            }) as nat)
        }
    }

    /// Ctrl+W deletes the word before the cursor and the white space after it.
    pub open spec fn kill_word_draft(self) -> DraftView {
        let col = self.input@.col;
        self.input@.backspaces((col - word_start(self.input@.text(), col)) as nat)
    }

    /// What every message does to the state, and what it asks of the driver.
    pub open spec fn step(self, post: TerminalApp, msg: Msg, acts: Seq<Action>) -> bool {
        match msg {
            Msg::Frame(f) => self.frame_step(post, f, acts),
            Msg::Edit(ev) => self.edit_step(post, ev, acts),
            Msg::Submit => self.submit_step(post, acts),
            Msg::Complete => acts.len() == 0 && if self.completion_indices().len() == 0 {
                post == self
            } else {
                post.input@ == DraftView::holding(self.completion_text(true)) && post == (
                TerminalApp { input: post.input, menu_dismissed: true, ..self })
            },
            Msg::SaveChoice => post == self && if self.frame.interaction is None {
                sends_pick(acts, self.pick_event(true), true)
            } else {
                acts.len() == 0
            },
            Msg::Eof => self.eof_step(post, acts),
            Msg::Escape => self.escape_step(post, acts),
            Msg::Interrupt => self.interrupt_step(post, acts),
            Msg::History(previous) => self.history_step(post, previous, acts),
            Msg::EditKey(code) => self.draft_step(
                post,
                self.input@.key(KeyPress { code, ctrl: false, alt: false }),
                acts,
            ),
            Msg::KillLine(left) => self.draft_step(post, self.kill_line_draft(left), acts),
            Msg::KillWord => self.draft_step(post, self.kill_word_draft(), acts),
            Msg::Resize(cols, rows) => post == (TerminalApp { cols, rows, ..self }) && acts.len()
                == 0,
            Msg::CycleEffort => self.cycle_effort_step(post, acts),
            Msg::Close => post == self && acts == seq![Action::Exit],
        }
    }

    /// Shift+Tab in normal input (idle or running): ask the host to cycle this session's
    /// effort, leaving the draft, its cursor and the menu as they are. While a picker, a
    /// running command or an interaction is up, the key does nothing.
    pub open spec fn cycle_effort_step(self, post: TerminalApp, acts: Seq<Action>) -> bool {
        &&& post == self
        &&& acts == if self.frame.picker is Some || self.frame.interaction is Some || self.mode_is(
            "command"@,
        ) {
            Seq::empty()
        } else {
            seq![Action::Send(Event::CycleEffort)]
        }
    }
}

} // verus!

verus! {

/// Moving `step` places from `candidate` among `count` entries, wrapping around.
fn wrap_step(candidate: usize, step: usize, count: usize) -> (r: usize)
    requires
        0 < count,
        step <= count,
    ensures
        r == wrapped(candidate as int, step as int, count as int),
{
    let c = candidate % count;
    let r = if c >= count - step {
        c - (count - step)
    } else {
        c + step
    };
    proof {
        let m = count as int;
        lemma_small_mod(c as nat, count as nat);
        lemma_add_mod_noop(candidate as int, step as int, m);
        lemma_add_mod_noop(c as int, step as int, m);
        if c + step < m {
            lemma_small_mod((c + step) as nat, count as nat);
        } else {
            lemma_mod_add_multiples_vanish(c + step - m, m);
            lemma_small_mod((c + step - m) as nat, count as nat);
            assert(m + (c + step - m) == c + step);
        }
        if step < m {
            lemma_small_mod(step as nat, count as nat);
        } else {
            assert(step as int % m == 0) by {
                lemma_mod_add_multiples_vanish(0, m);
            }
            assert(c as int % m == c);
            assert((c + 0) as int % m == c);
        }
    }
    r
}

impl TerminalApp {
    fn on_submit(&mut self) -> (acts: Vec<Action>)
        requires
            old(self).wf(),
        ensures
            final(self).wf(),
            old(self).submit_step(*final(self), acts@),
    {
        let mut acts: Vec<Action> = Vec::new();
        if self.frame.picker.is_some() && self.frame.interaction.is_none() {
            let pick = self.pick_choice(false);
            if let Some(e) = pick {
                acts.push(Action::Send(e));
            }
            return acts;
        }
        proof {
            reveal_strlit("command");
        }
        if same_text(self.frame.mode.as_str(), "command") {
            return acts;
        }
        let ghost pre = *self;
        self.complete(false);
        proof {
            if pre.completion_indices().len() > 0 {
                crate::draft::law_text_after_set_text(pre.completion_text(false));
            }
        }
        let value = self.input.take_text();
        let record = self.frame.interaction.is_none() && !is_blank(value.as_str());
        if record {
            self.history.push(value.clone());
            self.history_index = None;
            self.history_draft = None;
        }
        let id = match &self.frame.interaction {
            Some(p) => Some(p.id.clone()),
            None => None,
        };
        acts.push(Action::Send(Event::Submit { text: value, interaction_id: id }));
        acts
    }

    fn on_escape(&mut self) -> (acts: Vec<Action>)
        requires
            old(self).wf(),
        ensures
            final(self).wf(),
            old(self).escape_step(*final(self), acts@),
    {
        let mut acts: Vec<Action> = Vec::new();
        if self.frame.interaction.is_none() && self.frame.picker.is_some() {
            let id = self.frame.picker.as_ref().unwrap().id.clone();
            acts.push(Action::Send(Event::Pick { id, value: None, save: false }));
            return acts;
        }
        if self.completions().len() > 0 {
            self.menu_dismissed = true;
            return acts;
        }
        proof {
            reveal_strlit("idle");
        }
        if same_text(self.frame.mode.as_str(), "idle") {
            self.input.take_text();
        } else {
            acts.push(Action::Send(Event::Escape { mode: self.frame.mode.clone() }));
        }
        acts
    }

    fn on_interrupt(&mut self) -> (acts: Vec<Action>)
        requires
            old(self).wf(),
        ensures
            final(self).wf(),
            old(self).interrupt_step(*final(self), acts@),
    {
        let mut acts: Vec<Action> = Vec::new();
        proof {
            reveal_strlit("idle");
        }
        if same_text(self.frame.mode.as_str(), "idle") && self.input.text().unicode_len() > 0 {
            self.input.take_text();
        } else {
            acts.push(Action::Send(Event::Interrupt { mode: self.frame.mode.clone() }));
        }
        acts
    }

    fn on_history(&mut self, previous: bool)
        requires
            old(self).wf(),
        ensures
            final(self).wf(),
            old(self).history_step(*final(self), previous, Seq::empty()),
    {
        let count = if self.frame.picker.is_some() {
            self.choices().len()
        } else {
            self.completions().len()
        };
        if count > 0 {
            let step = if previous {
                count - 1
            } else {
                1
            };
            self.candidate = wrap_step(self.candidate, step, count);
            return;
        }
        if self.frame.interaction.is_some() || self.frame.picker.is_some()
            || self.history.len() == 0 {
            return;
        }
        if previous {
            let i = match self.history_index {
                Some(i) => if i > 0 {
                    i - 1
                } else {
                    0
                },
                None => {
                    let mut d = Draft::new();
                    core::mem::swap(&mut d, &mut self.input);
                    self.history_draft = Some(d);
                    self.history.len() - 1
                },
            };
            self.history_index = Some(i);
            self.input.set_text(self.history[i].as_str());
        } else {
            match self.history_index {
                None => {},
                Some(i) => {
                    if i < self.history.len() - 1 {
                        self.history_index = Some(i + 1);
                        self.input.set_text(self.history[i + 1].as_str());
                    } else {
                        self.history_index = None;
                        let d = self.history_draft.take();
                        self.input = d.unwrap();
                    }
                },
            }
        }
    }

    fn on_kill_line(&mut self, left: bool)
        requires
            old(self).wf(),
        ensures
            final(self).wf(),
            old(self).draft_step(*final(self), old(self).kill_line_draft(left), Seq::empty()),
    {
        let ghost pre = *self;
        let column = self.input.cursor().1;
        let count = if left {
            column
        } else {
            let t = self.input.text();
            let n = crate::draft::count_clusters(t.as_str());
            if n > column {
                n - column
            } else {
                0
            }
        };
        let code = if left {
            KeyCode::Backspace
        } else {
            KeyCode::Delete
        };
        for j in 0..count
            invariant
                self.input.wf(),
                *self == (TerminalApp { input: self.input, ..pre }),
                code == if left {
                    KeyCode::Backspace
                } else {
                    KeyCode::Delete
                },
                self.input@ == if left {
                    pre.input@.backspaces(j as nat)
                } else {
                    pre.input@.deletes(j as nat)
                },
        {
            self.input.handle_key(KeyPress { code, ctrl: false, alt: false });
        }
    }

    fn on_kill_word(&mut self)
        requires
            old(self).wf(),
        ensures
            final(self).wf(),
            old(self).draft_step(*final(self), old(self).kill_word_draft(), Seq::empty()),
    {
        let ghost pre = *self;
        let t = self.input.text();
        let gs = crate::unicode::grapheme_clusters(t.as_str());
        let ghost g = crate::text::views(gs@);
        let column = self.input.cursor().1;
        let n = gs.len();
        let k0 = if column < n {
            column
        } else {
            n
        };
        let mut start = k0;
        while start > 0 && is_blank(gs[start - 1].as_str())
            invariant
                g == crate::text::views(gs@),
                n == gs@.len(),
                start <= k0 <= n,
                k0 <= column,
                skip_back(g, k0 as int, true) == skip_back(g, start as int, true),
            decreases start,
        {
            start -= 1;
        }
        let s1 = start;
        while start > 0 && !is_blank(gs[start - 1].as_str())
            invariant
                g == crate::text::views(gs@),
                n == gs@.len(),
                start <= s1 <= k0 <= n,
                k0 <= column,
                s1 == skip_back(g, k0 as int, true),
                skip_back(g, s1 as int, false) == skip_back(g, start as int, false),
            decreases start,
        {
            start -= 1;
        }
        assert(start as int == word_start(pre.input@.text(), column as int));
        assert(self.input@.backspaces(0) == self.input@);
        for j in start..column
            invariant
                start <= column,
                self.input.wf(),
                *self == (TerminalApp { input: self.input, ..pre }),
                self.input@ == pre.input@.backspaces((j - start) as nat),
        {
            self.input.handle_key(KeyPress { code: KeyCode::Backspace, ctrl: false, alt: false });
        }
    }

    /// Answer one message: the state moves on as [`TerminalApp::step`] says, and the
    /// returned actions are what the driver is asked to do, in order.
    pub fn update(&mut self, msg: Msg) -> (acts: Vec<Action>)
        requires
            old(self).wf(),
        ensures
            final(self).wf(),
            old(self).step(*final(self), msg, acts@),
    {
        match msg {
            Msg::Frame(f) => self.on_frame(f),
            Msg::Edit(ev) => {
                self.menu_dismissed = false;
                self.candidate = 0;
                match ev {
                    InputEvent::Paste(v) => {
                        let line = crate::text::fold_line_breaks(v.as_str(), true);
                        proof {
                            crate::text::lemma_folded_single_line(v@, true);
                        }
                        self.input.insert_inline(line.as_str());
                    },
                    InputEvent::Key(k) => self.input.handle_key(k),
                    InputEvent::Other => {},
                }
                Vec::new()
            },
            Msg::Submit => self.on_submit(),
            Msg::Complete => {
                self.complete(true);
                Vec::new()
            },
            Msg::SaveChoice => {
                let mut acts = Vec::new();
                if self.frame.interaction.is_none() {
                    if let Some(e) = self.pick_choice(true) {
                        acts.push(Action::Send(e));
                    }
                }
                acts
            },
            Msg::Eof => {
                let mut acts = Vec::new();
                if self.input.text().unicode_len() == 0 {
                    acts.push(Action::Send(Event::Eof { mode: self.frame.mode.clone() }));
                }
                acts
            },
            Msg::Escape => self.on_escape(),
            Msg::Interrupt => self.on_interrupt(),
            Msg::History(previous) => {
                self.on_history(previous);
                Vec::new()
            },
            Msg::EditKey(code) => {
                self.input.handle_key(KeyPress { code, ctrl: false, alt: false });
                Vec::new()
            },
            Msg::KillLine(left) => {
                self.on_kill_line(left);
                Vec::new()
            },
            Msg::KillWord => {
                self.on_kill_word();
                Vec::new()
            },
            Msg::Resize(cols, rows) => {
                self.cols = cols;
                self.rows = rows;
                Vec::new()
            },
            Msg::CycleEffort => {
                let mut acts = Vec::new();
                proof {
                    reveal_strlit("command");
                }
                if self.frame.picker.is_none() && self.frame.interaction.is_none()
                    && !same_text(self.frame.mode.as_str(), "command") {
                    acts.push(Action::Send(Event::CycleEffort));
                }
                acts
            },
            Msg::Close => {
                let mut acts = Vec::new();
                acts.push(Action::Exit);
                acts
            },
        }
    }
}

} // verus!

verus! {

/// A key binding: `scoped` bindings apply while the input has focus, the others override
/// everything.
pub struct Binding {
    pub key: KeyPress,
    pub msg: Msg,
    pub scoped: bool,
}

pub open spec fn ctrl(c: char) -> KeyPress {
    KeyPress { code: KeyCode::Char(c), ctrl: true, alt: false }
}

pub open spec fn bare(code: KeyCode) -> KeyPress {
    KeyPress { code, ctrl: false, alt: false }
}

/// The application's key bindings, in the order they are registered; every other key goes
/// to the draft as an edit. Shift+Tab arrives as the back-tab key.
pub open spec fn key_bindings() -> Seq<Binding> {
    seq![
        Binding { key: bare(KeyCode::Esc), msg: Msg::Escape, scoped: false },
        Binding { key: ctrl('c'), msg: Msg::Interrupt, scoped: false },
        Binding { key: ctrl('d'), msg: Msg::Eof, scoped: false },
        Binding { key: ctrl('s'), msg: Msg::SaveChoice, scoped: false },
        Binding { key: ctrl('a'), msg: Msg::EditKey(KeyCode::Home), scoped: false },
        Binding { key: ctrl('e'), msg: Msg::EditKey(KeyCode::End), scoped: false },
        Binding { key: ctrl('u'), msg: Msg::KillLine(true), scoped: false },
        Binding { key: ctrl('k'), msg: Msg::KillLine(false), scoped: false },
        Binding { key: ctrl('w'), msg: Msg::KillWord, scoped: false },
        Binding { key: bare(KeyCode::Enter), msg: Msg::Submit, scoped: true },
        Binding { key: bare(KeyCode::Tab), msg: Msg::Complete, scoped: true },
        Binding { key: bare(KeyCode::Up), msg: Msg::History(true), scoped: true },
        Binding { key: bare(KeyCode::Down), msg: Msg::History(false), scoped: true },
        Binding { key: bare(KeyCode::BackTab), msg: Msg::CycleEffort, scoped: true },
    ]
}

fn bind(code: KeyCode, ctrl: bool, msg: Msg, scoped: bool) -> (b: Binding)
    ensures
        b == (Binding { key: KeyPress { code, ctrl, alt: false }, msg, scoped }),
{
    Binding { key: KeyPress { code, ctrl, alt: false }, msg, scoped }
}

impl TerminalApp {
    /// The key bindings (see [`key_bindings`]).
    pub fn keymap() -> (r: Vec<Binding>)
        ensures
            r@ == key_bindings(),
    {
        let mut r = Vec::new();
        r.push(bind(KeyCode::Esc, false, Msg::Escape, false));
        r.push(bind(KeyCode::Char('c'), true, Msg::Interrupt, false));
        r.push(bind(KeyCode::Char('d'), true, Msg::Eof, false));
        r.push(bind(KeyCode::Char('s'), true, Msg::SaveChoice, false));
        r.push(bind(KeyCode::Char('a'), true, Msg::EditKey(KeyCode::Home), false));
        r.push(bind(KeyCode::Char('e'), true, Msg::EditKey(KeyCode::End), false));
        r.push(bind(KeyCode::Char('u'), true, Msg::KillLine(true), false));
        r.push(bind(KeyCode::Char('k'), true, Msg::KillLine(false), false));
        r.push(bind(KeyCode::Char('w'), true, Msg::KillWord, false));
        r.push(bind(KeyCode::Enter, false, Msg::Submit, true));
        r.push(bind(KeyCode::Tab, false, Msg::Complete, true));
        r.push(bind(KeyCode::Up, false, Msg::History(true), true));
        r.push(bind(KeyCode::Down, false, Msg::History(false), true));
        r.push(bind(KeyCode::BackTab, false, Msg::CycleEffort, true));
        assert(r@ =~= key_bindings());
        r
    }
}

} // verus!
