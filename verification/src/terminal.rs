//! The terminal application's model: the frame the host sends, the input draft, the
//! command and picker menus, and what the application asks its driver to do.

use vstd::prelude::*;
use crate::draft::{Draft, DraftView, InputEvent};
use crate::text::{
    any_white, as_ints, has_white_space, indices_where, lowercase, lowered, occurs_in,
    same_text, starts_with, contains, lemma_indices_where,
};

verus! {

/// A question the host is asking the user.
pub struct Prompt {
    pub id: String,
    pub hint: String,
}

/// A slash command the host offers.
pub struct Command {
    pub name: String,
    pub description: String,
}

/// One choice of a picker.
pub struct PickerItem {
    pub value: String,
    pub label: String,
}

/// A list dialog the host opened.
pub struct Picker {
    pub id: String,
    pub items: Vec<PickerItem>,
    pub title: String,
    pub hint: String,
    pub empty: String,
    pub allow_save: bool,
}

/// Who a transcript entry comes from.
#[derive(Clone, Copy, PartialEq, Eq, Structural, Debug)]
pub enum EntryKind {
    User,
    Assistant,
    Tool,
    Notice,
    Error,
}

/// A finished transcript entry, written once into the terminal's scrollback.
pub struct Entry {
    pub kind: EntryKind,
    pub text: String,
}

/// Everything the host wants shown.
pub struct Frame {
    pub committed: Vec<Entry>,
    pub active: String,
    pub activity: String,
    pub mode: String,
    pub interaction: Option<Prompt>,
    pub model: String,
    pub effort: String,
    pub cwd: String,
    pub preset: String,
    pub extensions: usize,
    pub stats: String,
    pub commands: Vec<Command>,
    pub picker: Option<Picker>,
}

/// Terminal colors the application uses.
#[derive(Clone, Copy, PartialEq, Eq, Structural, Debug)]
pub enum Color {
    Rgb(u8, u8, u8),
    Green,
    Red,
    Reset,
}

/// A foreground color (none for the terminal's own) and boldness.
#[derive(Clone, Copy, PartialEq, Eq, Structural, Debug)]
pub struct Style {
    pub fg: Option<Color>,
    pub bold: bool,
}

/// How assistant Markdown is colored: the accent on headings and inline code over the
/// renderer's defaults, or no color at all.
#[derive(Clone, Copy, PartialEq, Eq, Structural, Debug)]
pub enum MarkdownTheme {
    Accent,
    Plain,
}

/// A block written once into the scrollback above the live area.
pub enum Block {
    Text { text: String, style: Style, pad_top: u16 },
    Markdown { text: String, theme: MarkdownTheme, pad_top: u16 },
}

/// A message for the host.
pub enum Event {
    Ready,
    Pick { id: String, value: Option<String>, save: bool },
    Submit { text: String, interaction_id: Option<String> },
    Eof { mode: String },
    Escape { mode: String },
    Interrupt { mode: String },
    /// Move this session to the next thinking effort the model offers.
    CycleEffort,
}

/// What the application asks of its driver, in order.
pub enum Action {
    Push(Block),
    Send(Event),
    Exit,
}

/// What reaches the application.
pub enum Msg {
    Frame(Frame),
    Edit(InputEvent),
    Submit,
    Complete,
    SaveChoice,
    Eof,
    Escape,
    Interrupt,
    History(bool),
    EditKey(crate::draft::KeyCode),
    KillLine(bool),
    KillWord,
    Resize(u16, u16),
    CycleEffort,
    Close,
}

/// The application state.
pub struct TerminalApp {
    pub header: String,
    pub frame: Frame,
    pub input: Draft,
    pub saved_input: Option<Draft>,
    pub history: Vec<String>,
    pub history_index: Option<usize>,
    pub history_draft: Option<Draft>,
    pub candidate: usize,
    pub menu_dismissed: bool,
    pub rows: u16,
    pub cols: u16,
    pub color: bool,
}

/// A muted blue accent for dark terminals; effort colors stay independent of it.
pub open spec fn accent() -> Color {
    Color::Rgb(0x8b, 0xa4, 0xe8)
}

/// The gray of secondary text.
pub open spec fn muted() -> Color {
    Color::Rgb(0x80, 0x80, 0x80)
}

pub fn accent_color() -> (c: Color)
    ensures
        c == accent(),
{
    Color::Rgb(0x8b, 0xa4, 0xe8)
}

pub fn muted_color() -> (c: Color)
    ensures
        c == muted(),
{
    Color::Rgb(0x80, 0x80, 0x80)
}

/// The style with no color and no emphasis.
pub open spec fn plain() -> Style {
    Style { fg: None, bold: false }
}

/// What identifies an open interaction or picker: the prompt's id, else the picker's.
pub open spec fn frame_key(f: Frame) -> Option<Seq<char>> {
    match f.interaction {
        Some(p) => Some(p.id@),
        None => match f.picker {
            Some(k) => Some(k.id@),
            None => None,
        },
    }
}

/// The command query typed after a leading slash, when it holds no white space.
pub open spec fn slash_query(t: Seq<char>) -> Option<Seq<char>> {
    if t.len() > 0 && t[0] == '/' && !any_white(t.skip(1)) {
        Some(t.skip(1))
    } else {
        None
    }
}

/// The selected position among `n` entries: the candidate, clamped to the last entry.
pub open spec fn clamped(candidate: int, n: int) -> int {
    if candidate < n - 1 {
        candidate
    } else if n > 0 {
        n - 1
    } else {
        0
    }
}

/// Colors are on unless `NO_COLOR` is set to a non-empty value.
pub fn colors_enabled(no_color: Option<&str>) -> (on: bool)
    ensures
        on == match no_color {
            None => true,
            Some(v) => v@.len() == 0,
        },
{
    match no_color {
        None => true,
        Some(v) => v.unicode_len() == 0,
    }
}

impl Frame {
    /// The frame before the host has sent one: idle, with nothing else.
    pub open spec fn is_idle_default(self) -> bool {
        &&& self.committed@.len() == 0
        &&& self.active@.len() == 0
        &&& self.activity@.len() == 0
        &&& self.mode@ == "idle"@
        &&& self.interaction is None
        &&& self.model@.len() == 0
        &&& self.effort@.len() == 0
        &&& self.cwd@.len() == 0
        &&& self.preset@.len() == 0
        &&& self.extensions == 0
        &&& self.stats@.len() == 0
        &&& self.commands@.len() == 0
        &&& self.picker is None
    }

    /// The frame before the host has sent one.
    pub fn idle() -> (f: Frame)
        ensures
            f.is_idle_default(),
    {
        Frame {
            committed: Vec::new(),
            active: String::new(),
            activity: String::new(),
            mode: String::from_str("idle"),
            interaction: None,
            model: String::new(),
            effort: String::new(),
            cwd: String::new(),
            preset: String::new(),
            extensions: 0,
            stats: String::new(),
            commands: Vec::new(),
            picker: None,
        }
    }
}

impl TerminalApp {
    /// The state the application keeps: the drafts are well formed, a draft is put aside
    /// exactly while an interaction or picker is open, and a history position names an
    /// entry and comes with the draft it replaced (and only then is a draft kept for it).
    pub open spec fn wf(self) -> bool {
        &&& self.input.wf()
        &&& (self.saved_input is Some <==> frame_key(self.frame) is Some)
        &&& (self.saved_input matches Some(d) ==> d.wf())
        &&& (self.history_index matches Some(i) ==> i < self.history@.len())
        &&& (self.history_index is Some <==> self.history_draft is Some)
        &&& (self.history_draft matches Some(d) ==> d.wf())
    }

    pub open spec fn mode_is(self, m: Seq<char>) -> bool {
        self.frame.mode@ == m
    }

    /// Command completion is off while a picker or interaction is open, after Esc closed the
    /// menu, and while a command runs.
    pub open spec fn menu_blocked(self) -> bool {
        self.frame.picker is Some || self.menu_dismissed || self.frame.interaction is Some
            || self.mode_is("command"@)
    }

    /// The indices of the commands the slash query is a prefix of.
    pub open spec fn completion_indices(self) -> Seq<int> {
        if self.menu_blocked() {
            Seq::empty()
        } else {
            match slash_query(self.input@.text()) {
                None => Seq::empty(),
                Some(q) => indices_where(
                    self.frame.commands@.len(),
                    |i: int| q.is_prefix_of(self.frame.commands@[i].name@),
                ),
            }
        }
    }

    /// The indices of the picker items whose lowercased label contains the lowercased draft.
    pub open spec fn choice_indices(self) -> Seq<int> {
        if self.frame.interaction is Some {
            Seq::empty()
        } else {
            match self.frame.picker {
                None => Seq::empty(),
                Some(p) => {
                    let q = lowered(self.input@.text());
                    indices_where(
                        p.items@.len(),
                        |i: int| occurs_in(q, lowered(p.items@[i].label@)),
                    )
                },
            }
        }
    }

    /// The pick event for the highlighted choice, if a picker is open, saving is allowed
    /// when asked for, and some item matches.
    pub open spec fn pick_event(self, save: bool) -> Option<(Seq<char>, Seq<char>)> {
        match self.frame.picker {
            None => None,
            Some(p) => {
                let cs = self.choice_indices();
                if save && !p.allow_save {
                    None
                } else if cs.len() == 0 {
                    None
                } else {
                    Some((p.id@, p.items@[cs[clamped(self.candidate as int, cs.len() as int)]].value@))
                }
            },
        }
    }

    /// The style of the given color, or no color when colors are off.
    pub open spec fn style_of(self, c: Color) -> Style {
        if self.color {
            Style { fg: Some(c), bold: false }
        } else {
            plain()
        }
    }

    pub fn style(&self, c: Color) -> (s: Style)
        ensures
            s == self.style_of(c),
    {
        if self.color {
            Style { fg: Some(c), bold: false }
        } else {
            Style { fg: None, bold: false }
        }
    }

    /// The text a completion writes into the draft: the command after a slash, and a space
    /// when asked for.
    pub open spec fn completion_text(self, space: bool) -> Seq<char> {
        let cs = self.completion_indices();
        let name = self.frame.commands@[cs[clamped(self.candidate as int, cs.len() as int)]].name@;
        seq!['/'] + name + if space { seq![' '] } else { Seq::empty() }
    }

    /// The pick event for the highlighted choice (see [`TerminalApp::pick_event`]).
    pub fn pick_choice(&self, save: bool) -> (e: Option<Event>)
        requires
            self.wf(),
        ensures
            match self.pick_event(save) {
                None => e is None,
                Some((id, v)) => e matches Some(Event::Pick { id: i, value: Some(val), save: s })
                    && i@ == id && val@ == v && s == save,
            },
    {
        match &self.frame.picker {
            None => None,
            Some(picker) => {
                if save && !picker.allow_save {
                    return None;
                }
                let choices = self.choices();
                let n = choices.len();
                if n == 0 {
                    return None;
                }
                let k = if self.candidate < n - 1 {
                    self.candidate
                } else {
                    n - 1
                };
                proof {
                    let q = lowered(self.input@.text());
                    lemma_indices_where(
                        picker.items@.len(),
                        |i: int| occurs_in(q, lowered(picker.items@[i].label@)),
                    );
                    assert(as_ints(choices@)[k as int] == choices@[k as int] as int);
                }
                let item = &picker.items[choices[k]];
                Some(Event::Pick { id: picker.id.clone(), value: Some(item.value.clone()), save })
            },
        }
    }

    /// Complete the highlighted command into the draft and close the menu; nothing happens
    /// when no command matches.
    pub fn complete(&mut self, space: bool)
        requires
            old(self).wf(),
        ensures
            final(self).wf(),
            old(self).completion_indices().len() == 0 ==> *final(self) == *old(self),
            old(self).completion_indices().len() > 0 ==> {
                &&& final(self).input@ == DraftView::holding(old(self).completion_text(space))
                &&& *final(self) == (TerminalApp {
                    input: final(self).input,
                    menu_dismissed: true,
                    ..*old(self)
                })
            },
    {
        let candidates = self.completions();
        let n = candidates.len();
        if n == 0 {
            return;
        }
        let k = if self.candidate < n - 1 {
            self.candidate
        } else {
            n - 1
        };
        let mut value = String::new();
        crate::text::push_char(&mut value, '/');
        proof {
            let q = slash_query(self.input@.text()).unwrap();
            lemma_indices_where(
                self.frame.commands@.len(),
                |i: int| q.is_prefix_of(self.frame.commands@[i].name@),
            );
            assert(as_ints(candidates@)[k as int] == candidates@[k as int] as int);
        }
        value.append(self.frame.commands[candidates[k]].name.as_str());
        if space {
            crate::text::push_char(&mut value, ' ');
        }
        assert(value@ =~= self.completion_text(space));
        self.input.set_text(value.as_str());
        self.menu_dismissed = true;
    }

    /// The commands that complete the slash query in the draft.
    pub fn completions(&self) -> (r: Vec<usize>)
        requires
            self.wf(),
        ensures
            as_ints(r@) == self.completion_indices(),
    {
        let mut r: Vec<usize> = Vec::new();
        if self.frame.picker.is_some() || self.menu_dismissed || self.frame.interaction.is_some()
            || same_text(self.frame.mode.as_str(), "command") {
            proof {
                reveal_strlit("command");
            }
            assert(as_ints(r@) =~= Seq::<int>::empty());
            return r;
        }
        let input = self.input.text();
        let n = input.unicode_len();
        if n == 0 || input.as_str().get_char(0) != '/' {
            assert(as_ints(r@) =~= Seq::<int>::empty());
            return r;
        }
        let query = input.as_str().substring_char(1, n);
        assert(query@ =~= input@.skip(1));
        if has_white_space(query) {
            assert(as_ints(r@) =~= Seq::<int>::empty());
            return r;
        }
        let ghost p = |i: int| query@.is_prefix_of(self.frame.commands@[i].name@);
        let m = self.frame.commands.len();
        for i in 0..m
            invariant
                m == self.frame.commands@.len(),
                p == (|i: int| query@.is_prefix_of(self.frame.commands@[i].name@)),
                as_ints(r@) == indices_where(i as nat, p),
        {
            let ghost before = r@;
            if starts_with(self.frame.commands[i].name.as_str(), query) {
                r.push(i);
                assert(as_ints(r@) =~= as_ints(before).push(i as int));
            }
        }
        proof {
            reveal_strlit("command");
        }
        r
    }

    /// The picker items that match the draft.
    pub fn choices(&self) -> (r: Vec<usize>)
        requires
            self.wf(),
        ensures
            as_ints(r@) == self.choice_indices(),
    {
        let mut r: Vec<usize> = Vec::new();
        if self.frame.interaction.is_some() {
            assert(as_ints(r@) =~= Seq::<int>::empty());
            return r;
        }
        match &self.frame.picker {
            None => {
                assert(as_ints(r@) =~= Seq::<int>::empty());
                r
            },
            Some(picker) => {
                let text = self.input.text();
                let query = lowercase(text.as_str());
                let ghost p = |i: int| occurs_in(query@, lowered(picker.items@[i].label@));
                let m = picker.items.len();
                for i in 0..m
                    invariant
                        m == picker.items@.len(),
                        p == (|i: int| occurs_in(query@, lowered(picker.items@[i].label@))),
                        as_ints(r@) == indices_where(i as nat, p),
                {
                    let ghost before = r@;
                    let label = lowercase(picker.items[i].label.as_str());
                    if contains(label.as_str(), query.as_str()) {
                        r.push(i);
                        assert(as_ints(r@) =~= as_ints(before).push(i as int));
                    }
                }
                r
            },
        }
    }
}

} // verus!
