//! The live area under the transcript: the streaming reply, the menu heading, the input,
//! the borders, the menu, the context line and the footer, fitted to the terminal.

use vstd::prelude::*;
use crate::fit::{fit_suffix, fitted};
use crate::terminal::{accent, accent_color, clamped, muted, muted_color, Color, Style, TerminalApp};
use crate::text::{as_ints, decimal, decimal_of, lemma_indices_where, push_char, repeat_char, repeated, same_text};
use crate::unicode::{display_width, width_of};

verus! {

/// One piece of the live area, top to bottom.
pub enum Row {
    /// The streaming reply, `height` rows high; its lines are the text's lines.
    Active { text: String, height: u16 },
    /// A single unwrapped line.
    Line { text: String, style: Style },
    /// The input draft, one row high.
    Input,
    /// Text filling the left, then `gap` blank columns, then `right` in `right_width` columns.
    Split { left: String, gap: u16, right: String, right_width: u16, style: Style },
}

/// A row with its strings read as character sequences.
pub enum RowView {
    Active { text: Seq<char>, height: int },
    Line { text: Seq<char>, style: Style },
    Input,
    Split { left: Seq<char>, gap: int, right: Seq<char>, right_width: int, style: Style },
}

impl View for Row {
    type V = RowView;

    open spec fn view(&self) -> RowView {
        match self {
            Row::Active { text, height } => RowView::Active { text: text@, height: *height as int },
            Row::Line { text, style } => RowView::Line { text: text@, style: *style },
            Row::Input => RowView::Input,
            Row::Split { left, gap, right, right_width, style } => RowView::Split {
                left: left@,
                gap: *gap as int,
                right: right@,
                right_width: *right_width as int,
                style: *style,
            },
        }
    }
}

/// The rows a row sequence stands for.
pub open spec fn row_views(rows: Seq<Row>) -> Seq<RowView> {
    rows.map_values(|r: Row| r@)
}

/// How many terminal rows a row takes.
pub open spec fn row_height(r: RowView) -> int {
    match r {
        RowView::Active { height, .. } => height,
        _ => 1,
    }
}

/// How many terminal rows a sequence of rows takes.
pub open spec fn rows_height(rs: Seq<RowView>) -> int
    decreases rs.len(),
{
    if rs.len() == 0 {
        0
    } else {
        rows_height(rs.drop_last()) + row_height(rs.last())
    }
}

/// How many of the rows are not the streaming reply.
pub open spec fn status_rows(rs: Seq<RowView>) -> int
    decreases rs.len(),
{
    if rs.len() == 0 {
        0
    } else {
        status_rows(rs.drop_last()) + if rs.last() is Active {
            0int
        } else {
            1int
        }
    }
}

/// `[r]` when `b` holds, else nothing.
pub open spec fn when(b: bool, r: RowView) -> Seq<RowView> {
    if b {
        seq![r]
    } else {
        Seq::empty()
    }
}

pub open spec fn min_int(a: int, b: int) -> int {
    if a < b {
        a
    } else {
        b
    }
}

/// `a - b`, or 0 when that is negative.
pub open spec fn sat_sub(a: int, b: int) -> int {
    if a >= b {
        a - b
    } else {
        0
    }
}

/// The border color that matches the thinking effort, after pi's dark theme.
pub open spec fn effort_color(effort: Seq<char>) -> Color {
    if effort == "off"@ || effort == "none"@ {
        Color::Rgb(0x50, 0x50, 0x50)
    } else if effort == "minimal"@ {
        Color::Rgb(0x6e, 0x6e, 0x6e)
    } else if effort == "low"@ {
        Color::Rgb(0x5f, 0x87, 0xaf)
    } else if effort == "medium"@ {
        Color::Rgb(0x81, 0xa2, 0xbe)
    } else if effort == "high"@ {
        Color::Rgb(0xb2, 0x94, 0xbb)
    } else if effort == "xhigh"@ {
        Color::Rgb(0xd1, 0x83, 0xe8)
    } else if effort == "max"@ {
        Color::Rgb(0xff, 0x5f, 0xff)
    } else {
        accent()
    }
}

/// The status label while a request runs.
pub open spec fn activity_label(activity: Seq<char>) -> Seq<char> {
    if activity == "thinking"@ {
        "Thinking"@
    } else if activity == "responding"@ {
        "Responding"@
    } else {
        "Working"@
    }
}

/// The separator between footer parts.
pub open spec fn dot() -> Seq<char> {
    seq![' ', '\u{b7}', ' ']
}

impl TerminalApp {
    /// A picker is being shown: one is open and no interaction covers it.
    pub open spec fn picking(self) -> bool {
        self.frame.picker is Some && self.frame.interaction is None
    }

    /// How many menu entries ask for room (a picker always asks for one, for its empty text).
    pub open spec fn item_count(self) -> int {
        if self.picking() {
            if self.choice_indices().len() > 1 {
                self.choice_indices().len() as int
            } else {
                1
            }
        } else {
            self.completion_indices().len() as int
        }
    }

    /// Menu rows wanted: at most eight.
    pub open spec fn desired_menu_rows(self) -> int {
        min_int(self.item_count(), 8)
    }

    /// Rows of the live area: one less than the terminal, at least one, at most eight plus
    /// the wanted menu rows.
    pub open spec fn tail_height(self) -> int {
        let h = sat_sub(self.rows as int, 1);
        let top = 8 + self.desired_menu_rows();
        if h < 1 {
            1
        } else if h > top {
            top
        } else {
            h
        }
    }

    /// The footer shows from four rows up, or from two rows up when no menu wants room.
    pub open spec fn footer_rows(self) -> int {
        let h = self.tail_height();
        if h >= 4 || (self.desired_menu_rows() == 0 && h > 1) {
            1
        } else {
            0
        }
    }

    /// Menu rows granted: the input and its lower border come first in short terminals.
    pub open spec fn menu_rows(self) -> int {
        let h = self.tail_height();
        let room = if h >= 6 {
            h - 5
        } else {
            sat_sub(h, 1 + self.footer_rows() + if h > 1 {
                1int
            } else {
                0int
            })
        };
        min_int(self.desired_menu_rows(), room)
    }

    /// Rows left for decorations and the streaming reply.
    pub open spec fn chrome(self) -> int {
        self.tail_height() - 1 - self.footer_rows() - self.menu_rows()
    }

    pub open spec fn border_style(self) -> Style {
        self.style_of(effort_color(self.frame.effort@))
    }

    /// The heading's label and the status hint.
    pub open spec fn label_status(self) -> (Seq<char>, Seq<char>) {
        if self.picking() {
            let p = self.frame.picker.unwrap();
            (p.title@, p.hint@)
        } else if self.completion_indices().len() > 0 {
            ("Commands"@, "Tab complete \u{b7} Enter run \u{b7} Esc close"@)
        } else if self.mode_is("running"@) {
            (activity_label(self.frame.activity@), "Esc to stop"@)
        } else if self.mode_is("command"@) {
            ("Command"@, "Esc to cancel"@)
        } else if self.mode_is("interaction"@) {
            ("Input"@, ""@)
        } else {
            ("Idle"@, ""@)
        }
    }

    /// The hint: the open prompt's, else the status.
    pub open spec fn hint(self) -> Seq<char> {
        match self.frame.interaction {
            Some(p) => p.hint@,
            None => self.label_status().1,
        }
    }

    /// Entries the heading counts.
    pub open spec fn menu_total(self) -> int {
        if self.picking() {
            self.choice_indices().len() as int
        } else {
            self.completion_indices().len() as int
        }
    }

    /// The heading text before its fill: the label, with the 1-based selected position and
    /// the count while a menu shows.
    pub open spec fn heading(self) -> Seq<char> {
        let label = self.label_status().0;
        let total = self.menu_total();
        if self.picking() || total > 0 {
            let selected = if total == 0 {
                0
            } else {
                min_int(self.candidate as int, total - 1) + 1
            };
            seq!['\u{2500}', ' '] + label + dot() + decimal_of(selected as nat) + seq!['/']
                + decimal_of(total as nat) + seq![' ']
        } else {
            seq!['\u{2500}', ' '] + label + seq![' ']
        }
    }

    /// The heading line: the heading, then rules to the right edge.
    pub open spec fn heading_line(self) -> Seq<char> {
        let h = self.heading();
        h + repeated('\u{2500}', sat_sub(self.cols as int, width_of(h) as int) as nat)
    }

    /// The selected menu position and the first one shown.
    pub open spec fn menu_window(self) -> (int, int) {
        let n = self.menu_total();
        let selected = clamped(self.candidate as int, n);
        (selected, sat_sub(selected, self.menu_rows() - 1))
    }

    pub open spec fn marker(selected: bool) -> Seq<char> {
        if selected {
            seq!['>']
        } else {
            seq![' ']
        }
    }

    /// The menu line at position `index`.
    pub open spec fn menu_line(self, index: int) -> RowView {
        let (selected, start) = self.menu_window();
        let style = self.style_of(if index == selected { accent() } else { Color::Reset });
        let text = if self.picking() {
            let p = self.frame.picker.unwrap();
            let cs = self.choice_indices();
            if index < cs.len() {
                Self::marker(index == selected) + seq![' '] + p.items@[cs[index]].label@
            } else if index == start {
                p.empty@
            } else {
                Seq::empty()
            }
        } else {
            let cs = self.completion_indices();
            if index < cs.len() {
                let c = self.frame.commands@[cs[index]];
                Self::marker(index == selected) + seq![' ', '/'] + c.name@ + seq![
                    ' ',
                    '\u{2014}',
                    ' ',
                ] + c.description@
            } else {
                Seq::empty()
            }
        };
        RowView::Line { text, style }
    }

    /// The menu lines shown.
    pub open spec fn menu_lines(self) -> Seq<RowView> {
        let m = self.menu_rows();
        if m > 0 && (self.picking() || self.completion_indices().len() > 0) {
            let start = self.menu_window().1;
            Seq::new(m as nat, |k: int| self.menu_line(start + k))
        } else {
            Seq::empty()
        }
    }

    /// The right part of the context line: extension count and preset, kept by its end.
    pub open spec fn context_text(self) -> Seq<char> {
        if self.frame.preset@.len() == 0 {
            Seq::empty()
        } else {
            fitted(
                "extensions "@ + decimal_of(self.frame.extensions as nat) + dot() + "preset "@
                    + self.frame.preset@,
                self.cols as nat,
            )
        }
    }

    /// Columns given to a right part: its width, at most the terminal's.
    pub open spec fn right_width(self, t: Seq<char>) -> int {
        min_int(width_of(t) as int, self.cols as int)
    }

    /// The context line: the working directory, then the context text on the right.
    pub open spec fn context_row(self) -> RowView {
        let t = self.context_text();
        let w = self.right_width(t);
        RowView::Split {
            left: self.frame.cwd@,
            gap: if w > 0 && w < self.cols { 1 } else { 0 },
            right: t,
            right_width: w,
            style: self.style_of(muted()),
        }
    }

    /// The footer's left part: usage and hint when nothing else claims the line, else the
    /// hint.
    pub open spec fn footer_left(self) -> Seq<char> {
        let hint = self.hint();
        if self.frame.stats@.len() > 0 && !self.picking() && self.completion_indices().len() == 0
            && self.frame.interaction is None {
            if hint.len() == 0 {
                self.frame.stats@
            } else {
                self.frame.stats@ + dot() + hint
            }
        } else {
            hint
        }
    }

    /// The footer's right part: model and effort, kept by their end.
    pub open spec fn footer_model(self) -> Seq<char> {
        fitted(self.frame.model@ + dot() + self.frame.effort@, self.cols as nat)
    }

    pub open spec fn footer_row(self) -> RowView {
        let t = self.footer_model();
        let w = self.right_width(t);
        RowView::Split {
            left: self.footer_left(),
            gap: if w < self.cols { 1 } else { 0 },
            right: t,
            right_width: w,
            style: self.style_of(muted()),
        }
    }

    /// The live area, top to bottom.
    pub open spec fn tail_rows(self) -> Seq<RowView> {
        let c = self.chrome();
        let border = self.border_style();
        when(
            c > 3,
            RowView::Active { text: self.frame.active@, height: c - 3 },
        ) + when(c > 1, RowView::Line { text: self.heading_line(), style: border }) + seq![
            RowView::Input,
        ] + when(
            c > 0,
            RowView::Line { text: repeated('\u{2500}', self.cols as nat), style: border },
        ) + self.menu_lines() + when(c > 2, self.context_row()) + when(
            self.footer_rows() > 0,
            self.footer_row(),
        )
    }
}

} // verus!

verus! {

/// Appends `c` to `s`.
fn push(s: &mut String, c: char)
    ensures
        final(s)@ == old(s)@.push(c),
{
    push_char(s, c)
}

/// Appends the separator.
fn push_dot(s: &mut String)
    ensures
        final(s)@ == old(s)@ + dot(),
{
    push_char(s, ' ');
    push_char(s, '\u{b7}');
    push_char(s, ' ');
    assert(s@ =~= old(s)@ + dot());
}

impl TerminalApp {
    /// The border style for the current effort.
    fn border(&self) -> (s: Style)
        ensures
            s == self.border_style(),
    {
        let e = self.frame.effort.as_str();
        proof {
            reveal_strlit("off");
            reveal_strlit("none");
            reveal_strlit("minimal");
            reveal_strlit("low");
            reveal_strlit("medium");
            reveal_strlit("high");
            reveal_strlit("xhigh");
            reveal_strlit("max");
        }
        let c = if same_text(e, "off") || same_text(e, "none") {
            Color::Rgb(0x50, 0x50, 0x50)
        } else if same_text(e, "minimal") {
            Color::Rgb(0x6e, 0x6e, 0x6e)
        } else if same_text(e, "low") {
            Color::Rgb(0x5f, 0x87, 0xaf)
        } else if same_text(e, "medium") {
            Color::Rgb(0x81, 0xa2, 0xbe)
        } else if same_text(e, "high") {
            Color::Rgb(0xb2, 0x94, 0xbb)
        } else if same_text(e, "xhigh") {
            Color::Rgb(0xd1, 0x83, 0xe8)
        } else if same_text(e, "max") {
            Color::Rgb(0xff, 0x5f, 0xff)
        } else {
            accent_color()
        };
        self.style(c)
    }

    /// The heading's label and the status hint.
    fn label_and_status(&self, completing: bool) -> (r: (String, String))
        requires
            completing == (self.completion_indices().len() > 0),
        ensures
            r.0@ == self.label_status().0,
            r.1@ == self.label_status().1,
    {
        if self.frame.picker.is_some() && self.frame.interaction.is_none() {
            let p = self.frame.picker.as_ref().unwrap();
            return (p.title.clone(), p.hint.clone());
        }
        if completing {
            return (
                String::from_str("Commands"),
                String::from_str("Tab complete \u{b7} Enter run \u{b7} Esc close"),
            );
        }
        let mode = self.frame.mode.as_str();
        proof {
            reveal_strlit("running");
            reveal_strlit("command");
            reveal_strlit("interaction");
            reveal_strlit("thinking");
            reveal_strlit("responding");
            reveal_strlit("");
        }
        if same_text(mode, "running") {
            let a = self.frame.activity.as_str();
            let label = if same_text(a, "thinking") {
                String::from_str("Thinking")
            } else if same_text(a, "responding") {
                String::from_str("Responding")
            } else {
                String::from_str("Working")
            };
            (label, String::from_str("Esc to stop"))
        } else if same_text(mode, "command") {
            (String::from_str("Command"), String::from_str("Esc to cancel"))
        } else if same_text(mode, "interaction") {
            (String::from_str("Input"), String::new())
        } else {
            (String::from_str("Idle"), String::new())
        }
    }

    /// The numbers that size the live area: (height, footer rows, menu rows, chrome).
    fn metrics(&self, item_count: usize) -> (r: (u16, u16, u16, u16))
        requires
            item_count == self.item_count(),
        ensures
            r.0 == self.tail_height(),
            r.1 == self.footer_rows(),
            r.2 == self.menu_rows(),
            r.3 == self.chrome(),
            self.menu_rows() <= self.desired_menu_rows(),
            0 <= self.desired_menu_rows() <= 8,
            self.chrome() >= 0,
    {
        let desired: u16 = if item_count < 8 {
            item_count as u16
        } else {
            8
        };
        let h0: u16 = if self.rows >= 1 {
            self.rows - 1
        } else {
            0
        };
        let height: u16 = if h0 < 1 {
            1
        } else if h0 > 8 + desired {
            8 + desired
        } else {
            h0
        };
        let footer: u16 = if height >= 4 || (desired == 0 && height > 1) {
            1
        } else {
            0
        };
        let room: u16 = if height >= 6 {
            height - 5
        } else {
            let extra: u16 = if height > 1 {
                1
            } else {
                0
            };
            if height >= 1 + footer + extra {
                height - (1 + footer + extra)
            } else {
                0
            }
        };
        let menu: u16 = if desired < room {
            desired
        } else {
            room
        };
        let chrome = height - 1 - footer - menu;
        (height, footer, menu, chrome)
    }
}

} // verus!

verus! {

impl TerminalApp {
    /// The heading line (see [`TerminalApp::heading_line`]).
    fn heading_text(&self, label: &String, total: usize) -> (r: String)
        requires
            label@ == self.label_status().0,
            total == self.menu_total(),
        ensures
            r@ == self.heading_line(),
    {
        let picking = self.frame.picker.is_some() && self.frame.interaction.is_none();
        let mut h = String::new();
        push(&mut h, '\u{2500}');
        push(&mut h, ' ');
        h.append(label.as_str());
        if picking || total > 0 {
            let selected = if total == 0 {
                0
            } else if self.candidate < total - 1 {
                self.candidate + 1
            } else {
                total
            };
            push_dot(&mut h);
            h.append(decimal(selected).as_str());
            push(&mut h, '/');
            h.append(decimal(total).as_str());
            push(&mut h, ' ');
        } else {
            push(&mut h, ' ');
        }
        assert(h@ =~= self.heading());
        let w = display_width(h.as_str());
        let cols = self.cols as usize;
        let fill = if cols >= w {
            cols - w
        } else {
            0
        };
        h.append(repeat_char('\u{2500}', fill).as_str());
        h
    }

    /// The menu line at `index`.
    fn menu_line_row(&self, choices: &Vec<usize>, cands: &Vec<usize>, index: usize, selected: usize, start: usize) -> (r: Row)
        requires
            self.wf(),
            as_ints(choices@) == self.choice_indices(),
            as_ints(cands@) == self.completion_indices(),
            (selected as int, start as int) == self.menu_window(),
        ensures
            r@ == self.menu_line(index as int),
    {
        let style = self.style(if index == selected {
            accent_color()
        } else {
            Color::Reset
        });
        let mut text = String::new();
        if self.frame.picker.is_some() && self.frame.interaction.is_none() {
            let p = self.frame.picker.as_ref().unwrap();
            if index < choices.len() {
                proof {
                    let q = crate::text::lowered(self.input@.text());
                    lemma_indices_where(
                        p.items@.len(),
                        |i: int| crate::text::occurs_in(q, crate::text::lowered(p.items@[i].label@)),
                    );
                    assert(as_ints(choices@)[index as int] == choices@[index as int] as int);
                }
                push(&mut text, if index == selected { '>' } else { ' ' });
                push(&mut text, ' ');
                text.append(p.items[choices[index]].label.as_str());
            } else if index == start {
                text = p.empty.clone();
            }
        } else if index < cands.len() {
            proof {
                let q = crate::terminal::slash_query(self.input@.text()).unwrap();
                lemma_indices_where(
                    self.frame.commands@.len(),
                    |i: int| q.is_prefix_of(self.frame.commands@[i].name@),
                );
                assert(as_ints(cands@)[index as int] == cands@[index as int] as int);
            }
            let c = &self.frame.commands[cands[index]];
            push(&mut text, if index == selected { '>' } else { ' ' });
            push(&mut text, ' ');
            push(&mut text, '/');
            text.append(c.name.as_str());
            push(&mut text, ' ');
            push(&mut text, '\u{2014}');
            push(&mut text, ' ');
            text.append(c.description.as_str());
        }
        proof {
            if self.picking() {
                let p = self.frame.picker.unwrap();
                if index < choices@.len() {
                    assert(text@ =~= Self::marker(index == selected) + seq![' '] + p.items@[self.choice_indices()[index as int]].label@);
                }
            } else if index < cands@.len() {
                let c = self.frame.commands@[self.completion_indices()[index as int]];
                assert(text@ =~= Self::marker(index == selected) + seq![' ', '/'] + c.name@ + seq![' ', '\u{2014}', ' '] + c.description@);
            }
        }
        Row::Line { text, style }
    }

    /// The menu lines shown (see [`TerminalApp::menu_lines`]).
    fn menu_line_rows(&self, choices: &Vec<usize>, cands: &Vec<usize>, m: u16) -> (r: Vec<Row>)
        requires
            self.wf(),
            as_ints(choices@) == self.choice_indices(),
            as_ints(cands@) == self.completion_indices(),
            m == self.menu_rows(),
        ensures
            row_views(r@) == self.menu_lines(),
    {
        let mut rows: Vec<Row> = Vec::new();
        let picking = self.frame.picker.is_some() && self.frame.interaction.is_none();
        if m == 0 || !(picking || cands.len() > 0) {
            assert(row_views(rows@) =~= self.menu_lines());
            return rows;
        }
        let n = if picking {
            choices.len()
        } else {
            cands.len()
        };
        let selected = if n == 0 {
            0
        } else if self.candidate < n - 1 {
            self.candidate
        } else {
            n - 1
        };
        let count = m as usize;
        let start = if selected >= count - 1 {
            selected - (count - 1)
        } else {
            0
        };
        for k in 0..count
            invariant
                self.wf(),
                as_ints(choices@) == self.choice_indices(),
                as_ints(cands@) == self.completion_indices(),
                count == self.menu_rows(),
                count > 0,
                (selected as int, start as int) == self.menu_window(),
                start == 0 || start + (count - 1) == selected,
                count <= 8,
                row_views(rows@) == Seq::new(k as nat, |j: int| self.menu_line(start + j)),
        {
            let row = self.menu_line_row(choices, cands, start + k, selected, start);
            let ghost before = rows@;
            rows.push(row);
            assert(rows@ == before.push(row));
            assert(row_views(rows@) =~= row_views(before).push(row@));
            assert(row_views(rows@) =~= Seq::new((k + 1) as nat, |j: int| self.menu_line(start + j)));
        }
        rows
    }
}

} // verus!

verus! {

impl TerminalApp {
    /// The columns a right part gets.
    fn right_columns(&self, t: &String) -> (w: u16)
        ensures
            w == self.right_width(t@),
    {
        let w = display_width(t.as_str());
        if w < self.cols as usize {
            w as u16
        } else {
            self.cols
        }
    }

    /// The context line (see [`TerminalApp::context_row`]).
    fn context_line(&self) -> (r: Row)
        ensures
            r@ == self.context_row(),
    {
        let text = if self.frame.preset.unicode_len() == 0 {
            String::new()
        } else {
            let mut s = String::from_str("extensions ");
            s.append(decimal(self.frame.extensions).as_str());
            push_dot(&mut s);
            s.append("preset ");
            s.append(self.frame.preset.as_str());
            proof {
                reveal_strlit("extensions ");
                reveal_strlit("preset ");
            }
            assert(s@ =~= "extensions "@ + decimal_of(self.frame.extensions as nat) + dot()
                + "preset "@ + self.frame.preset@);
            fit_suffix(s.as_str(), self.cols)
        };
        let w = self.right_columns(&text);
        let gap: u16 = if w > 0 && w < self.cols {
            1
        } else {
            0
        };
        Row::Split {
            left: self.frame.cwd.clone(),
            gap,
            right: text,
            right_width: w,
            style: self.style(muted_color()),
        }
    }

    /// The footer (see [`TerminalApp::footer_row`]).
    fn footer_line(&self, picking: bool, completing: bool, hint: &String) -> (r: Row)
        requires
            picking == self.picking(),
            completing == (self.completion_indices().len() > 0),
            hint@ == self.hint(),
        ensures
            r@ == self.footer_row(),
    {
        let left = if self.frame.stats.unicode_len() > 0 && !picking && !completing
            && self.frame.interaction.is_none() {
            if hint.unicode_len() == 0 {
                self.frame.stats.clone()
            } else {
                let mut s = self.frame.stats.clone();
                push_dot(&mut s);
                s.append(hint.as_str());
                s
            }
        } else {
            hint.clone()
        };
        let mut m = self.frame.model.clone();
        push_dot(&mut m);
        m.append(self.frame.effort.as_str());
        let model = fit_suffix(m.as_str(), self.cols);
        let w = self.right_columns(&model);
        let gap: u16 = if w < self.cols {
            1
        } else {
            0
        };
        Row::Split { left, gap, right: model, right_width: w, style: self.style(muted_color()) }
    }

    /// The live area under the transcript, top to bottom (see [`TerminalApp::tail_rows`]).
    #[verifier::spinoff_prover]
    #[verifier::rlimit(40)]
    pub fn tail(&self) -> (rows: Vec<Row>)
        requires
            self.wf(),
        ensures
            row_views(rows@) == self.tail_rows(),
    {
        let candidates = self.completions();
        let choices = self.choices();
        let picking = self.frame.picker.is_some() && self.frame.interaction.is_none();
        let item_count = if picking {
            if choices.len() > 1 {
                choices.len()
            } else {
                1
            }
        } else {
            candidates.len()
        };
        let (_height, footer, menu, chrome) = self.metrics(item_count);
        let border = self.border();
        let completing = candidates.len() > 0;
        let (label, status) = self.label_and_status(completing);
        let hint = match &self.frame.interaction {
            Some(p) => p.hint.clone(),
            None => status,
        };
        let mut rows: Vec<Row> = Vec::new();
        let ghost mut expect: Seq<RowView> = Seq::empty();
        if chrome > 3 {
            rows.push(Row::Active { text: self.frame.active.clone(), height: chrome - 3 });
        }
        proof {
            expect = when(chrome > 3, RowView::Active { text: self.frame.active@, height: chrome - 3 });
            assert(row_views(rows@) =~= expect);
        }
        if chrome > 1 {
            let total = if picking {
                choices.len()
            } else {
                candidates.len()
            };
            let text = self.heading_text(&label, total);
            rows.push(Row::Line { text, style: border });
        }
        proof {
            let e2 = expect + when(chrome > 1, RowView::Line { text: self.heading_line(), style: border });
            assert(row_views(rows@) =~= e2);
            expect = e2;
        }
        rows.push(Row::Input);
        proof {
            let e2 = expect + seq![RowView::Input];
            assert(row_views(rows@) =~= e2);
            expect = e2;
        }
        if chrome > 0 {
            rows.push(Row::Line { text: repeat_char('\u{2500}', self.cols as usize), style: border });
        }
        proof {
            let e2 = expect + when(
                chrome > 0,
                RowView::Line { text: repeated('\u{2500}', self.cols as nat), style: border },
            );
            assert(row_views(rows@) =~= e2);
            expect = e2;
        }
        let mut menu_rows = self.menu_line_rows(&choices, &candidates, menu);
        let ghost before = rows@;
        let ghost menu_part = menu_rows@;
        rows.append(&mut menu_rows);
        proof {
            assert(rows@ == before + menu_part);
            let e2 = expect + self.menu_lines();
            assert(row_views(rows@) =~= e2);
            expect = e2;
        }
        if chrome > 2 {
            rows.push(self.context_line());
        }
        proof {
            let e2 = expect + when(chrome > 2, self.context_row());
            assert(row_views(rows@) =~= e2);
            expect = e2;
        }
        if footer > 0 {
            rows.push(self.footer_line(picking, completing, &hint));
        }
        proof {
            let e2 = expect + when(footer > 0, self.footer_row());
            assert(row_views(rows@) =~= e2);
            expect = e2;
        }
        rows
    }
}

} // verus!

verus! {

proof fn lemma_rows_height_concat(a: Seq<RowView>, b: Seq<RowView>)
    ensures
        rows_height(a + b) == rows_height(a) + rows_height(b),
        status_rows(a + b) == status_rows(a) + status_rows(b),
    decreases b.len(),
{
    if b.len() == 0 {
        assert(a + b =~= a);
    } else {
        lemma_rows_height_concat(a, b.drop_last());
        assert((a + b).drop_last() =~= a + b.drop_last());
    }
}

proof fn lemma_lines_height(s: Seq<RowView>)
    requires
        forall|i: int| 0 <= i < s.len() ==> #[trigger] s[i] is Line,
    ensures
        rows_height(s) == s.len(),
        status_rows(s) == s.len(),
    decreases s.len(),
{
    if s.len() > 0 {
        lemma_lines_height(s.drop_last());
    }
}

proof fn lemma_single(r: RowView)
    ensures
        rows_height(seq![r]) == row_height(r),
        status_rows(seq![r]) == if r is Active {
            0int
        } else {
            1int
        },
{
    reveal_with_fuel(rows_height, 2);
    reveal_with_fuel(status_rows, 2);
    assert(seq![r].drop_last() =~= Seq::<RowView>::empty());
    assert(seq![r].last() == r);
}

proof fn lemma_when(b: bool, r: RowView)
    ensures
        rows_height(when(b, r)) == if b {
            row_height(r)
        } else {
            0
        },
        status_rows(when(b, r)) == if b && !(r is Active) {
            1int
        } else {
            0int
        },
{
    lemma_single(r);
}

/// The menu shows exactly the granted menu rows.
pub proof fn lemma_menu_lines_len(app: TerminalApp)
    ensures
        app.menu_lines().len() == app.menu_rows(),
        0 <= app.menu_rows() <= 8,
        rows_height(app.menu_lines()) == app.menu_rows(),
        status_rows(app.menu_lines()) == app.menu_rows(),
{
    let ls = app.menu_lines();
    assert forall|i: int| 0 <= i < ls.len() implies #[trigger] ls[i] is Line by {}
    lemma_lines_height(ls);
}

/// The live area fills exactly the rows it is given: its rows add up to the tail height,
/// which is one less than the terminal's rows, at least one, and at most eight plus the
/// menu rows wanted (at most eight).
pub proof fn law_tail_fills_height(app: TerminalApp)
    ensures
        rows_height(app.tail_rows()) == app.tail_height(),
        1 <= app.tail_height() <= 16,
        app.tail_height() <= 8 + app.desired_menu_rows(),
        app.rows >= 2 && app.rows - 1 <= 8 + app.desired_menu_rows() ==> app.tail_height() == app.rows - 1,
{
    let c = app.chrome();
    let border = app.border_style();
    let a = when(c > 3, RowView::Active { text: app.frame.active@, height: c - 3 });
    let b = when(c > 1, RowView::Line { text: app.heading_line(), style: border });
    let i = seq![RowView::Input];
    let d = when(c > 0, RowView::Line { text: repeated('\u{2500}', app.cols as nat), style: border });
    let m = app.menu_lines();
    let x = when(c > 2, app.context_row());
    let f = when(app.footer_rows() > 0, app.footer_row());
    lemma_when(c > 3, RowView::Active { text: app.frame.active@, height: c - 3 });
    lemma_when(c > 1, RowView::Line { text: app.heading_line(), style: border });
    lemma_single(RowView::Input);
    lemma_when(c > 0, RowView::Line { text: repeated('\u{2500}', app.cols as nat), style: border });
    lemma_menu_lines_len(app);
    lemma_when(c > 2, app.context_row());
    lemma_when(app.footer_rows() > 0, app.footer_row());
    lemma_rows_height_concat(a, b);
    lemma_rows_height_concat(a + b, i);
    lemma_rows_height_concat(a + b + i, d);
    lemma_rows_height_concat(a + b + i + d, m);
    lemma_rows_height_concat(a + b + i + d + m, x);
    lemma_rows_height_concat(a + b + i + d + m + x, f);
}

/// Apart from the streaming reply, the live area takes at most five rows, plus the menu
/// rows, which are at most eight; the input row is always there, and whenever a menu row
/// shows, the border under the input shows too.
pub proof fn law_status_area_bounded(app: TerminalApp)
    ensures
        status_rows(app.tail_rows()) <= 5 + app.menu_rows(),
        status_rows(app.tail_rows()) <= 13,
        app.menu_rows() <= 8,
        app.tail_rows().contains(RowView::Input),
        app.menu_rows() > 0 ==> app.chrome() >= 1,
        app.menu_rows() > 0 ==> app.tail_rows().contains(
            RowView::Line { text: repeated('\u{2500}', app.cols as nat), style: app.border_style() },
        ),
{
    let c = app.chrome();
    let border = app.border_style();
    let a = when(c > 3, RowView::Active { text: app.frame.active@, height: c - 3 });
    let b = when(c > 1, RowView::Line { text: app.heading_line(), style: border });
    let i = seq![RowView::Input];
    let rule = RowView::Line { text: repeated('\u{2500}', app.cols as nat), style: border };
    let d = when(c > 0, rule);
    let m = app.menu_lines();
    let x = when(c > 2, app.context_row());
    let f = when(app.footer_rows() > 0, app.footer_row());
    lemma_when(c > 3, RowView::Active { text: app.frame.active@, height: c - 3 });
    lemma_when(c > 1, RowView::Line { text: app.heading_line(), style: border });
    lemma_single(RowView::Input);
    lemma_when(c > 0, rule);
    lemma_menu_lines_len(app);
    lemma_when(c > 2, app.context_row());
    lemma_when(app.footer_rows() > 0, app.footer_row());
    lemma_rows_height_concat(a, b);
    lemma_rows_height_concat(a + b, i);
    lemma_rows_height_concat(a + b + i, d);
    lemma_rows_height_concat(a + b + i + d, m);
    lemma_rows_height_concat(a + b + i + d + m, x);
    lemma_rows_height_concat(a + b + i + d + m + x, f);
    let all = app.tail_rows();
    assert(all == a + b + i + d + m + x + f);
    assert(all[(a.len() + b.len()) as int] == RowView::Input);
    if app.menu_rows() > 0 {
        assert(all[(a.len() + b.len() + 1) as int] == rule);
    }
}

} // verus!
