//! The input draft: editable lines with a grapheme-aware cursor.

use vstd::prelude::*;
use crate::text::{control_char, is_control_char, views};
use crate::unicode::{grapheme_clusters, grapheme_count, graphemes_of, lemma_prefix_lengths};

verus! {

/// A key as the editor sees it.
#[derive(Clone, Copy, PartialEq, Eq, Structural, Debug)]
pub enum KeyCode {
    Char(char),
    Backspace,
    Delete,
    Left,
    Right,
    Up,
    Down,
    Home,
    End,
    Enter,
    Tab,
    /// Shift+Tab.
    BackTab,
    Esc,
    Other,
}

/// A key press with the two modifiers that matter to editing.
#[derive(Clone, Copy, PartialEq, Eq, Structural, Debug)]
pub struct KeyPress {
    pub code: KeyCode,
    pub ctrl: bool,
    pub alt: bool,
}

/// The abstract draft: its lines, the cursor line, and the cursor column counted in
/// grapheme clusters of that line.
pub struct DraftView {
    pub lines: Seq<Seq<char>>,
    pub line: int,
    pub col: int,
}

/// Editable multi-line text. There is always at least one line, and the cursor line exists.
pub struct Draft {
    lines: Vec<String>,
    line: usize,
    col: usize,
}

impl View for Draft {
    type V = DraftView;

    closed spec fn view(&self) -> DraftView {
        DraftView { lines: views(self.lines@), line: self.line as int, col: self.col as int }
    }
}

/// The lines joined with line feeds.
pub open spec fn joined(lines: Seq<Seq<char>>) -> Seq<char>
    decreases lines.len(),
{
    if lines.len() == 0 {
        Seq::empty()
    } else if lines.len() == 1 {
        lines[0]
    } else {
        joined(lines.drop_last()).push('\n') + lines.last()
    }
}

/// `s` split at every line feed; a string without one is a single line.
pub open spec fn split_lines(s: Seq<char>) -> Seq<Seq<char>>
    decreases s.len(),
{
    if s.len() == 0 {
        seq![Seq::empty()]
    } else {
        let p = split_lines(s.drop_last());
        if s.last() == '\n' {
            p.push(Seq::empty())
        } else {
            p.update(p.len() - 1, p.last().push(s.last()))
        }
    }
}

/// Position (in characters) of the cluster at index `col` of `line`, or the end of the
/// line when there is no such cluster; never past the end of the line.
pub open spec fn offset(line: Seq<char>, col: int) -> int {
    let gs = graphemes_of(line);
    if 0 <= col < gs.len() && gs.take(col).flatten().len() <= line.len() {
        gs.take(col).flatten().len() as int
    } else {
        line.len() as int
    }
}

/// Characters that editing keeps: all but control characters, except line feed and tab.
pub open spec fn kept_char(c: char) -> bool {
    !control_char(c) || c == '\n' || c == '\t'
}

/// The characters of `s` that editing keeps, in order.
pub open spec fn kept(s: Seq<char>) -> Seq<char>
    decreases s.len(),
{
    if s.len() == 0 {
        Seq::empty()
    } else if kept_char(s.last()) {
        kept(s.drop_last()).push(s.last())
    } else {
        kept(s.drop_last())
    }
}

/// Replace the characters `[start, end)` of `line` with `mid`.
pub open spec fn spliced(line: Seq<char>, start: int, end: int, mid: Seq<char>) -> Seq<char> {
    line.take(start) + mid + line.skip(end)
}

impl DraftView {
    pub open spec fn wf(self) -> bool {
        &&& self.lines.len() >= 1
        &&& 0 <= self.line < self.lines.len()
        &&& self.col >= 0
    }

    /// The line holding the cursor.
    pub open spec fn current(self) -> Seq<char> {
        self.lines[self.line]
    }

    /// The whole text, lines joined with line feeds.
    pub open spec fn text(self) -> Seq<char> {
        joined(self.lines)
    }

    /// The empty draft: one empty line, cursor at its start.
    pub open spec fn empty() -> DraftView {
        DraftView { lines: seq![Seq::empty()], line: 0, col: 0 }
    }

    /// The draft holding `t`, cursor at the end of its last line.
    pub open spec fn holding(t: Seq<char>) -> DraftView {
        let ls = split_lines(t);
        DraftView { lines: ls, line: ls.len() - 1, col: grapheme_count(ls.last()) as int }
    }

    /// This draft with the cursor line replaced.
    pub open spec fn with_current(self, l: Seq<char>, col: int) -> DraftView {
        DraftView { lines: self.lines.update(self.line, l), line: self.line, col }
    }

    /// Typing `c`: control characters are dropped; otherwise `c` goes in at the cursor and the
    /// cursor stands after it, counted again in clusters (a combining mark joins the cluster
    /// before it).
    pub open spec fn insert_char(self, c: char) -> DraftView {
        if control_char(c) {
            self
        } else {
            let at = offset(self.current(), self.col);
            let l = spliced(self.current(), at, at, seq![c]);
            self.with_current(l, grapheme_count(l.take(at + 1)) as int)
        }
    }

    /// Inserting text without line feeds: its kept characters go in at the cursor and the
    /// cursor stands after them.
    pub open spec fn insert_inline(self, s: Seq<char>) -> DraftView {
        let k = kept(s);
        if k.len() == 0 {
            self
        } else {
            let at = offset(self.current(), self.col);
            let l = spliced(self.current(), at, at, k);
            self.with_current(l, grapheme_count(l.take(at + k.len())) as int)
        }
    }

    /// Backspace: remove the cluster before the cursor, or join with the previous line.
    pub open spec fn backspace(self) -> DraftView {
        if self.col > 0 {
            let start = offset(self.current(), self.col - 1);
            let end = offset(self.current(), self.col);
            self.with_current(spliced(self.current(), start, end, Seq::empty()), self.col - 1)
        } else if self.line > 0 {
            let removed = self.current();
            let rest = self.lines.remove(self.line);
            let prev = rest[self.line - 1];
            DraftView {
                lines: rest.update(self.line - 1, prev + removed),
                line: self.line - 1,
                col: grapheme_count(prev) as int,
            }
        } else {
            self
        }
    }

    /// Delete: remove the cluster at the cursor, or join the next line onto this one.
    pub open spec fn delete(self) -> DraftView {
        if self.col < grapheme_count(self.current()) {
            let start = offset(self.current(), self.col);
            let end = offset(self.current(), self.col + 1);
            self.with_current(spliced(self.current(), start, end, Seq::empty()), self.col)
        } else if self.line < self.lines.len() - 1 {
            let next = self.lines[self.line + 1];
            let rest = self.lines.remove(self.line + 1);
            DraftView {
                lines: rest.update(self.line, self.current() + next),
                line: self.line,
                col: self.col,
            }
        } else {
            self
        }
    }

    pub open spec fn move_left(self) -> DraftView {
        if self.col > 0 {
            DraftView { col: self.col - 1, ..self }
        } else if self.line > 0 {
            DraftView {
                line: self.line - 1,
                col: grapheme_count(self.lines[self.line - 1]) as int,
                ..self
            }
        } else {
            self
        }
    }

    pub open spec fn move_right(self) -> DraftView {
        if self.col < grapheme_count(self.current()) {
            DraftView { col: self.col + 1, ..self }
        } else if self.line < self.lines.len() - 1 {
            DraftView { line: self.line + 1, col: 0, ..self }
        } else {
            self
        }
    }

    /// Up or down one line (up from the first line stays on it), the column clamped to the
    /// target line's clusters.
    pub open spec fn move_vertical(self, down: bool) -> DraftView {
        let target = if down {
            self.line + 1
        } else if self.line > 0 {
            self.line - 1
        } else {
            0
        };
        if target < self.lines.len() {
            let n = grapheme_count(self.lines[target]) as int;
            DraftView { line: target, col: if self.col < n { self.col } else { n }, ..self }
        } else {
            self
        }
    }

    /// An ordinary editing key; keys with Ctrl or Alt, and keys that are not editing keys,
    /// change nothing.
    pub open spec fn key(self, k: KeyPress) -> DraftView {
        if k.ctrl || k.alt {
            self
        } else {
            match k.code {
                KeyCode::Char(c) => self.insert_char(c),
                KeyCode::Backspace => self.backspace(),
                KeyCode::Delete => self.delete(),
                KeyCode::Left => self.move_left(),
                KeyCode::Right => self.move_right(),
                KeyCode::Up => self.move_vertical(false),
                KeyCode::Down => self.move_vertical(true),
                KeyCode::Home => DraftView { col: 0, ..self },
                KeyCode::End => DraftView {
                    col: grapheme_count(self.current()) as int,
                    ..self
                },
                _ => self,
            }
        }
    }

    /// `n` backspaces in a row.
    pub open spec fn backspaces(self, n: nat) -> DraftView
        decreases n,
    {
        if n == 0 {
            self
        } else {
            self.backspaces((n - 1) as nat).backspace()
        }
    }

    /// `n` deletes in a row.
    pub open spec fn deletes(self, n: nat) -> DraftView
        decreases n,
    {
        if n == 0 {
            self
        } else {
            self.deletes((n - 1) as nat).delete()
        }
    }
}

} // verus!

verus! {

/// Cluster offsets grow with the cluster index and stay within the line.
pub proof fn lemma_offset_mono(line: Seq<char>, a: int, b: int)
    requires
        graphemes_of(line).flatten() == line,
        0 <= a <= b,
    ensures
        0 <= offset(line, a) <= offset(line, b) <= line.len(),
{
    let g = graphemes_of(line);
    if b < g.len() {
        lemma_prefix_lengths(g, a, b);
    } else if a < g.len() {
        lemma_prefix_lengths(g, a, g.len() as int);
    }
}

/// The position of the cluster at index `col` of `line`, or the end of the line.
fn offset_at(line: &str, col: usize) -> (r: usize)
    ensures
        r == offset(line@, col as int),
        r <= line@.len(),
        graphemes_of(line@).flatten() == line@,
{
    let gs = grapheme_clusters(line);
    let ghost g = views(gs@);
    let n = line.unicode_len();
    if col < gs.len() {
        let mut sum: usize = 0;
        let mut j: usize = 0;
        while j < col
            invariant
                g == views(gs@),
                g == graphemes_of(line@),
                g.flatten() == line@,
                n == line@.len(),
                col < g.len(),
                j <= col,
                sum == g.take(j as int).flatten().len(),
            decreases col - j,
        {
            proof {
                lemma_prefix_lengths(g, j + 1, g.len() as int);
                assert(g.take(j + 1) =~= g.take(j as int).push(g[j as int]));
                g.take(j as int).lemma_flatten_push(g[j as int]);
                assert(g.take(g.len() as int) =~= g);
            }
            let l = gs[j].unicode_len();
            sum = sum + l;
            j += 1;
        }
        proof {
            lemma_prefix_lengths(g, col as int, g.len() as int);
            assert(g.take(g.len() as int) =~= g);
        }
        sum
    } else {
        n
    }
}

/// The number of clusters of `s`.
pub(crate) fn count_clusters(s: &str) -> (r: usize)
    ensures
        r == grapheme_count(s@),
{
    let gs = grapheme_clusters(s);
    gs.len()
}

/// `line` with the characters `[start, end)` replaced by `mid`.
fn splice(line: &str, start: usize, end: usize, mid: &str) -> (r: String)
    requires
        start <= end <= line@.len(),
    ensures
        r@ == spliced(line@, start as int, end as int, mid@),
{
    let n = line.unicode_len();
    let mut r = String::from_str(line.substring_char(0, start));
    r.append(mid);
    r.append(line.substring_char(end, n));
    assert(line@.subrange(0, start as int) =~= line@.take(start as int));
    assert(line@.subrange(end as int, n as int) =~= line@.skip(end as int));
    r
}

impl Draft {
    pub open spec fn wf(&self) -> bool {
        self@.wf()
    }

    /// An empty draft.
    pub fn new() -> (d: Draft)
        ensures
            d@ == DraftView::empty(),
            d.wf(),
    {
        let mut lines = Vec::new();
        lines.push(String::new());
        let d = Draft { lines, line: 0, col: 0 };
        assert(d@.lines =~= seq![Seq::<char>::empty()]);
        d
    }

    /// The cursor as (line, grapheme column).
    pub fn cursor(&self) -> (c: (usize, usize))
        ensures
            c.0 == self@.line,
            c.1 == self@.col,
    {
        (self.line, self.col)
    }

    /// The whole text, lines joined with line feeds.
    pub fn text(&self) -> (t: String)
        requires
            self.wf(),
        ensures
            t@ == self@.text(),
    {
        let ghost ls = self@.lines;
        let n = self.lines.len();
        let mut t = self.lines[0].clone();
        assert(ls.take(1) =~= seq![ls[0]]);
        for i in 1..n
            invariant
                n == self.lines@.len(),
                ls == views(self.lines@),
                n >= 1,
                t@ == joined(ls.take(i as int)),
        {
            push_newline(&mut t);
            t.append(self.lines[i].as_str());
            assert(ls.take(i + 1).drop_last() =~= ls.take(i as int));
        }
        assert(ls.take(n as int) =~= ls);
        t
    }

    /// Replace the content with `t`, split at line feeds; the cursor goes to the end.
    pub fn set_text(&mut self, t: &str)
        ensures
            final(self)@ == DraftView::holding(t@),
            final(self).wf(),
    {
        let cs = crate::text::chars_of(t);
        let n = cs.len();
        let mut lines: Vec<String> = Vec::new();
        let mut cur = String::new();
        assert(t@.take(0) =~= Seq::<char>::empty());
        for i in 0..n
            invariant
                n == cs@.len(),
                cs@ == t@,
                views(lines@).push(cur@) == split_lines(t@.take(i as int)),
        {
            let c = cs[i];
            assert(t@.take(i + 1).drop_last() =~= t@.take(i as int));
            if c == '\n' {
                lines.push(cur);
                cur = String::new();
                assert(views(lines@).push(cur@) =~= split_lines(t@.take(i as int)).push(
                    Seq::empty(),
                ));
            } else {
                let ghost before = views(lines@).push(cur@);
                crate::text::push_char(&mut cur, c);
                assert(views(lines@).push(cur@) =~= before.update(
                    before.len() - 1,
                    before.last().push(c),
                ));
            }
        }
        assert(t@.take(n as int) =~= t@);
        let col = count_clusters(cur.as_str());
        let ghost last = cur@;
        lines.push(cur);
        assert(views(lines@) =~= split_lines(t@));
        assert(views(lines@).last() == last);
        self.line = lines.len() - 1;
        self.lines = lines;
        self.col = col;
    }

    /// Take the content and reset to the empty draft (the submit path).
    pub fn take_text(&mut self) -> (t: String)
        requires
            old(self).wf(),
        ensures
            t@ == old(self)@.text(),
            final(self)@ == DraftView::empty(),
            final(self).wf(),
    {
        let t = self.text();
        *self = Draft::new();
        t
    }

    /// Insert text that holds no line feed at the cursor; control characters other than tab
    /// are dropped.
    pub fn insert_inline(&mut self, s: &str)
        requires
            old(self).wf(),
            !s@.contains('\n'),
        ensures
            final(self)@ == old(self)@.insert_inline(s@),
            final(self).wf(),
    {
        let k = kept_of(s);
        if k.unicode_len() == 0 {
            return;
        }
        let at = offset_at(self.lines[self.line].as_str(), self.col);
        let l = splice(self.lines[self.line].as_str(), at, at, k.as_str());
        // The spliced line's length is a usize, which bounds the end of the insertion.
        let l_len = l.unicode_len();
        let end = at + k.unicode_len();
        assert(end <= l_len);
        let col = count_clusters(l.as_str().substring_char(0, end));
        assert(l@.subrange(0, end as int) =~= l@.take(end as int));
        self.lines.set(self.line, l);
        self.col = col;
        assert(self@.lines =~= old(self)@.lines.update(old(self)@.line, l@));
    }

    fn insert_char(&mut self, c: char)
        requires
            old(self).wf(),
        ensures
            final(self)@ == old(self)@.insert_char(c),
            final(self).wf(),
    {
        if is_control_char(c) {
            return;
        }
        let mut mid = String::new();
        crate::text::push_char(&mut mid, c);
        let at = offset_at(self.lines[self.line].as_str(), self.col);
        let l = splice(self.lines[self.line].as_str(), at, at, mid.as_str());
        let l_len = l.unicode_len();
        assert(at + 1 <= l_len);
        let col = count_clusters(l.as_str().substring_char(0, at + 1));
        assert(mid@ =~= seq![c]);
        assert(l@.subrange(0, at + 1) =~= l@.take(at + 1));
        self.lines.set(self.line, l);
        self.col = col;
        assert(self@.lines =~= old(self)@.lines.update(old(self)@.line, l@));
    }

    fn backspace(&mut self)
        requires
            old(self).wf(),
        ensures
            final(self)@ == old(self)@.backspace(),
            final(self).wf(),
    {
        if self.col > 0 {
            let start = offset_at(self.lines[self.line].as_str(), self.col - 1);
            let end = offset_at(self.lines[self.line].as_str(), self.col);
            proof {
                lemma_offset_mono(self@.current(), self.col - 1, self.col as int);
            }
            let l = splice(self.lines[self.line].as_str(), start, end, String::new().as_str());
            self.lines.set(self.line, l);
            self.col = self.col - 1;
            assert(self@.lines =~= old(self)@.lines.update(old(self)@.line, l@));
        } else if self.line > 0 {
            let removed = self.lines.remove(self.line);
            self.line = self.line - 1;
            self.col = count_clusters(self.lines[self.line].as_str());
            let mut prev = self.lines[self.line].clone();
            prev.append(removed.as_str());
            self.lines.set(self.line, prev);
            proof {
                let o = old(self)@;
                assert(views(old(self).lines@.remove(o.line)) =~= o.lines.remove(o.line));
                assert(self@.lines =~= o.lines.remove(o.line).update(
                    o.line - 1,
                    o.lines.remove(o.line)[o.line - 1] + o.current(),
                ));
            }
        }
    }

    fn delete(&mut self)
        requires
            old(self).wf(),
        ensures
            final(self)@ == old(self)@.delete(),
            final(self).wf(),
    {
        let count = count_clusters(self.lines[self.line].as_str());
        if self.col < count {
            let start = offset_at(self.lines[self.line].as_str(), self.col);
            let end = offset_at(self.lines[self.line].as_str(), self.col + 1);
            proof {
                lemma_offset_mono(self@.current(), self.col as int, self.col + 1);
            }
            let l = splice(self.lines[self.line].as_str(), start, end, String::new().as_str());
            self.lines.set(self.line, l);
            assert(self@.lines =~= old(self)@.lines.update(old(self)@.line, l@));
        } else if self.line < self.lines.len() - 1 {
            let next = self.lines.remove(self.line + 1);
            let mut cur = self.lines[self.line].clone();
            cur.append(next.as_str());
            self.lines.set(self.line, cur);
            proof {
                let o = old(self)@;
                assert(views(old(self).lines@.remove(o.line + 1)) =~= o.lines.remove(o.line + 1));
                assert(self@.lines =~= o.lines.remove(o.line + 1).update(
                    o.line,
                    o.current() + o.lines[o.line + 1],
                ));
            }
        }
    }

    fn move_left(&mut self)
        requires
            old(self).wf(),
        ensures
            final(self)@ == old(self)@.move_left(),
            final(self).wf(),
    {
        if self.col > 0 {
            self.col = self.col - 1;
        } else if self.line > 0 {
            self.line = self.line - 1;
            self.col = count_clusters(self.lines[self.line].as_str());
        }
    }

    fn move_right(&mut self)
        requires
            old(self).wf(),
        ensures
            final(self)@ == old(self)@.move_right(),
            final(self).wf(),
    {
        if self.col < count_clusters(self.lines[self.line].as_str()) {
            self.col = self.col + 1;
        } else if self.line < self.lines.len() - 1 {
            self.line = self.line + 1;
            self.col = 0;
        }
    }

    fn move_vertical(&mut self, down: bool)
        requires
            old(self).wf(),
        ensures
            final(self)@ == old(self)@.move_vertical(down),
            final(self).wf(),
    {
        let n = self.lines.len();
        let target = if down {
            if self.line < n - 1 { self.line + 1 } else { n }
        } else if self.line > 0 {
            self.line - 1
        } else {
            0
        };
        if target < self.lines.len() {
            let n = count_clusters(self.lines[target].as_str());
            self.line = target;
            if self.col >= n {
                self.col = n;
            }
        }
    }

    /// Apply an ordinary editing key. Keys carrying Ctrl or Alt, and keys that are not
    /// editing keys, are ignored.
    pub fn handle_key(&mut self, k: KeyPress)
        requires
            old(self).wf(),
        ensures
            final(self)@ == old(self)@.key(k),
            final(self).wf(),
    {
        if k.ctrl || k.alt {
            return;
        }
        match k.code {
            KeyCode::Char(c) => self.insert_char(c),
            KeyCode::Backspace => self.backspace(),
            KeyCode::Delete => self.delete(),
            KeyCode::Left => self.move_left(),
            KeyCode::Right => self.move_right(),
            KeyCode::Up => self.move_vertical(false),
            KeyCode::Down => self.move_vertical(true),
            KeyCode::Home => {
                self.col = 0;
            },
            KeyCode::End => {
                self.col = count_clusters(self.lines[self.line].as_str());
            },
            _ => {},
        }
    }
}

/// Appends a line feed.
fn push_newline(s: &mut String)
    ensures
        final(s)@ == old(s)@.push('\n'),
{
    crate::text::push_char(s, '\n');
}

/// The characters of `s` that editing keeps.
fn kept_of(s: &str) -> (r: String)
    ensures
        r@ == kept(s@),
{
    let cs = crate::text::chars_of(s);
    let n = cs.len();
    let mut r = String::new();
    assert(s@.take(0) =~= Seq::<char>::empty());
    for i in 0..n
        invariant
            n == cs@.len(),
            cs@ == s@,
            r@ == kept(s@.take(i as int)),
    {
        let c = cs[i];
        assert(s@.take(i + 1).drop_last() =~= s@.take(i as int));
        if !is_control_char(c) || c == '\n' || c == '\t' {
            crate::text::push_char(&mut r, c);
        }
    }
    assert(s@.take(n as int) =~= s@);
    r
}

/// Splitting yields at least one line.
pub proof fn lemma_split_nonempty(s: Seq<char>)
    ensures
        split_lines(s).len() >= 1,
    decreases s.len(),
{
    if s.len() > 0 {
        lemma_split_nonempty(s.drop_last());
    }
}

} // verus!

verus! {

/// Joining the lines that splitting produced gives back the text.
pub proof fn lemma_join_split(s: Seq<char>)
    ensures
        joined(split_lines(s)) == s,
    decreases s.len(),
{
    if s.len() > 0 {
        let p = split_lines(s.drop_last());
        lemma_join_split(s.drop_last());
        lemma_split_nonempty(s.drop_last());
        let c = s.last();
        if c == '\n' {
            let q = p.push(Seq::empty());
            assert(q.drop_last() =~= p);
            assert(joined(q) =~= s);
        } else {
            let q = p.update(p.len() - 1, p.last().push(c));
            if p.len() == 1 {
                assert(joined(q) =~= s);
            } else {
                assert(q.drop_last() =~= p.drop_last());
                assert(q.last() == p.last().push(c));
                assert(joined(q) == joined(p.drop_last()).push('\n') + p.last().push(c));
                assert(joined(p) == joined(p.drop_last()).push('\n') + p.last());
                assert(s =~= s.drop_last().push(c));
                assert(joined(q) =~= s);
            }
        }
    }
}

/// Reading a draft back gives what was written into it: the text of the draft that holds
/// `t` is `t`.
pub proof fn law_text_after_set_text(t: Seq<char>)
    ensures
        DraftView::holding(t).text() == t,
        DraftView::holding(t).wf(),
{
    lemma_join_split(t);
    lemma_split_nonempty(t);
}

} // verus!

verus! {

/// A one-line draft: a single line, holding no line feed.
pub open spec fn one_line(d: DraftView) -> bool {
    d.lines.len() == 1 && !d.lines[0].contains('\n')
}

/// Replacing a span of a line with text that has no line feed leaves none in the line.
proof fn lemma_spliced_one_line(line: Seq<char>, start: int, end: int, mid: Seq<char>)
    requires
        0 <= start <= line.len(),
        0 <= end <= line.len(),
        !line.contains('\n'),
        !mid.contains('\n'),
    ensures
        !spliced(line, start, end, mid).contains('\n'),
{
    let r = spliced(line, start, end, mid);
    assert forall|i: int| 0 <= i < r.len() implies r[i] != '\n' by {
        if i < start {
            assert(r[i] == line[i]);
        } else if i < start + mid.len() {
            assert(r[i] == mid[i - start]);
        } else {
            assert(r[i] == line[end + (i - start - mid.len())]);
        }
    }
}

/// What editing keeps of a text without line feeds has none either.
proof fn lemma_kept_one_line(s: Seq<char>)
    requires
        !s.contains('\n'),
    ensures
        !kept(s).contains('\n'),
    decreases s.len(),
{
    if s.len() > 0 {
        let p = s.drop_last();
        assert forall|i: int| 0 <= i < p.len() implies p[i] != '\n' by {
            assert(p[i] == s[i]);
        }
        lemma_kept_one_line(p);
        assert(s.last() == s[s.len() - 1]);
    }
}

/// A text without line feeds splits into itself alone.
proof fn lemma_split_one_line(t: Seq<char>)
    requires
        !t.contains('\n'),
    ensures
        split_lines(t) == seq![t],
    decreases t.len(),
{
    if t.len() == 0 {
        assert(t =~= Seq::<char>::empty());
    } else {
        let p = t.drop_last();
        assert forall|i: int| 0 <= i < p.len() implies p[i] != '\n' by {
            assert(p[i] == t[i]);
        }
        lemma_split_one_line(p);
        assert(t.last() == t[t.len() - 1]);
        assert(p.push(t.last()) =~= t);
        assert(seq![p].update(0, p.push(t.last())) =~= seq![t]);
    }
}

/// The draft holding a text without line feeds is one line.
pub proof fn lemma_holding_one_line(t: Seq<char>)
    requires
        !t.contains('\n'),
    ensures
        one_line(DraftView::holding(t)),
        DraftView::holding(t).wf(),
{
    lemma_split_one_line(t);
}

/// Every editing key keeps a one-line draft on one line.
pub proof fn lemma_key_one_line(d: DraftView, k: KeyPress)
    requires
        d.wf(),
        one_line(d),
    ensures
        d.key(k).wf(),
        one_line(d.key(k)),
{
    let cur = d.current();
    assert(d.line == 0);
    if !(k.ctrl || k.alt) {
        match k.code {
            KeyCode::Char(c) => {
                if !control_char(c) {
                    let at = offset(cur, d.col);
                    assert(c != '\n');
                    assert(!seq![c].contains('\n')) by {
                        assert forall|i: int| 0 <= i < 1 implies seq![c][i] != '\n' by {}
                    }
                    lemma_spliced_one_line(cur, at, at, seq![c]);
                }
            },
            KeyCode::Backspace => {
                if d.col > 0 {
                    lemma_spliced_one_line(
                        cur,
                        offset(cur, d.col - 1),
                        offset(cur, d.col),
                        Seq::empty(),
                    );
                }
            },
            KeyCode::Delete => {
                if d.col < grapheme_count(cur) {
                    lemma_spliced_one_line(
                        cur,
                        offset(cur, d.col),
                        offset(cur, d.col + 1),
                        Seq::empty(),
                    );
                }
            },
            _ => {},
        }
    }
}

/// Backspaces in a row keep a one-line draft on one line.
pub proof fn lemma_backspaces_one_line(d: DraftView, n: nat)
    requires
        d.wf(),
        one_line(d),
    ensures
        d.backspaces(n).wf(),
        one_line(d.backspaces(n)),
    decreases n,
{
    if n > 0 {
        lemma_backspaces_one_line(d, (n - 1) as nat);
        lemma_key_one_line(
            d.backspaces((n - 1) as nat),
            KeyPress { code: KeyCode::Backspace, ctrl: false, alt: false },
        );
    }
}

/// Deletes in a row keep a one-line draft on one line.
pub proof fn lemma_deletes_one_line(d: DraftView, n: nat)
    requires
        d.wf(),
        one_line(d),
    ensures
        d.deletes(n).wf(),
        one_line(d.deletes(n)),
    decreases n,
{
    if n > 0 {
        lemma_deletes_one_line(d, (n - 1) as nat);
        lemma_key_one_line(
            d.deletes((n - 1) as nat),
            KeyPress { code: KeyCode::Delete, ctrl: false, alt: false },
        );
    }
}

/// Inserting text without line feeds keeps a one-line draft on one line.
pub proof fn lemma_insert_inline_one_line(d: DraftView, s: Seq<char>)
    requires
        d.wf(),
        one_line(d),
        !s.contains('\n'),
    ensures
        d.insert_inline(s).wf(),
        one_line(d.insert_inline(s)),
{
    lemma_kept_one_line(s);
    let at = offset(d.current(), d.col);
    lemma_spliced_one_line(d.current(), at, at, kept(s));
}

} // verus!

verus! {

/// An input event as the application receives it.
pub enum InputEvent {
    Key(KeyPress),
    Paste(String),
    Other,
}

} // verus!
