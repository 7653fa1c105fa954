//! Properties of the terminal application: what single messages and views must do, stated
//! in their own terms, and what spans several messages.

use vstd::prelude::*;
use crate::draft::{
    lemma_backspaces_one_line, lemma_deletes_one_line, lemma_holding_one_line,
    lemma_insert_inline_one_line, lemma_key_one_line, one_line, DraftView, InputEvent, KeyPress,
};
use crate::terminal::{clamped, frame_key, Action, Event, Frame, Msg, TerminalApp};
use crate::update::wrapped;
use crate::text::{
    ascii, folded, indices_where, lemma_folded_single_line, lemma_indices_where, lowered, occurs_in,
};
use vstd::arithmetic::div_mod::{lemma_add_mod_noop, lemma_mod_add_multiples_vanish, lemma_small_mod};

verus! {

/// The draft put aside for an interaction or picker is touched by nothing but frames:
/// every other message leaves it as it was.
pub proof fn law_put_aside_draft_kept(pre: TerminalApp, post: TerminalApp, msg: Msg, acts: Seq<Action>)
    requires
        pre.wf(),
        pre.step(post, msg, acts),
        !(msg is Frame),
    ensures
        post.saved_input == pre.saved_input,
        post.frame == pre.frame,
{
}

/// Opening an interaction (or picker) and then closing it brings back the draft exactly as
/// it was before, cursor included; the scrollback gets each frame's finished entries.
pub proof fn law_interaction_restores_draft(
    pre: TerminalApp,
    mid: TerminalApp,
    post: TerminalApp,
    opened: Frame,
    closed: Frame,
    a1: Seq<Action>,
    a2: Seq<Action>,
)
    requires
        pre.wf(),
        frame_key(pre.frame) is None,
        frame_key(opened) is Some,
        frame_key(closed) is None,
        pre.step(mid, Msg::Frame(opened), a1),
        mid.step(post, Msg::Frame(closed), a2),
    ensures
        post.input == pre.input,
        post.saved_input is None,
        a1.len() == opened.committed@.len(),
        a2.len() == closed.committed@.len(),
{
}

/// With no menu open before or after the first move, going up through the history and
/// straight back down returns to exactly the state before, the draft included.
pub proof fn law_history_round_trip(
    pre: TerminalApp,
    mid: TerminalApp,
    post: TerminalApp,
    a1: Seq<Action>,
    a2: Seq<Action>,
)
    requires
        pre.wf(),
        pre.frame.interaction is None,
        pre.frame.picker is None,
        pre.completion_indices().len() == 0,
        mid.completion_indices().len() == 0,
        pre.history_index is None,
        pre.history@.len() > 0,
        pre.history@.len() <= usize::MAX,
        pre.step(mid, Msg::History(true), a1),
        mid.step(post, Msg::History(false), a2),
    ensures
        post == pre,
        a1.len() == 0 && a2.len() == 0,
{
    assert(pre.menu_count() == 0);
    assert(mid.frame == pre.frame);
    assert(mid.menu_count() == 0);
    assert(pre.history_draft is None);
    assert(mid.history_index == Some((pre.history@.len() - 1) as usize));
    assert(mid.history_draft == Some(pre.input));
    assert(mid.history == pre.history);
    assert(mid.frame.interaction is None && mid.frame.picker is None);
    assert(post.input == pre.input);
}

/// Moving up then down through an open menu comes back to the same entry, and every move
/// lands on an entry of the menu.
pub proof fn law_menu_round_trip(
    pre: TerminalApp,
    mid: TerminalApp,
    post: TerminalApp,
    a1: Seq<Action>,
    a2: Seq<Action>,
)
    requires
        pre.wf(),
        pre.menu_count() > 0,
        pre.menu_count() <= usize::MAX,
        pre.candidate < pre.menu_count(),
        pre.step(mid, Msg::History(true), a1),
        mid.step(post, Msg::History(false), a2),
    ensures
        mid.candidate < pre.menu_count(),
        post == pre,
{
    let n = pre.menu_count();
    let c = pre.candidate as int;
    assert(mid == (TerminalApp { candidate: mid.candidate, ..pre }));
    assert(mid.choice_indices() == pre.choice_indices());
    assert(mid.completion_indices() == pre.completion_indices());
    assert(mid.menu_count() == n);
    lemma_small_mod(c as nat, n as nat);
    if c >= 1 {
        lemma_mod_add_multiples_vanish(c - 1, n);
        lemma_small_mod((c - 1) as nat, n as nat);
        assert(n + (c - 1) == c + (n - 1));
        lemma_small_mod((c - 1 + 1) as nat, n as nat);
        assert(wrapped(c, n - 1, n) == c - 1);
        assert(mid.candidate == c - 1);
        assert(wrapped(c - 1, 1, n) == c);
    } else {
        lemma_small_mod((n - 1) as nat, n as nat);
        assert(c + (n - 1) == n - 1);
        lemma_mod_add_multiples_vanish(0, n);
        assert(n - 1 + 1 == n + 0);
        assert(wrapped(c, n - 1, n) == n - 1);
        assert(mid.candidate == n - 1);
        assert(wrapped(n - 1, 1, n) == 0);
    }
}

/// Pasting never submits and never breaks the input into several lines: a one-line draft
/// stays one line.
pub proof fn law_paste_stays_one_line(pre: TerminalApp, post: TerminalApp, v: String, acts: Seq<Action>)
    requires
        pre.wf(),
        pre.input@.lines.len() == 1,
        pre.step(post, Msg::Edit(InputEvent::Paste(v)), acts),
    ensures
        acts.len() == 0,
        post.input@.lines.len() == 1,
{
}

} // verus!

verus! {

proof fn lemma_indices_where_weaker(n: nat, p: spec_fn(int) -> bool, q: spec_fn(int) -> bool)
    requires
        forall|i: int| 0 <= i < n && #[trigger] p(i) ==> q(i),
    ensures
        forall|k: int|
            0 <= k < indices_where(n, p).len() ==> indices_where(n, q).contains(
                #[trigger] indices_where(n, p)[k],
            ),
    decreases n,
{
    if n > 0 {
        let m = (n - 1) as nat;
        lemma_indices_where_weaker(m, p, q);
        let a = indices_where(m, p);
        let b = indices_where(m, q);
        assert forall|k: int| 0 <= k < indices_where(n, p).len() implies indices_where(n, q).contains(
            #[trigger] indices_where(n, p)[k],
        ) by {
            let x = indices_where(n, p)[k];
            if k < a.len() {
                assert(x == a[k]);
                assert(b.contains(x));
                let j = choose|j: int| 0 <= j < b.len() && b[j] == x;
                if q(n - 1) {
                    assert(indices_where(n, q)[j] == x);
                } else {
                    assert(indices_where(n, q)[j] == x);
                }
            } else {
                assert(x == n - 1);
                assert(p(n - 1));
                assert(indices_where(n, q)[b.len() as int] == x);
            }
        }
    }
}

/// With ASCII search text, typing more never brings back a choice the shorter search hid:
/// every choice shown after the longer search was shown after the shorter one.
pub proof fn law_longer_search_narrows(s0: TerminalApp, s1: TerminalApp, x: Seq<char>)
    requires
        s1 == (TerminalApp { input: s1.input, ..s0 }),
        s1.input@.text() == s0.input@.text() + x,
        ascii(s1.input@.text()),
    ensures
        forall|k: int|
            0 <= k < s1.choice_indices().len() ==> s0.choice_indices().contains(
                #[trigger] s1.choice_indices()[k],
            ),
{
    if s0.frame.interaction is None && s0.frame.picker is Some {
        let p = s0.frame.picker.unwrap();
        let t0 = s0.input@.text();
        let t1 = s1.input@.text();
        assert(ascii(t0)) by {
            assert forall|i: int| 0 <= i < t0.len() implies (#[trigger] t0[i] as u32) < 0x80 by {
                assert(t1[i] == t0[i]);
            }
        }
        let l0 = lowered(t0);
        let l1 = lowered(t1);
        assert(l1.subrange(0, l0.len() as int) =~= l0);
        let p1 = |i: int| occurs_in(l1, lowered(p.items@[i].label@));
        let p0 = |i: int| occurs_in(l0, lowered(p.items@[i].label@));
        assert forall|i: int| 0 <= i < p.items@.len() && #[trigger] p1(i) implies p0(i) by {
            let lab = lowered(p.items@[i].label@);
            let w = choose|w: int|
                0 <= w && w + l1.len() <= lab.len() && #[trigger] lab.subrange(w, w + l1.len())
                    == l1;
            assert(lab.subrange(w, w + l0.len()) =~= l1.subrange(0, l0.len() as int));
        }
        lemma_indices_where_weaker(p.items@.len(), p1, p0);
    }
}

} // verus!

verus! {

/// No command name of the frame holds a line feed.
pub open spec fn names_one_line(f: Frame) -> bool {
    forall|j: int| 0 <= j < f.commands@.len() ==> !(#[trigger] f.commands@[j]).name@.contains('\n')
}

/// Every draft the state holds (the input, the one put aside, the one kept while walking the
/// history) is one line; no history entry and no command name holds a line feed.
pub open spec fn all_one_line(s: TerminalApp) -> bool {
    &&& one_line(s.input@)
    &&& (s.saved_input matches Some(d) ==> one_line(d@))
    &&& (s.history_draft matches Some(d) ==> one_line(d@))
    &&& forall|i: int| 0 <= i < s.history@.len() ==> !(#[trigger] s.history@[i])@.contains('\n')
    &&& names_one_line(s.frame)
}

/// The completed command text holds no line feed when no command name does.
proof fn lemma_completion_one_line(s: TerminalApp, space: bool)
    requires
        names_one_line(s.frame),
        s.completion_indices().len() > 0,
    ensures
        !s.completion_text(space).contains('\n'),
{
    let q = crate::terminal::slash_query(s.input@.text()).unwrap();
    let n = s.frame.commands@.len();
    let p = |i: int| q.is_prefix_of(s.frame.commands@[i].name@);
    lemma_indices_where(n, p);
    let cs = s.completion_indices();
    let k = clamped(s.candidate as int, cs.len() as int);
    assert(0 <= cs[k] < n);
    let name = s.frame.commands@[cs[k]].name@;
    assert(!name.contains('\n'));
    let tail: Seq<char> = if space { seq![' '] } else { Seq::empty() };
    let r = s.completion_text(space);
    assert(r == seq!['/'] + name + tail);
    assert forall|i: int| 0 <= i < r.len() implies r[i] != '\n' by {
        if 1 <= i < 1 + name.len() {
            assert(r[i] == name[i - 1]);
        }
    }
}

/// A new application, with an empty draft, no history and an idle frame, is all on one line.
pub proof fn law_new_app_one_line(s: TerminalApp)
    requires
        s.input@ == DraftView::empty(),
        s.saved_input is None,
        s.history@.len() == 0,
        s.history_draft is None,
        s.frame.is_idle_default(),
    ensures
        all_one_line(s),
{
}

/// Drafts stay one line across any message, provided no command name holds a line feed: from
/// a state whose drafts, history entries and command names are all one line, every message
/// (a frame among them only if its command names have no line feed) leads to such a state.
pub proof fn law_drafts_stay_one_line(pre: TerminalApp, post: TerminalApp, msg: Msg, acts: Seq<Action>)
    requires
        pre.wf(),
        all_one_line(pre),
        msg matches Msg::Frame(f) ==> names_one_line(f),
        pre.step(post, msg, acts),
    ensures
        all_one_line(post),
{
    let d = pre.input@;
    match msg {
        Msg::Frame(f) => {
            assert(post.frame.commands == f.commands);
        },
        Msg::Edit(ev) => {
            match ev {
                InputEvent::Paste(v) => {
                    lemma_folded_single_line(v@, true);
                    lemma_insert_inline_one_line(d, folded(v@, true));
                },
                InputEvent::Key(k) => {
                    lemma_key_one_line(d, k);
                },
                InputEvent::Other => {},
            }
        },
        Msg::Submit => {
            if !pre.picking() && !pre.mode_is("command"@) {
                let t = pre.submitted_text();
                if pre.completion_indices().len() > 0 {
                    lemma_completion_one_line(pre, false);
                } else {
                    assert(t == d.lines[0]);
                }
                let record = pre.frame.interaction is None && !crate::text::all_white(t);
                if record {
                    match acts[0] {
                        Action::Send(Event::Submit { text, interaction_id }) => {
                            assert forall|i: int| 0 <= i < post.history@.len() implies !(
                            #[trigger] post.history@[i])@.contains('\n') by {
                                if i < pre.history@.len() {
                                    assert(post.history@[i] == pre.history@[i]);
                                } else {
                                    assert(post.history@[i] == text);
                                }
                            }
                        },
                        _ => {},
                    }
                }
            }
        },
        Msg::Complete => {
            if pre.completion_indices().len() > 0 {
                lemma_completion_one_line(pre, true);
                lemma_holding_one_line(pre.completion_text(true));
            }
        },
        Msg::History(previous) => {
            let len = pre.history@.len() as int;
            if pre.menu_count() == 0 && pre.frame.interaction is None && pre.frame.picker is None
                && len > 0 {
                if previous {
                    let i = match pre.history_index {
                        Some(i) => if i > 0 {
                            i - 1
                        } else {
                            0
                        },
                        None => len - 1,
                    };
                    assert(0 <= i < len);
                    lemma_holding_one_line(pre.history@[i]@);
                } else {
                    match pre.history_index {
                        Some(i) => if i + 1 < len {
                            lemma_holding_one_line(pre.history@[i + 1]@);
                        },
                        None => {},
                    }
                }
            }
        },
        Msg::EditKey(code) => {
            lemma_key_one_line(d, KeyPress { code, ctrl: false, alt: false });
        },
        Msg::KillLine(left) => {
            let col = d.col;
            if left {
                lemma_backspaces_one_line(d, col as nat);
            } else {
                let n = crate::unicode::grapheme_count(d.text()) as int;
                lemma_deletes_one_line(d, (if n > col { n - col } else { 0 }) as nat);
            }
        },
        Msg::KillWord => {
            let col = d.col;
            lemma_backspaces_one_line(
                d,
                (col - crate::update::word_start(d.text(), col)) as nat,
            );
        },
        _ => {},
    }
}

} // verus!

verus! {

/// Indices of the entries that satisfy `p` are exactly those entries, in increasing order.
proof fn lemma_indices_where_exact(n: nat, p: spec_fn(int) -> bool)
    ensures
        forall|k: int|
            0 <= k < indices_where(n, p).len() ==> 0 <= #[trigger] indices_where(n, p)[k] < n
                && p(indices_where(n, p)[k]),
        forall|j: int| 0 <= j < n && #[trigger] p(j) ==> indices_where(n, p).contains(j),
        forall|a: int, b: int|
            0 <= a < b < indices_where(n, p).len() ==> #[trigger] indices_where(n, p)[a]
                < #[trigger] indices_where(n, p)[b],
    decreases n,
{
    lemma_indices_where(n, p);
    if n > 0 {
        let m = (n - 1) as nat;
        lemma_indices_where_exact(m, p);
        lemma_indices_where(m, p);
        let r = indices_where(m, p);
        assert forall|j: int| 0 <= j < n && #[trigger] p(j) implies indices_where(n, p).contains(j) by {
            if j < m {
                let w = choose|w: int| 0 <= w < r.len() && r[w] == j;
                assert(indices_where(n, p)[w] == j);
            } else {
                assert(indices_where(n, p)[r.len() as int] == j);
            }
        }
    }
}

/// Ctrl+C stops the host's work whenever the terminal is not idle, whatever the draft holds:
/// nothing changes and exactly one interrupt, carrying the mode, goes to the host. When idle,
/// it clears a draft that holds text and sends nothing, and with an empty draft it tells the
/// host.
pub proof fn law_interrupt(pre: TerminalApp, post: TerminalApp, acts: Seq<Action>)
    requires
        pre.wf(),
        pre.step(post, Msg::Interrupt, acts),
    ensures
        pre.frame.mode@ != "idle"@ ==> post == pre && acts == seq![
            Action::Send(Event::Interrupt { mode: pre.frame.mode }),
        ],
        pre.frame.mode@ == "idle"@ && pre.input@.text().len() > 0 ==> post.input@.text().len() == 0
            && post.input@ == DraftView::empty() && post == (TerminalApp { input: post.input, ..pre })
            && acts.len() == 0,
        pre.input@.text().len() == 0 ==> post == pre && acts == seq![
            Action::Send(Event::Interrupt { mode: pre.frame.mode }),
        ],
{
}

/// Esc: with a picker showing, the host hears that nothing was picked; with the command menu
/// showing, only the menu closes; when idle otherwise, the draft is cleared; in any other mode
/// (a running agent, a command, an interaction) nothing changes and the host hears one escape
/// carrying the mode.
pub proof fn law_escape(pre: TerminalApp, post: TerminalApp, acts: Seq<Action>)
    requires
        pre.wf(),
        pre.step(post, Msg::Escape, acts),
    ensures
        pre.frame.picker is Some && pre.frame.interaction is None ==> post == pre && acts == seq![
            Action::Send(Event::Pick { id: pre.frame.picker.unwrap().id, value: None, save: false }),
        ],
        pre.frame.picker is None && pre.completion_indices().len() > 0 ==> acts.len() == 0
            && post.menu_dismissed && post.input == pre.input && post.frame == pre.frame,
        pre.frame.picker is None && pre.completion_indices().len() == 0 && pre.frame.mode@
            == "idle"@ ==> acts.len() == 0 && post.input@ == DraftView::empty() && post == (
        TerminalApp { input: post.input, ..pre }),
        pre.frame.picker is None && pre.completion_indices().len() == 0 && pre.frame.mode@
            != "idle"@ ==> post == pre && acts == seq![
            Action::Send(Event::Escape { mode: pre.frame.mode }),
        ],
{
}

/// Ctrl+D changes nothing; it tells the host that input ended exactly when the draft is empty.
pub proof fn law_eof(pre: TerminalApp, post: TerminalApp, acts: Seq<Action>)
    requires
        pre.wf(),
        pre.step(post, Msg::Eof, acts),
    ensures
        post == pre,
        pre.input@.text().len() == 0 ==> acts == seq![
            Action::Send(Event::Eof { mode: pre.frame.mode }),
        ],
        pre.input@.text().len() > 0 ==> acts.len() == 0,
{
}

/// With the command menu open to the draft (no picker or interaction, not dismissed, no
/// command running, a draft that is a slash and a query without white space), the completions
/// are exactly the commands whose name begins with the query, each once, in order.
pub proof fn law_completions_match_prefix(s: TerminalApp)
    requires
        s.frame.picker is None,
        s.frame.interaction is None,
        !s.menu_dismissed,
        s.frame.mode@ != "command"@,
        s.input@.text().len() > 0,
        s.input@.text()[0] == '/',
        forall|i: int|
            1 <= i < s.input@.text().len() ==> !crate::text::white_space(
                #[trigger] s.input@.text()[i],
            ),
    ensures
        forall|k: int|
            0 <= k < s.completion_indices().len() ==> {
                let j = #[trigger] s.completion_indices()[k];
                let name = s.frame.commands@[j].name@;
                let q = s.input@.text().skip(1);
                &&& 0 <= j < s.frame.commands@.len()
                &&& q.len() <= name.len()
                &&& name.subrange(0, q.len() as int) == q
            },
        forall|j: int|
            0 <= j < s.frame.commands@.len() && s.input@.text().skip(1).len()
                <= (#[trigger] s.frame.commands@[j]).name@.len() && s.frame.commands@[j].name@.subrange(
                0,
                s.input@.text().skip(1).len() as int,
            ) == s.input@.text().skip(1) ==> s.completion_indices().contains(j),
        forall|a: int, b: int|
            0 <= a < b < s.completion_indices().len() ==> #[trigger] s.completion_indices()[a]
                < #[trigger] s.completion_indices()[b],
{
    let t = s.input@.text();
    let q = t.skip(1);
    assert(!crate::text::any_white(q)) by {
        assert forall|i: int| 0 <= i < q.len() implies !crate::text::white_space(#[trigger] q[i]) by {
            assert(q[i] == t[i + 1]);
        }
    }
    let n = s.frame.commands@.len();
    let begins = |i: int| q.is_prefix_of(s.frame.commands@[i].name@);
    assert(s.completion_indices() == indices_where(n, begins));
    lemma_indices_where_exact(n, begins);
    assert forall|j: int|
        0 <= j < n && q.len() <= (#[trigger] s.frame.commands@[j]).name@.len()
            && s.frame.commands@[j].name@.subrange(0, q.len() as int) == q implies s.completion_indices().contains(
        j,
    ) by {
        assert(begins(j));
    }
}

/// No completions show while a picker or interaction is open, after Esc closed the menu, while
/// a command runs, or when the draft is not a slash followed by a query without white space.
pub proof fn law_no_completions(s: TerminalApp)
    requires
        s.frame.picker is Some || s.frame.interaction is Some || s.menu_dismissed
            || s.frame.mode@ == "command"@ || s.input@.text().len() == 0 || s.input@.text()[0]
            != '/' || exists|i: int|
            1 <= i < s.input@.text().len() && crate::text::white_space(
                #[trigger] s.input@.text()[i],
            ),
    ensures
        s.completion_indices().len() == 0,
{
    let t = s.input@.text();
    if exists|i: int| 1 <= i < t.len() && crate::text::white_space(#[trigger] t[i]) {
        let i = choose|i: int| 1 <= i < t.len() && crate::text::white_space(#[trigger] t[i]);
        assert(t.skip(1)[i - 1] == t[i]);
        assert(crate::text::any_white(t.skip(1)));
    }
}

/// Tab with completions showing writes a slash, the highlighted command's name (the candidate,
/// or the last completion when the candidate is past it) and a space into the draft, and
/// closes the menu.
pub proof fn law_tab_completes_highlighted(pre: TerminalApp, post: TerminalApp, acts: Seq<Action>)
    requires
        pre.wf(),
        pre.completion_indices().len() > 0,
        pre.step(post, Msg::Complete, acts),
    ensures
        acts.len() == 0,
        post.menu_dismissed,
        post.input@.text() == seq!['/'] + pre.frame.commands@[pre.completion_indices()[if (
        pre.candidate as int) < pre.completion_indices().len() - 1 {
            pre.candidate as int
        } else {
            pre.completion_indices().len() - 1
        }]].name@ + seq![' '],
{
    crate::draft::law_text_after_set_text(pre.completion_text(true));
}

/// A picker lists exactly the items whose lowercased label contains the lowercased draft
/// somewhere (not only at its start), each once, in order.
pub proof fn law_choices_match_anywhere(s: TerminalApp)
    requires
        s.frame.picker is Some,
        s.frame.interaction is None,
    ensures
        forall|k: int|
            0 <= k < s.choice_indices().len() ==> {
                let j = #[trigger] s.choice_indices()[k];
                let q = lowered(s.input@.text());
                let lab = lowered(s.frame.picker.unwrap().items@[j].label@);
                &&& 0 <= j < s.frame.picker.unwrap().items@.len()
                &&& exists|w: int|
                    0 <= w && w + q.len() <= lab.len() && #[trigger] lab.subrange(w, w + q.len())
                        == q
            },
        forall|j: int, w: int|
            0 <= j < s.frame.picker.unwrap().items@.len() && 0 <= w && w + lowered(
                s.input@.text(),
            ).len() <= lowered(s.frame.picker.unwrap().items@[j].label@).len() && #[trigger] lowered(
                s.frame.picker.unwrap().items@[j].label@,
            ).subrange(w, w + lowered(s.input@.text()).len()) == lowered(s.input@.text())
                ==> s.choice_indices().contains(j),
        forall|a: int, b: int|
            0 <= a < b < s.choice_indices().len() ==> #[trigger] s.choice_indices()[a]
                < #[trigger] s.choice_indices()[b],
{
    let pk = s.frame.picker.unwrap();
    let q = lowered(s.input@.text());
    let n = pk.items@.len();
    let p = |i: int| occurs_in(q, lowered(pk.items@[i].label@));
    assert(s.choice_indices() == indices_where(n, p));
    lemma_indices_where_exact(n, p);
    assert forall|k: int| 0 <= k < s.choice_indices().len() implies {
        let j = #[trigger] s.choice_indices()[k];
        let lab = lowered(pk.items@[j].label@);
        &&& 0 <= j < n
        &&& exists|w: int|
            0 <= w && w + q.len() <= lab.len() && #[trigger] lab.subrange(w, w + q.len()) == q
    } by {
        let j = s.choice_indices()[k];
        assert(p(j));
    }
    assert forall|j: int, w: int|
        0 <= j < n && 0 <= w && w + q.len() <= lowered(pk.items@[j].label@).len()
            && #[trigger] lowered(pk.items@[j].label@).subrange(w, w + q.len()) == q implies s.choice_indices().contains(
        j,
    ) by {
        assert(p(j));
    }
}

/// Enter with a picker showing changes nothing and picks the highlighted choice (the
/// candidate, or the last choice when the candidate is past it), or sends nothing when no item
/// matches.
pub proof fn law_enter_picks_highlighted(pre: TerminalApp, post: TerminalApp, acts: Seq<Action>)
    requires
        pre.wf(),
        pre.frame.picker is Some,
        pre.frame.interaction is None,
        pre.step(post, Msg::Submit, acts),
    ensures
        post == pre,
        pre.choice_indices().len() == 0 ==> acts.len() == 0,
        pre.choice_indices().len() > 0 ==> acts.len() == 1 && match acts[0] {
            Action::Send(Event::Pick { id, value: Some(v), save }) => {
                let cs = pre.choice_indices();
                let k = if (pre.candidate as int) < cs.len() - 1 {
                    pre.candidate as int
                } else {
                    cs.len() - 1
                };
                &&& id@ == pre.frame.picker.unwrap().id@
                &&& v@ == pre.frame.picker.unwrap().items@[cs[k]].value@
                &&& !save
            },
            _ => false,
        },
{
}

/// A frame that opens, changes or closes the interaction or picker puts the menu back on its
/// first entry and reopens it; opening one from none puts the draft aside and starts empty,
/// closing the last brings the draft back, and moving from one to another clears the draft. A
/// frame that keeps the same one leaves the highlighted entry, the menu and the drafts alone.
pub proof fn law_frame_resets_menu(pre: TerminalApp, post: TerminalApp, f: Frame, acts: Seq<Action>)
    requires
        pre.wf(),
        pre.step(post, Msg::Frame(f), acts),
    ensures
        frame_key(pre.frame) != frame_key(f) ==> post.candidate == 0 && !post.menu_dismissed,
        frame_key(pre.frame) is None && frame_key(f) is Some ==> post.saved_input == Some(pre.input)
            && post.input@.text().len() == 0,
        frame_key(pre.frame) is Some && frame_key(f) is None ==> pre.saved_input == Some(post.input)
            && post.saved_input is None,
        frame_key(pre.frame) is Some && frame_key(f) is Some && frame_key(pre.frame) != frame_key(f)
            ==> post.input@.text().len() == 0 && post.saved_input == pre.saved_input,
        frame_key(pre.frame) == frame_key(f) ==> post.candidate == pre.candidate
            && post.menu_dismissed == pre.menu_dismissed && post.input == pre.input
            && post.saved_input == pre.saved_input,
        post.history == pre.history,
{
}

/// While an agent runs and no picker or command menu shows, the heading names what it is doing:
/// "Thinking" while it thinks, "Responding" while it writes its reply, "Working" otherwise;
/// the heading line starts with it, and without a prompt the hint says how to stop.
pub proof fn law_running_heading(s: TerminalApp)
    requires
        s.frame.mode@ == "running"@,
        s.frame.picker is None || s.frame.interaction is Some,
        s.completion_indices().len() == 0,
    ensures
        s.frame.activity@ == "thinking"@ ==> s.heading() == seq!['\u{2500}', ' '] + "Thinking"@
            + seq![' '],
        s.frame.activity@ == "responding"@ ==> s.heading() == seq!['\u{2500}', ' '] + "Responding"@
            + seq![' '],
        s.frame.activity@ != "thinking"@ && s.frame.activity@ != "responding"@ ==> s.heading()
            == seq!['\u{2500}', ' '] + "Working"@ + seq![' '],
        s.heading_line().subrange(0, s.heading().len() as int) == s.heading(),
        s.frame.interaction is None ==> s.hint() == "Esc to stop"@,
{
    reveal_strlit("thinking");
    reveal_strlit("responding");
    if s.frame.activity@ == "responding"@ {
        assert(s.frame.activity@[0] == 'r');
        assert(s.frame.activity@ != "thinking"@);
        assert(crate::tail::activity_label(s.frame.activity@) == "Responding"@);
    }
    assert(s.menu_total() == 0);
    let h = s.heading();
    assert(s.heading_line().subrange(0, h.len() as int) =~= h);
}


/// No picker choices are listed while an interaction covers the picker, or with no picker.
pub proof fn law_no_choices(s: TerminalApp)
    requires
        s.frame.picker is None || s.frame.interaction is Some,
    ensures
        s.choice_indices().len() == 0,
{
}

/// Outside a running agent, the heading names the state: a picker's title while it shows,
/// "Commands" over the command menu, "Command" while a command runs, "Input" during an
/// interaction and "Idle" otherwise; a picker's hint, "Esc to cancel" for a command and no
/// hint when idle go with them.
pub proof fn law_heading_labels(s: TerminalApp)
    ensures
        s.frame.picker is Some && s.frame.interaction is None ==> s.label_status() == (
        s.frame.picker.unwrap().title@,
        s.frame.picker.unwrap().hint@,
        ),
        s.frame.picker is None && s.completion_indices().len() > 0 ==> s.label_status().0
            == "Commands"@,
        s.frame.picker is None && s.completion_indices().len() == 0 && s.frame.mode@
            == "command"@ ==> s.label_status() == ("Command"@, "Esc to cancel"@),
        s.frame.picker is None && s.completion_indices().len() == 0 && s.frame.mode@
            == "interaction"@ ==> s.label_status().0 == "Input"@,
        s.frame.picker is None && s.completion_indices().len() == 0 && s.frame.mode@ == "idle"@
            ==> s.label_status() == ("Idle"@, ""@),
{
    reveal_strlit("running");
    reveal_strlit("command");
    reveal_strlit("interaction");
    reveal_strlit("idle");
    if s.frame.mode@ == "command"@ {
        assert(s.frame.mode@[1] == 'o');
        assert(s.frame.mode@ != "running"@);
    }
    if s.frame.mode@ == "interaction"@ {
        assert(s.frame.mode@[0] == 'i');
        assert(s.frame.mode@ != "running"@);
        assert(s.frame.mode@ != "command"@);
    }
    if s.frame.mode@ == "idle"@ {
        assert(s.frame.mode@[0] == 'i');
        assert(s.frame.mode@.len() == 4);
        assert(s.frame.mode@ != "running"@);
        assert(s.frame.mode@ != "command"@);
        assert(s.frame.mode@ != "interaction"@);
    }
}

} // verus!
