//! Facts about the registry and the redraw that hold over many messages.
use vstd::prelude::*;
use crate::multi::{
    MultiBarView, Pipe, clearing_line, closing_output, content_block, repeat, step, visible,
    widest, width,
};
use crate::tty::cursor_up_seq;

verus! {

/// The row, counted from the top of the drawn region, on which the line of
/// slot `i` stands when it is non-empty: the number of non-empty slots above it.
pub open spec fn screen_row(lines: Seq<Seq<char>>, i: int) -> nat {
    visible(lines.subrange(0, i)).len()
}

/// The state after the messages `msgs`, each a slot and its new text, in the
/// order in which they arrived.
pub open spec fn run(v: MultiBarView, msgs: Seq<(int, Seq<char>)>) -> MultiBarView
    decreases msgs.len(),
{
    if msgs.len() == 0 {
        v
    } else {
        step(run(v, msgs.drop_last()), msgs.last().0, msgs.last().1)
    }
}

/// The text of the last message in `msgs` addressed to slot `s`, or `init`
/// where none is.
pub open spec fn last_text(init: Seq<char>, msgs: Seq<(int, Seq<char>)>, s: int) -> Seq<char>
    decreases msgs.len(),
{
    if msgs.len() == 0 {
        init
    } else if msgs.last().0 == s {
        msgs.last().1
    } else {
        last_text(init, msgs.drop_last(), s)
    }
}

proof fn lemma_visible_prefix(lines: Seq<Seq<char>>, k1: int, k2: int)
    requires
        0 <= k1 <= k2 <= lines.len(),
    ensures
        visible(lines.subrange(0, k1)).len() <= visible(lines.subrange(0, k2)).len(),
        visible(lines.subrange(0, k2)).subrange(0, visible(lines.subrange(0, k1)).len() as int)
            == visible(lines.subrange(0, k1)),
    decreases k2 - k1,
{
    if k1 < k2 {
        lemma_visible_prefix(lines, k1, k2 - 1);
        assert(lines.subrange(0, k2).drop_last() =~= lines.subrange(0, k2 - 1));
        let a = visible(lines.subrange(0, k1));
        let b = visible(lines.subrange(0, k2 - 1));
        let c = visible(lines.subrange(0, k2));
        assert(c.subrange(0, a.len() as int) =~= b.subrange(0, a.len() as int));
    } else {
        let a = visible(lines.subrange(0, k1));
        assert(a.subrange(0, a.len() as int) =~= a);
    }
}

proof fn lemma_row_holds_line(lines: Seq<Seq<char>>, i: int)
    requires
        0 <= i < lines.len(),
        width(lines[i]) > 0,
    ensures
        screen_row(lines, i) < screen_row(lines, i + 1),
        screen_row(lines, i) < visible(lines).len(),
        visible(lines)[screen_row(lines, i) as int] == lines[i],
{
    assert(lines.subrange(0, i + 1).drop_last() =~= lines.subrange(0, i));
    lemma_visible_prefix(lines, i + 1, lines.len() as int);
    assert(lines.subrange(0, lines.len() as int) =~= lines);
    let r = screen_row(lines, i) as int;
    let small = visible(lines.subrange(0, i + 1));
    assert(small[r] == lines[i]);
    assert(visible(lines).subrange(0, small.len() as int)[r] == visible(lines)[r]);
}

/// A bar created when the registry has `v.lines.len()` slots gets a slot
/// above every slot handed out before, whether to a bar or to static text.
pub proof fn lemma_later_bar_slot(v: MultiBarView, earlier: Pipe, later: Pipe)
    requires
        earlier.slot() < v.lines.len(),
        later.slot() == v.lines.len(),
    ensures
        earlier.slot() < later.slot(),
{
}

/// After a pass, the next pass pads exactly the content lines that the
/// previous pass drew and this one does not, each as wide as the widest line
/// drawn so far, which never decreases.
pub proof fn lemma_padding_covers_vacated_lines(v: MultiBarView, level: int, text: Seq<char>)
    requires
        0 <= level < v.lines.len(),
    ensures
        ({
            let n = step(v, level, text);
            &&& n.blank == if v.drawn > n.drawn {
                (v.drawn - n.drawn) as nat
            } else {
                0nat
            }
            &&& n.max_width >= v.max_width
        }),
{
    lemma_widest_grows(v.lines.update(level, text), v.max_width);
}

proof fn lemma_widest_grows(lines: Seq<Seq<char>>, m: nat)
    ensures
        widest(lines, m) >= m,
    decreases lines.len(),
{
    if lines.len() > 0 {
        lemma_widest_grows(lines.drop_last(), m);
    }
}

/// Slot order is screen order: where two slots are both non-empty, the later
/// slot (a bar registered later) is drawn on a lower row, and each row holds
/// the text of its slot.
pub proof fn lemma_slot_order(lines: Seq<Seq<char>>, i: int, j: int)
    requires
        0 <= i < j < lines.len(),
        width(lines[i]) > 0,
        width(lines[j]) > 0,
    ensures
        screen_row(lines, i) < screen_row(lines, j),
        screen_row(lines, j) < visible(lines).len(),
        visible(lines)[screen_row(lines, i) as int] == lines[i],
        visible(lines)[screen_row(lines, j) as int] == lines[j],
{
    lemma_row_holds_line(lines, i);
    lemma_row_holds_line(lines, j);
    lemma_visible_prefix(lines, i + 1, j);
}

/// Last write wins: after any sequence of messages, each slot holds the text
/// of the last message addressed to it, whatever the messages to other slots
/// in between; the number of slots does not change.
pub proof fn lemma_last_write_wins(v: MultiBarView, msgs: Seq<(int, Seq<char>)>, s: int)
    requires
        0 <= s < v.lines.len(),
        forall|k: int| 0 <= k < msgs.len() ==> 0 <= #[trigger] msgs[k].0 < v.lines.len(),
    ensures
        run(v, msgs).lines.len() == v.lines.len(),
        run(v, msgs).lines[s] == last_text(v.lines[s], msgs, s),
    decreases msgs.len(),
{
    if msgs.len() > 0 {
        let rest = msgs.drop_last();
        assert forall|k: int| 0 <= k < rest.len() implies 0 <= #[trigger] rest[k].0
            < v.lines.len() by {
            assert(rest[k] == msgs[k]);
        }
        assert(msgs.last() == msgs[msgs.len() - 1]);
        lemma_last_write_wins(v, rest, s);
    }
}

/// The lines a redraw shows are exactly the non-empty slots in slot order, and
/// the pass draws one content line for each of them.
pub proof fn lemma_drawn_lines_are_nonempty_slots(v: MultiBarView, level: int, text: Seq<char>)
    requires
        0 <= level < v.lines.len(),
    ensures
        visible(step(v, level, text).lines) == step(v, level, text).lines.filter(
            |l: Seq<char>| width(l) > 0,
        ),
        step(v, level, text).drawn == step(v, level, text).lines.filter(
            |l: Seq<char>| width(l) > 0,
        ).len(),
{
    lemma_visible_is_filter(step(v, level, text).lines);
}

proof fn lemma_visible_is_filter(lines: Seq<Seq<char>>)
    ensures
        visible(lines) == lines.filter(|l: Seq<char>| width(l) > 0),
    decreases lines.len(),
{
    let pred = |l: Seq<char>| width(l) > 0;
    reveal(Seq::filter);
    if lines.len() > 0 {
        lemma_visible_is_filter(lines.drop_last());
        assert(lines.filter(pred) == if pred(lines.last()) {
            lines.drop_last().filter(pred).push(lines.last())
        } else {
            lines.drop_last().filter(pred)
        });
    } else {
        assert(lines.filter(pred) == lines);
        assert(lines =~= seq![]);
    }
}

/// Sending the same text twice to a slot leaves the screen content as the
/// first send drew it: the same lines, the same count of drawn lines, and no
/// padding on the second pass.
pub proof fn lemma_same_text_twice(v: MultiBarView, level: int, text: Seq<char>)
    requires
        0 <= level < v.lines.len(),
    ensures
        step(step(v, level, text), level, text).lines == step(v, level, text).lines,
        step(step(v, level, text), level, text).drawn == step(v, level, text).drawn,
        step(step(v, level, text), level, text).blank == 0,
        content_block(visible(step(step(v, level, text), level, text).lines)) == content_block(
            visible(step(v, level, text).lines),
        ),
{
    let once = step(v, level, text);
    assert(once.lines.update(level, text) =~= once.lines);
}

/// The closing pass after a redraw blanks exactly as many lines as that
/// redraw showed, and leaves the cursor at the top of the blanked region.
pub proof fn lemma_closing_clears_last_pass(v: MultiBarView, level: int, text: Seq<char>)
    requires
        0 <= level < v.lines.len(),
    ensures
        ({
            let n = step(v, level, text);
            let shown = visible(n.lines).len();
            closing_output(n) == if shown > 0 {
                cursor_up_seq(shown) + repeat(clearing_line(n.max_width), shown) + cursor_up_seq(
                    shown,
                )
            } else {
                Seq::empty()
            }
        }),
{
}

} // verus!
