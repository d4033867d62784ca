//! The multi-bar coordinator: a registry of lines, one per static text or bar,
//! and the redraw pass that turns the registry into terminal output.
use vstd::prelude::*;
use vstd::string::*;
use vstd::utf8::encode_utf8;
use crate::tty::{cursor_up_seq, move_cursor_up};

verus! {

/// Width of a line on screen, counted in bytes of its UTF-8 encoding.
pub open spec fn width(s: Seq<char>) -> nat {
    encode_utf8(s).len() as usize as nat
}

/// The lines that a redraw shows: the non-empty ones, in slot order.
pub open spec fn visible(lines: Seq<Seq<char>>) -> Seq<Seq<char>>
    decreases lines.len(),
{
    if lines.len() == 0 {
        seq![]
    } else {
        let rest = visible(lines.drop_last());
        if width(lines.last()) > 0 {
            rest.push(lines.last())
        } else {
            rest
        }
    }
}

/// The largest of `m` and the widths of all lines.
pub open spec fn widest(lines: Seq<Seq<char>>, m: nat) -> nat
    decreases lines.len(),
{
    if lines.len() == 0 {
        m
    } else {
        let w = widest(lines.drop_last(), m);
        if width(lines.last()) > w {
            width(lines.last())
        } else {
            w
        }
    }
}

/// `s` written `k` times in a row.
pub open spec fn repeat(s: Seq<char>, k: nat) -> Seq<char>
    decreases k,
{
    if k == 0 {
        seq![]
    } else {
        repeat(s, (k - 1) as nat) + s
    }
}

/// `n` spaces.
pub open spec fn spaces(n: nat) -> Seq<char> {
    repeat(seq![' '], n)
}

/// One drawn line: carriage return, the text, newline.
pub open spec fn content_line(l: Seq<char>) -> Seq<char> {
    seq!['\r'] + l + seq!['\n']
}

/// The drawn lines of a pass, one after the other.
pub open spec fn content_block(vis: Seq<Seq<char>>) -> Seq<char>
    decreases vis.len(),
{
    if vis.len() == 0 {
        seq![]
    } else {
        content_block(vis.drop_last()) + content_line(vis.last())
    }
}

/// A line that overwrites vacated screen space, as wide as the widest line seen.
pub open spec fn padding_line(max_width: nat) -> Seq<char> {
    seq!['\r', '\r'] + spaces((max_width - 1) as nat) + seq!['\n']
}

/// A line that the closing pass writes over a drawn line.
pub open spec fn clearing_line(max_width: nat) -> Seq<char> {
    seq!['\r'] + spaces((max_width - 1) as nat) + seq!['\n']
}

/// What the coordinator holds, as mathematical values.
pub struct MultiBarView {
    /// The text of each slot, in slot order.
    pub lines: Seq<Seq<char>>,
    /// How many slots are bars.
    pub nbars: nat,
    /// Content lines drawn by the last pass.
    pub drawn: nat,
    /// Padding lines drawn by the last pass.
    pub blank: nat,
    /// The widest line drawn so far.
    pub max_width: nat,
}

impl MultiBarView {
    /// Lines on screen after the last pass, content and padding together.
    pub open spec fn total(self) -> nat {
        self.drawn + self.blank
    }
}

/// The state after a message that sets slot `level` to `text` and its redraw.
pub open spec fn step(v: MultiBarView, level: int, text: Seq<char>) -> MultiBarView {
    let lines = v.lines.update(level, text);
    let shown = visible(lines).len();
    MultiBarView {
        lines,
        nbars: v.nbars,
        drawn: shown,
        blank: if v.drawn > shown {
            (v.drawn - shown) as nat
        } else {
            0
        },
        max_width: widest(lines, v.max_width),
    }
}

/// Moves the cursor back to the top of the region drawn last, if anything was drawn.
pub open spec fn rewind(total: nat) -> Seq<char> {
    if total > 0 {
        cursor_up_seq(total)
    } else {
        seq![]
    }
}

/// The output of the redraw that follows a message setting slot `level` to `text`.
pub open spec fn pass_output(v: MultiBarView, level: int, text: Seq<char>) -> Seq<char> {
    let n = step(v, level, text);
    rewind(v.total()) + content_block(visible(n.lines)) + repeat(padding_line(n.max_width), n.blank)
}

/// The output of the closing pass: blank every line drawn last and return to the top.
pub open spec fn closing_output(v: MultiBarView) -> Seq<char> {
    if v.drawn > 0 {
        cursor_up_seq(v.drawn) + repeat(clearing_line(v.max_width), v.drawn) + cursor_up_seq(
            v.drawn,
        )
    } else {
        seq![]
    }
}

/// Appends `k` copies of `s` to `out`.
fn append_repeated(out: &mut String, s: &str, k: usize)
    ensures
        final(out)@ == old(out)@ + repeat(s@, k as nat),
{
    let mut j: usize = 0;
    while j < k
        invariant
            j <= k,
            out@ == old(out)@ + repeat(s@, j as nat),
        decreases k - j,
    {
        out.append(s);
        j = j + 1;
        proof {
            assert(out@ =~= old(out)@ + repeat(s@, j as nat));
        }
    }
}

/// `n` spaces.
fn spaces_string(n: usize) -> (r: String)
    ensures
        r@ == spaces(n as nat),
{
    proof {
        reveal_strlit(" ");
        assert(" "@ =~= seq![' ']);
    }
    let mut r = String::new();
    append_repeated(&mut r, " ", n);
    proof {
        assert(r@ =~= spaces(n as nat));
    }
    r
}

fn padding_line_string(max_width: usize) -> (r: String)
    requires
        max_width > 0,
    ensures
        r@ == padding_line(max_width as nat),
{
    proof {
        reveal_strlit("\r\r");
        reveal_strlit("\n");
    }
    let mut r = String::from_str("\r\r");
    let fill = spaces_string(max_width - 1);
    r.append(fill.as_str());
    r.append("\n");
    r
}

fn clearing_line_string(max_width: usize) -> (r: String)
    requires
        max_width > 0,
    ensures
        r@ == clearing_line(max_width as nat),
{
    proof {
        reveal_strlit("\r");
        reveal_strlit("\n");
    }
    let mut r = String::from_str("\r");
    let fill = spaces_string(max_width - 1);
    r.append(fill.as_str());
    r.append("\n");
    r
}

/// An update from one bar: the new text of its slot.
pub struct WriteMsg {
    pub level: usize,
    pub string: String,
}

/// The writer end of one bar, bound to the slot that the bar was given.
pub struct Pipe {
    level: usize,
    total: u64,
}

impl Pipe {
    /// The slot this writer is bound to.
    pub closed spec fn slot(&self) -> nat {
        self.level as nat
    }

    /// The total count the bar was created with.
    pub closed spec fn bar_total(&self) -> nat {
        self.total as nat
    }

    pub fn level(&self) -> (r: usize)
        ensures
            r as nat == self.slot(),
    {
        self.level
    }

    pub fn total(&self) -> (r: u64)
        ensures
            r as nat == self.bar_total(),
    {
        self.total
    }

    /// Tags text that the bar wrote with the bar's slot.
    pub fn message(&self, text: String) -> (m: WriteMsg)
        ensures
            m.level as nat == self.slot(),
            m.string == text,
    {
        WriteMsg { level: self.level, string: text }
    }
}

/// The coordinator: the line registry, the state of the last redraw, and the
/// output stream that the redraws are meant for.
pub struct MultiBar<T> {
    nlines: usize,
    lines: Vec<String>,
    nbars: usize,
    drawn: usize,
    blank: usize,
    max_width: usize,
    pub handle: T,
}

impl<T> View for MultiBar<T> {
    type V = MultiBarView;

    closed spec fn view(&self) -> MultiBarView {
        MultiBarView {
            lines: self.lines@.map_values(|s: String| s@),
            nbars: self.nbars as nat,
            drawn: self.drawn as nat,
            blank: self.blank as nat,
            max_width: self.max_width as nat,
        }
    }
}

impl<T> MultiBar<T> {
    /// The output stream the coordinator draws for.
    pub closed spec fn sink(&self) -> T {
        self.handle
    }

    /// The registry has one slot per line, and the last redraw fits in it.
    pub closed spec fn wf(&self) -> bool {
        &&& self.nlines == self.lines@.len()
        &&& self.nbars <= self.nlines
        &&& self.drawn + self.blank <= self.nlines
        &&& self.drawn + self.blank > 0 ==> self.max_width > 0
    }

    /// A coordinator with no lines, which draws for `handle`.
    pub fn on(handle: T) -> (r: MultiBar<T>)
        ensures
            r.wf(),
            r@.nbars <= r@.lines.len(),
            r@.lines == Seq::<Seq<char>>::empty(),
            r@.nbars == 0,
            r@.drawn == 0,
            r@.blank == 0,
            r@.max_width == 0,
            r.sink() == handle,
    {
        MultiBar { nlines: 0, lines: Vec::new(), nbars: 0, drawn: 0, blank: 0, max_width: 0, handle }
    }

    /// The number of slots.
    pub fn len(&self) -> (r: usize)
        requires
            self.wf(),
        ensures
            r as nat == self@.lines.len(),
    {
        self.nlines
    }

    /// Adds a line of static text below every line registered so far.
    pub fn println(&mut self, s: &str)
        requires
            old(self).wf(),
            old(self)@.lines.len() < usize::MAX,
        ensures
            final(self).wf(),
            final(self)@.nbars <= final(self)@.lines.len(),
            final(self)@ == (MultiBarView { lines: old(self)@.lines.push(s@), ..old(self)@ }),
            final(self).sink() == old(self).sink(),
    {
        self.lines.push(s.to_owned());
        self.nlines = self.nlines + 1;
        proof {
            assert(self@.lines =~= old(self)@.lines.push(s@));
        }
    }

    /// Adds an empty slot for a new bar below every line registered so far, and
    /// returns the writer bound to that slot.
    pub fn create_bar(&mut self, total: u64) -> (r: Pipe)
        requires
            old(self).wf(),
            old(self)@.lines.len() < usize::MAX,
        ensures
            final(self).wf(),
            final(self)@ == (MultiBarView {
                lines: old(self)@.lines.push(Seq::empty()),
                nbars: old(self)@.nbars + 1,
                ..old(self)@
            }),
            final(self).sink() == old(self).sink(),
            final(self)@.nbars <= final(self)@.lines.len(),
            r.slot() == old(self)@.lines.len(),
            r.slot() < final(self)@.lines.len(),
            r.bar_total() == total,
    {
        proof {
            reveal_strlit("");
            assert(""@ =~= Seq::<char>::empty());
        }
        self.println("");
        proof {
            assert(self@.lines.len() == old(self)@.lines.len() + 1);
            assert(self.lines@.len() == old(self)@.lines.len() + 1);
        }
        self.nbars = self.nbars + 1;
        Pipe { level: self.nlines - 1, total }
    }

    /// Stores the text of a message in its slot and returns the redraw of the
    /// whole region: back to its top, every non-empty line in slot order, then
    /// padding over lines that the previous pass drew and this one does not.
    pub fn redraw(&mut self, msg: WriteMsg) -> (out: String)
        requires
            old(self).wf(),
            msg.level < old(self)@.lines.len(),
        ensures
            final(self).wf(),
            final(self)@.nbars <= final(self)@.lines.len(),
            final(self)@ == step(old(self)@, msg.level as int, msg.string@),
            final(self).sink() == old(self).sink(),
            out@ == pass_output(old(self)@, msg.level as int, msg.string@),
    {
        let ghost v0 = self@;
        let ghost text = msg.string@;
        let level = msg.level;
        self.lines.set(level, msg.string);
        proof {
            assert(self@.lines =~= v0.lines.update(level as int, text));
        }
        let ghost lines = self@.lines;
        let total = self.drawn + self.blank;
        let mut out = String::new();
        if total > 0 {
            let up = move_cursor_up(total);
            out.append(up.as_str());
        }
        let ghost prefix = out@;
        proof {
            assert(prefix == rewind(v0.total()));
        }
        let mut new_nlines: usize = 0;
        let mut max_width = self.max_width;
        let mut i: usize = 0;
        while i < self.lines.len()
            invariant
                i <= self.lines@.len(),
                lines == self@.lines,
                self@ == (MultiBarView { lines, ..v0 }),
                self.nlines == self.lines@.len(),
                new_nlines <= i,
                new_nlines as nat == visible(lines.subrange(0, i as int)).len(),
                max_width as nat == widest(lines.subrange(0, i as int), v0.max_width),
                max_width >= v0.max_width,
                new_nlines > 0 ==> max_width > 0,
                out@ == prefix + content_block(visible(lines.subrange(0, i as int))),
            decreases self.lines@.len() - i,
        {
            let l = &self.lines[i];
            let w = l.as_str().len();
            let ghost sub = lines.subrange(0, i as int + 1);
            let ghost old_vis = visible(lines.subrange(0, i as int));
            proof {
                assert(sub.drop_last() =~= lines.subrange(0, i as int));
                assert(sub.last() == lines[i as int]);
                assert(lines[i as int] == l@);
                assert(w as nat == width(l@));
            }
            if w > 0 {
                if w > max_width {
                    max_width = w;
                }
                let mut line = String::from_str("\r");
                line.append(l.as_str());
                line.append("\n");
                out.append(line.as_str());
                new_nlines = new_nlines + 1;
                proof {
                    reveal_strlit("\r");
                    reveal_strlit("\n");
                    assert(line@ =~= content_line(l@));
                    assert(visible(sub) == old_vis.push(l@));
                    assert(visible(sub).drop_last() =~= old_vis);
                    assert(out@ =~= prefix + content_block(visible(sub)));
                }
            }
            i = i + 1;
        }
        proof {
            assert(lines.subrange(0, lines.len() as int) =~= lines);
        }
        let nblank: usize = if self.drawn > new_nlines {
            self.drawn - new_nlines
        } else {
            0
        };
        self.drawn = new_nlines;
        self.blank = nblank;
        self.max_width = max_width;
        if nblank > 0 {
            let pad = padding_line_string(max_width);
            append_repeated(&mut out, pad.as_str(), nblank);
        }
        proof {
            assert(out@ =~= pass_output(v0, level as int, text));
        }
        out
    }

    /// The closing pass, once no bar will send again: move up over the lines
    /// that the last pass drew, overwrite each with spaces, and move up again.
    pub fn clear(&self) -> (out: String)
        requires
            self.wf(),
        ensures
            out@ == closing_output(self@),
    {
        if self.drawn > 0 {
            let up = move_cursor_up(self.drawn);
            let line = clearing_line_string(self.max_width);
            let mut out = up.clone();
            append_repeated(&mut out, line.as_str(), self.drawn);
            out.append(up.as_str());
            out
        } else {
            String::new()
        }
    }
}

} // verus!
