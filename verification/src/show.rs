//! The one rendering of a capture: a value prints as the bash that would
//! declare it, so what is shown and what a library caller prints are the same
//! text.

use vstd::prelude::*;

use crate::outside::{
    assoc_emitted, decimal, decimal_text, emit_assoc, emit_indexed, emit_scalar, frame_lines, indexed_emitted,
    joined, scalar_emitted, var_map_entry, var_map_len,
};
use crate::snapshot::{Capture, SnapshotView, Value, ValueView, Variable, VariableView};

verus! {

broadcast use vstd::string::group_string_axioms;

/// The pieces, one after another.
pub open spec fn concat_all(items: Seq<Seq<char>>) -> Seq<char>
    decreases items.len(),
{
    if items.len() == 0 {
        Seq::empty()
    } else {
        concat_all(items.drop_last()) + items.last()
    }
}

/// One line per item, each under the same prefix.
pub open spec fn prefixed_lines(prefix: Seq<char>, items: Seq<Seq<char>>) -> Seq<char> {
    concat_all(Seq::new(items.len(), |i: int| prefix + items[i] + "\n"@))
}

/// A value as the bash that would declare it.
pub open spec fn value_text(value: ValueView) -> Seq<char> {
    match value {
        ValueView::Scalar(text) => scalar_emitted(text),
        ValueView::Indexed(items) => indexed_emitted(items),
        ValueView::Assoc(items) => assoc_emitted(items),
    }
}

/// The attribute letters in brackets, `--` for none, then the value.
pub open spec fn variable_text(var: VariableView) -> Seq<char> {
    let letters = if var.attrs.len() == 0 {
        "--"@
    } else {
        var.attrs
    };
    "["@ + letters + "] "@ + value_text(var.value)
}

/// One capture: a header naming the shell — its pid, the order it joined
/// in, its `$SHLVL` and its subshell depth — then its frames, notes,
/// variables and, where a regex had matched, what it captured.
///
/// `seq` is the shell's place in the order the run's shells joined in,
/// counting from zero, so it tells apart the shells a run saw; the wire
/// numbers neither shells' messages nor captures, and where several
/// captures came from one shell, the `[i]` that `shown` puts before each
/// tells them apart.
pub open spec fn capture_text(pid: nat, seq: nat, shlvl: nat, subshell: nat, snap: SnapshotView) -> Seq<char> {
    let header = "pid "@ + decimal(pid) + " seq "@ + decimal(seq) + " shlvl "@ + decimal(shlvl)
        + " subshell "@ + decimal(subshell) + "\n"@;
    let frames = snap.frames;
    let vars = concat_all(
        Seq::new(
            snap.vars.len(),
            |i: int| "    var   "@ + snap.vars[i].0 + " "@ + variable_text(snap.vars[i].1) + "\n"@,
        ),
    );
    let regex = if snap.rematch.len() > 0 {
        "    regex "@ + joined(snap.rematch, " | "@) + "\n"@
    } else {
        Seq::empty()
    };
    header + prefixed_lines("    at    "@, frames) + prefixed_lines("    note  "@, snap.notes) + vars
        + regex
}

/// Each item on a line of its own under `prefix`.
fn append_lines(out: &mut String, prefix: &str, items: &Vec<String>)
    ensures
        final(out)@ == old(out)@ + prefixed_lines(prefix@, items.deep_view()),
{
    let ghost lines = Seq::new(items@.len(), |i: int| prefix@ + items@[i]@ + "\n"@);
    assert(lines.take(0) =~= Seq::<Seq<char>>::empty());
    let ghost start = out@;
    let mut i: usize = 0;
    while i < items.len()
        invariant
            i <= items@.len(),
            lines == Seq::new(items@.len(), |i: int| prefix@ + items@[i]@ + "\n"@),
            out@ == start + concat_all(lines.take(i as int)),
            start == old(out)@,
        decreases items@.len() - i,
    {
        assert(lines.take(i + 1).drop_last() =~= lines.take(i as int));
        out.append(prefix);
        out.append(items[i].as_str());
        out.append("\n");
        i = i + 1;
    }
    assert(lines.take(i as int) =~= lines);
    assert(Seq::new(items.deep_view().len(), |i: int| prefix@ + items.deep_view()[i] + "\n"@)
        =~= lines);
}

impl Value {
    /// The value as the bash that would declare it.
    pub fn to_text(&self) -> (text: String)
        ensures
            text@ == value_text(self@),
    {
        match self {
            Value::Scalar(word) => emit_scalar(word.as_str()),
            Value::Indexed(items) => emit_indexed(items),
            Value::Assoc(items) => emit_assoc(items),
        }
    }
}

impl Variable {
    /// `[letters] value`, with `--` for a variable that has no attributes.
    pub fn to_text(&self) -> (text: String)
        ensures
            text@ == variable_text(self@),
    {
        let mut text = String::from_str("[");
        if self.attrs.as_str().unicode_len() == 0 {
            text.append("--");
        } else {
            text.append(self.attrs.as_str());
        }
        text.append("] ");
        let value = self.value.to_text();
        text.append(value.as_str());
        text
    }
}

/// A capture as [`Capture::to_text`] writes it.
#[verifier::opaque]
pub open spec fn capture_shown(capture: Capture) -> Seq<char> {
    capture_text(
        capture.shell.pid.0 as nat,
        capture.shell.nth as nat,
        capture.shell.shlvl as nat,
        capture.shell.subshell as nat,
        capture.snapshot@,
    )
}

/// How many different values a sequence holds.
pub open spec fn distinct_count(s: Seq<usize>) -> nat
    decreases s.len(),
{
    if s.len() == 0 {
        0
    } else {
        distinct_count(s.drop_last()) + if s.drop_last().contains(s.last()) {
            0nat
        } else {
            1nat
        }
    }
}

/// The order each capture's shell joined in.
pub open spec fn joined_orders(captures: Seq<Capture>) -> Seq<usize> {
    Seq::new(captures.len(), |i: int| captures[i].shell.nth)
}

/// A run's captures as `bashcap show` prints them: how many, from how many
/// shells, a blank line, then each numbered from `[0]`, a blank line after
/// each.
pub open spec fn run_text(captures: Seq<Capture>) -> Seq<char> {
    decimal(captures.len()) + " snapshots from "@ + decimal(distinct_count(joined_orders(captures)))
        + " shells\n\n"@ + concat_all(
        Seq::new(
            captures.len(),
            |i: int| "["@ + decimal(i as nat) + "] "@ + capture_shown(captures[i]) + "\n"@,
        ),
    )
}

/// A variable is shown with all of its attribute letters, as they are,
/// between brackets, then a space and its value; `[--]` stands only for a
/// variable with no letters.
pub proof fn a_variable_shows_all_its_letters(var: VariableView)
    ensures
        ({
            let text = variable_text(var);
            let n = var.attrs.len() as int;
            if n > 0 {
                &&& text.len() == n + 3 + value_text(var.value).len()
                &&& text[0] == '['
                &&& text.subrange(1, n + 1) == var.attrs
                &&& text[n + 1] == ']' && text[n + 2] == ' '
                &&& text.skip(n + 3) == value_text(var.value)
            } else {
                &&& text.len() == 5 + value_text(var.value).len()
                &&& text.take(5) == seq!['[', '-', '-', ']', ' ']
                &&& text.skip(5) == value_text(var.value)
            }
        }),
{
    reveal_strlit("[");
    reveal_strlit("--");
    reveal_strlit("] ");
    let text = variable_text(var);
    let n = var.attrs.len() as int;
    if n > 0 {
        assert(text.subrange(1, n + 1) =~= var.attrs);
        assert(text.skip(n + 3) =~= value_text(var.value));
    } else {
        assert(text.take(5) =~= seq!['[', '-', '-', ']', ' ']);
        assert(text.skip(5) =~= value_text(var.value));
    }
}

/// Items joined list every item, in order, the separator between each two.
pub proof fn joined_lists_every_item(items: Seq<Seq<char>>, item: Seq<char>, sep: Seq<char>)
    ensures
        joined(seq![item], sep) == item,
        items.len() > 0 ==> joined(items.push(item), sep) == joined(items, sep) + sep + item,
{
    assert(seq![item].len() == 1);
    assert(items.push(item).drop_last() =~= items);
}

/// Regex captures are shown on one line at the end of a capture's text —
/// every one of them, a match without groups too, ` | ` between each two —
/// and only where the snapshot has some: the line is exactly what sets the
/// text apart from that of the same snapshot without them.
pub proof fn regex_captures_are_shown_whole(pid: nat, seq: nat, shlvl: nat, subshell: nat, snap: SnapshotView)
    ensures
        ({
            let bare = SnapshotView {
                frames: snap.frames,
                state: snap.state,
                rematch: Seq::empty(),
                vars: snap.vars,
                notes: snap.notes,
            };
            &&& snap.rematch.len() > 0 ==> capture_text(pid, seq, shlvl, subshell, snap)
                == capture_text(pid, seq, shlvl, subshell, bare) + "    regex "@ + joined(snap.rematch, " | "@) + "\n"@
            &&& snap.rematch.len() == 0 ==> capture_text(pid, seq, shlvl, subshell, snap)
                == capture_text(pid, seq, shlvl, subshell, bare)
        }),
{
    let bare = SnapshotView {
        frames: snap.frames,
        state: snap.state,
        rematch: Seq::empty(),
        vars: snap.vars,
        notes: snap.notes,
    };
    let base = capture_text(pid, seq, shlvl, subshell, bare);
    if snap.rematch.len() > 0 {
        assert(base + Seq::<char>::empty() =~= base);
        assert(capture_text(pid, seq, shlvl, subshell, snap) =~= base + ("    regex "@ + joined(snap.rematch, " | "@) + "\n"@));
    } else {
        assert(snap.rematch =~= bare.rematch);
        assert(snap == bare);
    }
}

/// How many different values a sequence holds is the size of the set of
/// them: each counted once, whatever order they come in.
pub proof fn distinct_count_is_set_size(s: Seq<usize>)
    ensures
        distinct_count(s) == s.to_set().len(),
    decreases s.len(),
{
    broadcast use {vstd::set::group_set_axioms, vstd::seq_lib::seq_to_set_is_finite};

    if s.len() == 0 {
        assert(s.to_set() =~= Set::<usize>::empty());
    } else {
        let p = s.drop_last();
        distinct_count_is_set_size(p);
        assert(s.to_set() =~= p.to_set().insert(s.last())) by {
            assert forall|x: usize| s.to_set().contains(x) <==> p.to_set().insert(s.last()).contains(x) by {
                if s.contains(x) {
                    let k = choose|k: int| 0 <= k < s.len() && s[k] == x;
                    if k < p.len() {
                        assert(p[k] == x);
                    }
                }
                if p.contains(x) {
                    let k = choose|k: int| 0 <= k < p.len() && p[k] == x;
                    assert(s[k] == x);
                }
                assert(s[s.len() - 1] == s.last());
            }
        }
        assert(p.to_set().contains(s.last()) == p.contains(s.last()));
    }
}

/// A run's text begins with how many captures it holds and from how many
/// shells: every capture counted, and every shell counted once, by the
/// different orders of joining its captures carry, whatever order the
/// captures arrived in.
pub proof fn a_run_counts_its_captures_and_shells(captures: Seq<Capture>)
    ensures
        ({
            let header = decimal(captures.len()) + " snapshots from "@ + decimal(
                joined_orders(captures).to_set().len(),
            ) + " shells\n\n"@;
            &&& header.len() <= run_text(captures).len()
            &&& run_text(captures).take(header.len() as int) == header
        }),
{
    distinct_count_is_set_size(joined_orders(captures));
    let header = decimal(captures.len()) + " snapshots from "@ + decimal(
        joined_orders(captures).to_set().len(),
    ) + " shells\n\n"@;
    let rest = concat_all(
        Seq::new(
            captures.len(),
            |i: int| "["@ + decimal(i as nat) + "] "@ + capture_shown(captures[i]) + "\n"@,
        ),
    );
    assert(run_text(captures) == header + rest);
    assert((header + rest).take(header.len() as int) =~= header);
}

/// How many different shells the captures came from.
fn shell_count(captures: &Vec<Capture>) -> (count: usize)
    ensures
        count == distinct_count(joined_orders(captures@)),
{
    let ghost orders = joined_orders(captures@);
    let mut count: usize = 0;
    let mut i: usize = 0;
    assert(orders.take(0) =~= Seq::<usize>::empty());
    while i < captures.len()
        invariant
            orders == joined_orders(captures@),
            i <= captures@.len(),
            count == distinct_count(orders.take(i as int)),
            count <= i,
        decreases captures@.len() - i,
    {
        let nth = captures[i].shell.nth;
        let mut seen = false;
        let mut j: usize = 0;
        while j < i
            invariant
                orders == joined_orders(captures@),
                j <= i < captures@.len(),
                nth == orders[i as int],
                seen == orders.take(j as int).contains(nth),
            decreases i - j,
        {
            let same = captures[j].shell.nth == nth;
            proof {
                let t = orders.take(j + 1);
                assert(orders[j as int] == captures@[j as int].shell.nth);
                if t.contains(nth) {
                    let k = choose|k: int| 0 <= k < t.len() && t[k] == nth;
                    if k < j {
                        assert(orders.take(j as int)[k] == nth);
                    }
                }
                if orders.take(j as int).contains(nth) {
                    let k = choose|k: int| 0 <= k < j && orders.take(j as int)[k] == nth;
                    assert(t[k] == nth);
                }
                if same {
                    assert(t[j as int] == nth);
                }
            }
            if same {
                seen = true;
            }
            j = j + 1;
        }
        proof {
            let before = orders.take(i as int);
            assert(orders.take(i + 1).drop_last() =~= before);
            assert(orders.take(i + 1).last() == nth);
        }
        if !seen {
            count = count + 1;
        }
        i = i + 1;
    }
    assert(orders.take(i as int) =~= orders);
    count
}

/// A run's captures as `bashcap show` prints them: how many, from how many
/// shells, then each numbered.
#[verifier::spinoff_prover]
pub fn shown(captures: &Vec<Capture>) -> (text: String)
    ensures
        text@ == run_text(captures@),
{
    let mut text = decimal_text(captures.len());
    text.append(" snapshots from ");
    let shells = decimal_text(shell_count(captures));
    text.append(shells.as_str());
    text.append(" shells\n\n");
    let ghost start = text@;
    let ghost items = Seq::new(
        captures@.len(),
        |i: int| "["@ + decimal(i as nat) + "] "@ + capture_shown(captures@[i]) + "\n"@,
    );
    assert(items.take(0) =~= Seq::<Seq<char>>::empty());
    let mut i: usize = 0;
    while i < captures.len()
        invariant
            i <= captures@.len(),
            items == Seq::new(
                captures@.len(),
                |i: int| "["@ + decimal(i as nat) + "] "@ + capture_shown(captures@[i]) + "\n"@,
            ),
            text@ == start + concat_all(items.take(i as int)),
        decreases captures@.len() - i,
    {
        assert(items.take(i + 1).drop_last() =~= items.take(i as int));
        text.append("[");
        let at = decimal_text(i);
        text.append(at.as_str());
        text.append("] ");
        let one = captures[i].to_text();
        proof {
            reveal(capture_shown);
        }
        assert(one@ == capture_shown(captures@[i as int]));
        text.append(one.as_str());
        text.append("\n");
        assert(items[i as int] == "["@ + decimal(i as nat) + "] "@ + one@ + "\n"@);
        i = i + 1;
    }
    assert(items.take(i as int) =~= items);
    text
}

impl Capture {
    /// The capture, given the lines its frames are shown as.
    fn rendered(&self, frames: &Vec<String>) -> (text: String)
        requires
            frames.deep_view() == self.snapshot@.frames,
        ensures
            text@ == capture_text(
                self.shell.pid.0 as nat,
                self.shell.nth as nat,
                self.shell.shlvl as nat,
                self.shell.subshell as nat,
                self.snapshot@,
            ),
    {
        let snap = &self.snapshot;
        let mut text = String::from_str("pid ");
        let pid = decimal_text(self.shell.pid.0 as usize);
        text.append(pid.as_str());
        text.append(" seq ");
        let nth = decimal_text(self.shell.nth);
        text.append(nth.as_str());
        text.append(" shlvl ");
        let shlvl = decimal_text(self.shell.shlvl as usize);
        text.append(shlvl.as_str());
        text.append(" subshell ");
        let subshell = decimal_text(self.shell.subshell as usize);
        text.append(subshell.as_str());
        text.append("\n");

        append_lines(&mut text, "    at    ", frames);
        append_lines(&mut text, "    note  ", &snap.notes);

        let ghost before_vars = text@;
        let ghost vars = snap@.vars;
        let ghost lines = Seq::new(
            vars.len(),
            |i: int| "    var   "@ + vars[i].0 + " "@ + variable_text(vars[i].1) + "\n"@,
        );
        assert(lines.take(0) =~= Seq::<Seq<char>>::empty());
        let count = var_map_len(&snap.vars);
        let mut i: usize = 0;
        while i < count
            invariant
                count == vars.len(),
                vars == snap@.vars,
                i <= count,
                text@ == before_vars + concat_all(lines.take(i as int)),
                lines == Seq::new(
                    vars.len(),
                    |i: int| "    var   "@ + vars[i].0 + " "@ + variable_text(vars[i].1) + "\n"@,
                ),
            decreases count - i,
        {
            assert(lines.take(i + 1).drop_last() =~= lines.take(i as int));
            let (name, var) = var_map_entry(&snap.vars, i);
            text.append("    var   ");
            text.append(name.as_str());
            text.append(" ");
            let shown = var.to_text();
            text.append(shown.as_str());
            text.append("\n");
            i = i + 1;
        }
        assert(lines.take(i as int) =~= lines);

        if snap.rematch.len() > 0 {
            text.append("    regex ");
            let ghost before = text@;
            let ghost words = snap.rematch.deep_view();
            let mut k: usize = 0;
            while k < snap.rematch.len()
                invariant
                    words == snap.rematch.deep_view(),
                    k <= words.len(),
                    words.len() > 0,
                    text@ == before + joined(words.take(k as int), " | "@),
                decreases words.len() - k,
            {
                assert(words.take(k + 1).drop_last() =~= words.take(k as int));
                if k > 0 {
                    text.append(" | ");
                } else {
                    assert(words.take(1) =~= seq![words[0]]);
                }
                text.append(snap.rematch[k].as_str());
                k = k + 1;
            }
            assert(words.take(k as int) =~= words);
            text.append("\n");
        }
        text
    }

    /// The capture as `bashcap show` prints it: the header, then one line
    /// per frame as the walk renders it, then the notes, the variables and
    /// the regex captures.
    pub fn to_text(&self) -> (text: String)
        ensures
            text@ == capture_text(
                self.shell.pid.0 as nat,
                self.shell.nth as nat,
                self.shell.shlvl as nat,
                self.shell.subshell as nat,
                self.snapshot@,
            ),
    {
        let frames = frame_lines(&self.snapshot.stack);
        self.rendered(&frames)
    }
}

} // verus!
