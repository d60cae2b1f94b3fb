//! The record one shell sends back, and the decoder that reads one off the
//! wire.

use vstd::prelude::*;

use std::sync::Arc;

use bash_interop::failure::Failure;
use bash_interop::rig::{Message, Stamp};
use bash_interop::shell::Shell;
use bash_interop::stack::Stack;
use bash_strings::ParseError;
use indexmap::IndexMap;

use crate::declaration::{
    bare_form_reads_back, declaration_of, declare_form_reads_back, declare_word, plain_letters,
    plain_name, Declaration,
};
use crate::entries::{
    distinct_keys, inserted, inserted_all, lemma_inserted_all_distinct, lemma_inserted_distinct,
    lemma_inserted_lookup, lookup,
};
use crate::outside::{
    array_parsed, assoc_parsed, behind, columns_of, columns_read, failure_parsing, failure_saying, field,
    field_of, frames, from_a_file, index_entries, failure_text, parse_error_text, indexed_parsed, parse_array,
    parse_assoc, parse_indexed, parse_scalar, quoted, scalar_parsed, stack_lines, text_entries, text_map_insert,
    text_map_new, walked,
    var_entries, var_map_insert, var_map_new, debug_quoted, share,
};
use crate::text::chars_of;

verus! {

broadcast use vstd::string::group_string_axioms;

/// The word every snapshot message begins with, and the one thing that tells
/// bashcap's messages from any other tool's on the same wire.
pub const TAG: &'static str = "__BASHCAP__";

/// A variable's value, in the form its attributes give it.
#[derive(Debug, PartialEq, Eq)]
pub enum Value {
    Scalar(String),
    Indexed(IndexMap<usize, String>),
    Assoc(IndexMap<String, String>),
}

/// A variable: the attribute letters `declare -p` would print, and its
/// value.
#[derive(Debug, PartialEq, Eq)]
pub struct Variable {
    pub attrs: String,
    pub value: Value,
}

/// What a value holds: the text, or the entries in their order.
pub enum ValueView {
    Scalar(Seq<char>),
    Indexed(Seq<(usize, Seq<char>)>),
    Assoc(Seq<(Seq<char>, Seq<char>)>),
}

/// What a variable holds.
pub struct VariableView {
    pub attrs: Seq<char>,
    pub value: ValueView,
}

impl View for Value {
    type V = ValueView;

    open spec fn view(&self) -> ValueView {
        match self {
            Value::Scalar(text) => ValueView::Scalar(text@),
            Value::Indexed(items) => ValueView::Indexed(index_entries(*items)),
            Value::Assoc(items) => ValueView::Assoc(text_entries(*items)),
        }
    }
}

impl View for Variable {
    type V = VariableView;

    open spec fn view(&self) -> VariableView {
        VariableView { attrs: self.attrs@, value: self.value@ }
    }
}

/// What one `BASHCAP` call reports: the frames it was made on, what only
/// that moment can say, the regex state, the variables it named, and its
/// notes.
#[derive(Debug)]
pub struct Snapshot {
    pub stack: Stack,
    pub state: IndexMap<String, String>,
    pub rematch: Vec<String>,
    pub vars: IndexMap<String, Variable>,
    pub notes: Vec<String>,
}

/// What a snapshot holds: its frames as they are shown, innermost first,
/// and its sections.
pub struct SnapshotView {
    pub frames: Seq<Seq<char>>,
    pub state: Seq<(Seq<char>, Seq<char>)>,
    pub rematch: Seq<Seq<char>>,
    pub vars: Seq<(Seq<char>, VariableView)>,
    pub notes: Seq<Seq<char>>,
}

impl View for Snapshot {
    type V = SnapshotView;

    open spec fn view(&self) -> SnapshotView {
        SnapshotView {
            frames: stack_lines(self.stack),
            state: text_entries(self.state),
            rematch: self.rematch.deep_view(),
            vars: var_entries(self.vars),
            notes: self.notes.deep_view(),
        }
    }
}

/// One snapshot, the shell that took it, and when. This is the output
/// format — one per message — and what is read back to be shown.
#[derive(Debug)]
pub struct Capture {
    pub shell: Arc<Shell>,
    pub stamp: Stamp,
    pub snapshot: Snapshot,
}

/// Why a snapshot message did not decode, as a decoder sees it.
pub enum Fault {
    /// A section the message did not carry.
    Missing(Seq<char>),
    /// A section that is not an array literal, and what the reader said.
    Unreadable(Seq<char>, Seq<char>),
    /// An entry of `vars` that is not a declaration.
    NotADeclaration(Seq<char>),
    /// A variable whose value does not read in the form its letters say, and
    /// what the reader said.
    Value(Seq<char>, Seq<char>),
    /// The frame walk did not read, and what the walk said.
    Walk(Seq<char>),
}

/// What the failure for a fault says.
pub open spec fn fault_text(fault: Fault) -> Seq<char> {
    match fault {
        Fault::Missing(key) => "reading the "@ + debug_quoted(key) + " section: it is missing"@,
        Fault::Unreadable(key, why) => "reading the "@ + debug_quoted(key) + " section: "@ + why,
        Fault::NotADeclaration(text) => "reading a variable: not a declaration: "@ + debug_quoted(text),
        Fault::Value(name, why) => "reading the variable "@ + name + ": "@ + why,
        Fault::Walk(why) => why,
    }
}

/// Why a snapshot message did not decode, with what the readers below it
/// said.
#[derive(Debug)]
pub enum Refusal {
    Missing { key: String },
    Unreadable { key: String, cause: ParseError },
    NotADeclaration { text: String },
    Value { name: String, cause: ParseError },
    Walk(Failure),
}

impl Refusal {
    pub open spec fn fault(self) -> Fault {
        match self {
            Refusal::Missing { key } => Fault::Missing(key@),
            Refusal::Unreadable { key, cause } => Fault::Unreadable(key@, parse_error_text(cause)),
            Refusal::NotADeclaration { text } => Fault::NotADeclaration(text@),
            Refusal::Value { name, cause } => Fault::Value(name@, parse_error_text(cause)),
            Refusal::Walk(walk) => Fault::Walk(failure_text(walk)),
        }
    }

    /// The one error the rest of the run speaks, saying what was being
    /// read and why it did not.
    pub fn failure(self) -> (failure: Failure)
        ensures
            failure_text(failure) == fault_text(self.fault()),
            self matches Refusal::Walk(walk) ==> failure == walk,
    {
        proof {
            reveal_strlit("reading the ");
            reveal_strlit(" section");
            reveal_strlit(": ");
            reveal_strlit("it is missing");
            reveal_strlit(" section: it is missing");
            reveal_strlit(" section: ");
            reveal_strlit("reading a variable");
            reveal_strlit("not a declaration: ");
            reveal_strlit("reading a variable: not a declaration: ");
        }
        match self {
            Refusal::Missing { key } => {
                let doing = reading(key.as_str());
                let failure = failure_saying(doing, String::from_str("it is missing"));
                assert(failure_text(failure) =~= "reading the "@ + debug_quoted(key@)
                    + " section: it is missing"@);
                failure
            },
            Refusal::Unreadable { key, cause } => {
                let doing = reading(key.as_str());
                let ghost said = parse_error_text(cause);
                let failure = failure_parsing(doing, cause);
                assert(failure_text(failure) =~= "reading the "@ + debug_quoted(key@) + " section: "@
                    + said);
                failure
            },
            Refusal::NotADeclaration { text } => {
                let mut why = String::from_str("not a declaration: ");
                let shown = quoted(text.as_str());
                why.append(shown.as_str());
                let failure = failure_saying(String::from_str("reading a variable"), why);
                assert(failure_text(failure) =~= "reading a variable: not a declaration: "@
                    + debug_quoted(text@));
                failure
            },
            Refusal::Value { name, cause } => {
                let mut doing = String::from_str("reading the variable ");
                doing.append(name.as_str());
                failure_parsing(doing, cause)
            },
            Refusal::Walk(walk) => walk,
        }
    }
}

/// What a section reading is doing, for a failure to say.
pub fn reading(key: &str) -> (doing: String)
    ensures
        doing@ == "reading the "@ + debug_quoted(key@) + " section"@,
{
    let mut doing = String::from_str("reading the ");
    let shown = quoted(key);
    doing.append(shown.as_str());
    doing.append(" section");
    doing
}

// ── what the sections say ────────────────────────────────────────────

/// One section, as the array literal it is written as.
pub open spec fn flat_read(words: Seq<Seq<char>>, key: Seq<char>) -> Result<Seq<Seq<char>>, Fault> {
    match field_of(words, key) {
        None => Err(Fault::Missing(key)),
        Some(text) => match array_parsed(text) {
            Ok(items) => Ok(items),
            Err(why) => Err(Fault::Unreadable(key, why)),
        },
    }
}

/// Consecutive words as `key value` pairs; a word left over is dropped.
pub open spec fn pairs_of(words: Seq<Seq<char>>) -> Seq<(Seq<char>, Seq<char>)> {
    Seq::new(words.len() / 2, |i: int| (words[2 * i], words[2 * i + 1]))
}

/// A declaration read into a variable: the attribute letters say the form of
/// the value — `A` an associative array, else `a` an indexed one, else a
/// scalar.
pub open spec fn variable_read(text: Seq<char>) -> Result<(Seq<char>, VariableView), Fault> {
    match declaration_of(text) {
        None => Err(Fault::NotADeclaration(text)),
        Some((name, attrs, rhs)) => {
            let value: Result<ValueView, Seq<char>> = if attrs.contains('A') {
                match assoc_parsed(rhs) {
                    Ok(items) => Ok(ValueView::Assoc(items)),
                    Err(why) => Err(why),
                }
            } else if attrs.contains('a') {
                match indexed_parsed(rhs) {
                    Ok(items) => Ok(ValueView::Indexed(items)),
                    Err(why) => Err(why),
                }
            } else {
                match scalar_parsed(rhs) {
                    Ok(word) => Ok(ValueView::Scalar(word)),
                    Err(why) => Err(why),
                }
            };
            match value {
                Ok(value) => Ok((name, VariableView { attrs, value })),
                Err(why) => Err(Fault::Value(name, why)),
            }
        },
    }
}

/// Every declaration read in turn, each by its name; the first that does
/// not read is the answer.
pub open spec fn vars_read(texts: Seq<Seq<char>>) -> Result<Seq<(Seq<char>, VariableView)>, Fault>
    decreases texts.len(),
{
    if texts.len() == 0 {
        Ok(Seq::empty())
    } else {
        match vars_read(texts.drop_last()) {
            Err(fault) => Err(fault),
            Ok(vars) => match variable_read(texts.last()) {
                Err(fault) => Err(fault),
                Ok((name, var)) => Ok(inserted(vars, name, var)),
            },
        }
    }
}

/// A snapshot's sections read, in the order a decoder meets them: `state`,
/// `vars` and every declaration in it, `rematch`, `notes`; the frames are
/// the walk's, read before them.
pub open spec fn snapshot_read(words: Seq<Seq<char>>, frames: Seq<Seq<char>>) -> Result<SnapshotView, Fault> {
    match flat_read(words, "state"@) {
        Err(fault) => Err(fault),
        Ok(state) => match flat_read(words, "vars"@) {
            Err(fault) => Err(fault),
            Ok(declared) => match vars_read(declared) {
                Err(fault) => Err(fault),
                Ok(vars) => match flat_read(words, "rematch"@) {
                    Err(fault) => Err(fault),
                    Ok(rematch) => match flat_read(words, "notes"@) {
                        Err(fault) => Err(fault),
                        Ok(notes) => Ok(
                            SnapshotView {
                                frames,
                                state: inserted_all(pairs_of(state)),
                                rematch,
                                vars,
                                notes,
                            },
                        ),
                    },
                },
            },
        },
    }
}

/// The shape a value had is the shape it comes back in: what bash prints
/// for a variable with attributes — `declare -<letters> <name>=<value>` —
/// reads back under its own name, with its letters, as an associative array
/// where they hold `A`, else an indexed one where they hold `a`, else a
/// scalar; and what it prints for a plain variable — `<name>=<value>` —
/// reads back as a scalar with no letters.
pub proof fn values_keep_their_shape(attrs: Seq<char>, name: Seq<char>, rhs: Seq<char>)
    requires
        plain_letters(attrs),
        plain_name(name),
    ensures
        variable_read(declare_word() + seq!['-'] + attrs + seq![' '] + name + seq!['='] + rhs)
            == if attrs.contains('A') {
            match assoc_parsed(rhs) {
                Ok(items) => Ok((name, VariableView { attrs, value: ValueView::Assoc(items) })),
                Err(why) => Err(Fault::Value(name, why)),
            }
        } else if attrs.contains('a') {
            match indexed_parsed(rhs) {
                Ok(items) => Ok((name, VariableView { attrs, value: ValueView::Indexed(items) })),
                Err(why) => Err(Fault::Value(name, why)),
            }
        } else {
            match scalar_parsed(rhs) {
                Ok(word) => Ok((name, VariableView { attrs, value: ValueView::Scalar(word) })),
                Err(why) => Err(Fault::Value(name, why)),
            }
        },
        variable_read(name + seq!['='] + rhs) == match scalar_parsed(rhs) {
            Ok(word) => Ok::<_, Fault>(
                (name, VariableView { attrs: Seq::empty(), value: ValueView::Scalar(word) }),
            ),
            Err(why) => Err(Fault::Value(name, why)),
        },
{
    declare_form_reads_back(attrs, name, rhs);
    bare_form_reads_back(name, rhs);
    let none: Seq<char> = Seq::empty();
    assert(!none.contains('A') && !none.contains('a'));
}

/// A decoded snapshot holds each state key once, and each variable name
/// once: a later entry for a name replaces the earlier one's value in its
/// place.
pub proof fn decoded_names_are_distinct(words: Seq<Seq<char>>, frames: Seq<Seq<char>>)
    ensures
        snapshot_read(words, frames) matches Ok(view) ==> distinct_keys(view.state) && distinct_keys(
            view.vars,
        ),
{
    if let Ok(view) = snapshot_read(words, frames) {
        let state = flat_read(words, "state"@)->Ok_0;
        lemma_inserted_all_distinct(pairs_of(state));
        let declared = flat_read(words, "vars"@)->Ok_0;
        lemma_vars_read_distinct(declared);
    }
}

/// A decoded snapshot carries its sections whole: its notes and its regex
/// captures are every word of the `notes` and `rematch` array literals, in
/// their order, and its frames are the walk's as they were read.
pub proof fn sections_are_carried_whole(words: Seq<Seq<char>>, frames: Seq<Seq<char>>, shell: Shell)
    ensures
        snapshot_read(words, frames) matches Ok(view) ==> {
            &&& view.frames == frames
            &&& field_of(words, "notes"@) matches Some(text) && array_parsed(text) == Ok::<_, Seq<char>>(view.notes)
            &&& field_of(words, "rematch"@) matches Some(text) && array_parsed(text) == Ok::<_, Seq<char>>(view.rematch)
        },
        decoded(words, shell) matches Ok(view) ==> {
            &&& field_of(words, "notes"@) matches Some(text) && array_parsed(text) == Ok::<_, Seq<char>>(view.notes)
            &&& field_of(words, "rematch"@) matches Some(text) && array_parsed(text) == Ok::<_, Seq<char>>(view.rematch)
        },
{
}

/// Whether a declaration reads, and reads as one of `name`.
pub open spec fn declares(text: Seq<char>, name: Seq<char>) -> bool {
    variable_read(text) matches Ok((declared, _)) && declared == name
}

/// Where the declarations read, every one of them leaves its name among the
/// decoded variables, whatever its value — an empty one too — and a name
/// holds what its last declaration says.
pub proof fn every_declared_name_is_kept(texts: Seq<Seq<char>>)
    ensures
        vars_read(texts) matches Ok(vars) ==> forall|i: int|
            0 <= i < texts.len() ==> match variable_read(#[trigger] texts[i]) {
                Ok((name, var)) => {
                    &&& lookup(vars, name) is Some
                    &&& (forall|j: int| i < j < texts.len() ==> !declares(texts[j], name))
                        ==> lookup(vars, name) == Some(var)
                },
                Err(_) => false,
            },
    decreases texts.len(),
{
    if texts.len() > 0 {
        let p = texts.drop_last();
        every_declared_name_is_kept(p);
        if let Ok(vars) = vars_read(texts) {
            let pv = vars_read(p)->Ok_0;
            let (n, v) = variable_read(texts.last())->Ok_0;
            assert(vars == inserted(pv, n, v));
            assert forall|i: int| 0 <= i < texts.len() implies match variable_read(#[trigger] texts[i]) {
                Ok((name, var)) => {
                    &&& lookup(vars, name) is Some
                    &&& (forall|j: int| i < j < texts.len() ==> !declares(texts[j], name))
                        ==> lookup(vars, name) == Some(var)
                },
                Err(_) => false,
            } by {
                if i == texts.len() - 1 {
                    lemma_inserted_lookup(pv, n, v, n);
                } else {
                    assert(texts[i] == p[i]);
                    if let Ok((name, var)) = variable_read(texts[i]) {
                        lemma_inserted_lookup(pv, n, v, name);
                        if name == n {
                            assert(declares(texts[texts.len() - 1], name));
                        } else {
                            if forall|j: int| i < j < texts.len() ==> !declares(texts[j], name) {
                                assert forall|j: int| i < j < p.len() implies !declares(p[j], name) by {
                                    assert(p[j] == texts[j]);
                                }
                            }
                        }
                    }
                }
            }
        }
    }
}

proof fn lemma_vars_read_distinct(texts: Seq<Seq<char>>)
    ensures
        vars_read(texts) matches Ok(vars) ==> distinct_keys(vars),
    decreases texts.len(),
{
    if texts.len() > 0 {
        lemma_vars_read_distinct(texts.drop_last());
        if let Ok(vars) = vars_read(texts.drop_last()) {
            if let Ok((name, var)) = variable_read(texts.last()) {
                lemma_inserted_distinct(vars, name, var);
            }
        }
    }
}

// ── reading them ─────────────────────────────────────────────────────

/// Whether `c` is one of the characters of `text`.
pub fn has_char(text: &str, c: char) -> (found: bool)
    ensures
        found == text@.contains(c),
{
    let cs = chars_of(text);
    let mut i: usize = 0;
    while i < cs.len()
        invariant
            cs@ == text@,
            i <= cs@.len(),
            forall|k: int| 0 <= k < i ==> cs@[k] != c,
        decreases cs@.len() - i,
    {
        if cs[i] == c {
            return true;
        }
        i = i + 1;
    }
    false
}

/// One section, as the array literal it is written as.
pub fn flat(sections: &[String], key: &str) -> (res: Result<Vec<String>, Refusal>)
    ensures
        match flat_read(sections.deep_view(), key@) {
            Ok(items) => res matches Ok(v) && v.deep_view() == items,
            Err(fault) => res matches Err(r) && r.fault() == fault,
        },
{
    match field(sections, key) {
        None => Err(Refusal::Missing { key: String::from_str(key) }),
        Some(text) => match parse_array(text) {
            Ok(items) => Ok(items),
            Err(cause) => Err(Refusal::Unreadable { key: String::from_str(key), cause }),
        },
    }
}

/// The attribute letters say which form the right-hand side is in.
pub fn variable(text: &str) -> (res: Result<(String, Variable), Refusal>)
    ensures
        match variable_read(text@) {
            Ok((name, var)) => res matches Ok((n, v)) && n@ == name && v@ == var,
            Err(fault) => res matches Err(r) && r.fault() == fault,
        },
{
    let declared = match Declaration::read(text) {
        Some(declared) => declared,
        None => return Err(Refusal::NotADeclaration { text: String::from_str(text) }),
    };
    let value = if has_char(declared.attrs.as_str(), 'A') {
        match parse_assoc(declared.rhs) {
            Ok(items) => Value::Assoc(items),
            Err(cause) => return Err(Refusal::Value { name: String::from_str(declared.name), cause }),
        }
    } else if has_char(declared.attrs.as_str(), 'a') {
        match parse_indexed(declared.rhs) {
            Ok(items) => Value::Indexed(items),
            Err(cause) => return Err(Refusal::Value { name: String::from_str(declared.name), cause }),
        }
    } else {
        match parse_scalar(declared.rhs) {
            Ok(word) => Value::Scalar(word),
            Err(cause) => return Err(Refusal::Value { name: String::from_str(declared.name), cause }),
        }
    };
    Ok((String::from_str(declared.name), Variable { attrs: declared.attrs, value }))
}

/// Once the declarations up to some point have failed to read, none after
/// it changes the answer.
proof fn lemma_vars_read_stops(texts: Seq<Seq<char>>, n: int)
    requires
        0 <= n <= texts.len(),
        vars_read(texts.take(n)) is Err,
    ensures
        vars_read(texts) == vars_read(texts.take(n)),
    decreases texts.len() - n,
{
    if n < texts.len() {
        let longer = texts.take(n + 1);
        assert(longer.drop_last() =~= texts.take(n));
        lemma_vars_read_stops(texts, n + 1);
    } else {
        assert(texts.take(n) =~= texts);
    }
}

/// The `vars` section's declarations, each read into a variable under its
/// name.
fn read_vars(declared: &Vec<String>) -> (res: Result<IndexMap<String, Variable>, Refusal>)
    ensures
        match vars_read(declared.deep_view()) {
            Ok(vars) => res matches Ok(m) && var_entries(m) == vars,
            Err(fault) => res matches Err(r) && r.fault() == fault,
        },
{
    let ghost texts = declared.deep_view();
    let mut vars = var_map_new();
    let mut i: usize = 0;
    assert(texts.take(0) =~= Seq::<Seq<char>>::empty());
    while i < declared.len()
        invariant
            texts == declared.deep_view(),
            i <= declared.len(),
            vars_read(texts.take(i as int)) == Ok::<_, Fault>(var_entries(vars)),
        decreases declared.len() - i,
    {
        let ghost prefix = texts.take(i as int);
        assert(texts.take(i + 1).drop_last() =~= prefix);
        assert(texts.take(i + 1).last() == declared@[i as int]@);
        match variable(declared[i].as_str()) {
            Ok((name, var)) => {
                var_map_insert(&mut vars, name, var);
            },
            Err(refusal) => {
                proof {
                    lemma_vars_read_stops(texts, i + 1);
                }
                return Err(refusal);
            },
        }
        i = i + 1;
    }
    assert(texts.take(i as int) =~= texts);
    Ok(vars)
}

/// The `state` section's words, taken two at a time as `key value`.
fn read_state(words: &Vec<String>) -> (state: IndexMap<String, String>)
    ensures
        text_entries(state) == inserted_all(pairs_of(words.deep_view())),
{
    let ghost pairs = pairs_of(words.deep_view());
    let mut state = text_map_new();
    let mut i: usize = 0;
    assert(pairs.take(0) =~= Seq::<(Seq<char>, Seq<char>)>::empty());
    while i < words.len() / 2
        invariant
            pairs == pairs_of(words.deep_view()),
            i <= words.len() / 2,
            text_entries(state) == inserted_all(pairs.take(i as int)),
        decreases words.len() / 2 - i,
    {
        assert(pairs.take(i + 1).drop_last() =~= pairs.take(i as int));
        assert(pairs.take(i + 1).last() == (words@[2 * i as int]@, words@[2 * i + 1]@));
        let key = words[2 * i].clone();
        let value = words[2 * i + 1].clone();
        text_map_insert(&mut state, key, value);
        i = i + 1;
    }
    assert(pairs.take(i as int) =~= pairs);
    state
}

impl Snapshot {
    /// Everything but the walk, read off the sections, with the walk that
    /// was read off them already.
    pub fn assemble(sections: &[String], stack: Stack) -> (res: Result<Snapshot, Refusal>)
        ensures
            match snapshot_read(sections.deep_view(), stack_lines(stack)) {
                Ok(view) => res matches Ok(s) && s@ == view && s.stack == stack,
                Err(fault) => res matches Err(r) && r.fault() == fault,
            },
    {
        let state = match flat(sections, "state") {
            Ok(words) => read_state(&words),
            Err(refusal) => return Err(refusal),
        };
        let vars = match flat(sections, "vars") {
            Ok(declared) => match read_vars(&declared) {
                Ok(vars) => vars,
                Err(refusal) => return Err(refusal),
            },
            Err(refusal) => return Err(refusal),
        };
        let rematch = match flat(sections, "rematch") {
            Ok(words) => words,
            Err(refusal) => return Err(refusal),
        };
        let notes = match flat(sections, "notes") {
            Ok(words) => words,
            Err(refusal) => return Err(refusal),
        };
        Ok(Snapshot { stack, state, rematch, vars, notes })
    }

    /// The walk, read against the shell it was taken in, then the rest.
    pub fn decode(sections: &[String], shell: &Shell) -> (res: Result<Snapshot, Refusal>)
        ensures
            match decoded(sections.deep_view(), *shell) {
                Ok(view) => res matches Ok(s) && s@ == view,
                Err(fault) => res matches Err(r) && r.fault() == fault,
            },
    {
        let columns = match columns_of(sections) {
            Ok(columns) => columns,
            Err(walk) => return Err(Refusal::Walk(walk)),
        };
        let stack = match frames(&columns, shell) {
            Ok(stack) => stack,
            Err(walk) => return Err(Refusal::Walk(walk)),
        };
        Self::assemble(sections, stack)
    }
}

/// A snapshot message's payload decoded against the shell that sent it: the
/// frame walk first — its sections, then the frames read against the
/// shell's `$0` and how it was started — then the sections.
pub open spec fn decoded(words: Seq<Seq<char>>, shell: Shell) -> Result<SnapshotView, Fault> {
    match columns_read(words) {
        Err(why) => Err(Fault::Walk(why)),
        Ok(columns) => match walked(columns, shell.bash.zero@, from_a_file(shell.bash.invocation)) {
            Err(why) => Err(Fault::Walk(why)),
            Ok(frames) => snapshot_read(words, frames),
        },
    }
}

/// Whether a message's words are a snapshot's: they begin with the tag.
pub open spec fn tagged(words: Seq<Seq<char>>) -> bool {
    words.len() > 0 && words[0] == TAG@
}

impl Capture {
    /// `None` for a message that is not one of ours; `Some(Err)` for one that
    /// is and will not decode. Several tools may share the wire, and only the
    /// second of those is anyone's failure.
    pub fn of(message: &Message, shell: &Arc<Shell>) -> (res: Option<Result<Capture, Failure>>)
        ensures
            res is None <==> !tagged(message.words.deep_view()),
            tagged(message.words.deep_view()) ==> match decoded(
                message.words.deep_view().skip(1),
                **shell,
            ) {
                Ok(view) => res matches Some(Ok(c)) && {
                    &&& c.snapshot@ == view
                    &&& c.shell == *shell
                    &&& c.stamp == message.stamp
                },
                Err(fault) => res matches Some(Err(f)) && failure_text(f) == fault_text(fault),
            },
    {
        let sections = match behind(message, TAG) {
            Some(sections) => sections,
            None => return None,
        };
        match Snapshot::decode(sections, shell) {
            Ok(snapshot) => Some(Ok(Capture { shell: share(shell), stamp: message.stamp, snapshot })),
            Err(refusal) => Some(Err(refusal.failure())),
        }
    }
}

} // verus!
