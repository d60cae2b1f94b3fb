//! What this crate takes on trust from the crates it stands on —
//! `bash_interop` for the wire and the frame walk, `bash_strings` for bash's
//! quoted forms, `indexmap` for the ordered maps — and from `std` where vstd
//! says nothing. Each item below names the outside function it calls and says
//! what its contract claims of it.

use vstd::prelude::*;

use bash_interop::failure::Failure;
use bash_interop::rig::{Message, Micros, Pid, Stamp, Verb};
use bash_interop::shell::{Bash, Flags, Invocation, Options, Shell, Version};
use bash_interop::stack::{Args, Columns, Stack};
use bash_strings::ParseError;
use indexmap::IndexMap;
use std::path::PathBuf;
use std::sync::Arc;

use crate::entries::inserted;
use crate::snapshot::{Variable, VariableView};

verus! {

broadcast use vstd::string::group_string_axioms;

// ── the outside types ────────────────────────────────────────────────

/// `indexmap::IndexMap`: what it holds is named below, per instantiation.
#[verifier::external_type_specification]
#[verifier::external_body]
#[verifier::reject_recursive_types(K)]
#[verifier::reject_recursive_types(V)]
#[verifier::reject_recursive_types(S)]
pub struct ExIndexMap<K, V, S>(IndexMap<K, V, S>);

/// `bash_interop::failure::Failure`: what was being done and what went
/// wrong; carried, never looked into.
#[verifier::external_type_specification]
#[verifier::external_body]
pub struct ExFailure(Failure);

/// `bash_strings::ParseError`: why a quoted form did not read; carried.
#[verifier::external_type_specification]
#[verifier::external_body]
pub struct ExParseError(ParseError);

/// `bash_interop::rig::Message`: its fields are public, and read here.
#[verifier::external_type_specification]
pub struct ExMessage(Message);

/// `bash_interop::rig::Verb`.
#[verifier::external_type_specification]
pub struct ExVerb(Verb);

/// `bash_interop::rig::Stamp`: both clocks of a line.
#[verifier::external_type_specification]
pub struct ExStamp(Stamp);

/// `bash_interop::rig::Micros`.
#[verifier::external_type_specification]
pub struct ExMicros(Micros);

/// `bash_interop::rig::Pid`.
#[verifier::external_type_specification]
pub struct ExPid(Pid);

/// `bash_interop::shell::Shell`: what a shell said of itself when it joined.
#[verifier::external_type_specification]
pub struct ExShell(Shell);

/// `bash_interop::shell::Bash`.
#[verifier::external_type_specification]
pub struct ExBash(Bash);

/// `bash_interop::shell::Version`.
#[verifier::external_type_specification]
pub struct ExVersion(Version);

/// `bash_interop::shell::Invocation`.
#[verifier::external_type_specification]
pub struct ExInvocation(Invocation);

/// `bash_interop::shell::Options`.
#[verifier::external_type_specification]
pub struct ExOptions(Options);

/// `bash_interop::shell::Flags`: its one field is private; carried.
#[verifier::external_type_specification]
#[verifier::external_body]
pub struct ExFlags(Flags);

/// `std::path::PathBuf`: carried.
#[verifier::external_type_specification]
#[verifier::external_body]
pub struct ExPathBuf(PathBuf);

/// `bash_interop::stack::Stack`: a walk, innermost frame first; its fields
/// are private, so it is carried and rendered, never read here.
#[verifier::external_type_specification]
#[verifier::external_body]
pub struct ExStack(Stack);

/// `bash_interop::stack::Columns`: the frame walk's sections, borrowed; its
/// fields are public, and read here.
#[verifier::external_type_specification]
pub struct ExColumns<'a>(Columns<'a>);

/// `bash_interop::stack::Args`: the `argc` and `argv` sections.
#[verifier::external_type_specification]
pub struct ExArgs<'a>(Args<'a>);

// ── what the maps hold ───────────────────────────────────────────────

/// What an `IndexMap<String, String>` holds: its entries, in their order.
pub uninterp spec fn text_entries(m: IndexMap<String, String>) -> Seq<(Seq<char>, Seq<char>)>;

/// What an `IndexMap<usize, String>` holds: its entries, in their order.
pub uninterp spec fn index_entries(m: IndexMap<usize, String>) -> Seq<(usize, Seq<char>)>;

/// What an `IndexMap<String, Variable>` holds: its entries, in their order.
pub uninterp spec fn var_entries(m: IndexMap<String, Variable>) -> Seq<(Seq<char>, VariableView)>;

/// `IndexMap::new`: a map holding nothing.
#[verifier::external_body]
pub(crate) fn text_map_new() -> (m: IndexMap<String, String>)
    ensures
        text_entries(m) == Seq::<(Seq<char>, Seq<char>)>::empty(),
{
    IndexMap::new()
}

/// `IndexMap::insert`: a key already there keeps its place and takes the
/// new value; a new key goes last.
#[verifier::external_body]
pub(crate) fn text_map_insert(m: &mut IndexMap<String, String>, key: String, value: String)
    ensures
        text_entries(*final(m)) == inserted(text_entries(*old(m)), key@, value@),
{
    m.insert(key, value);
}

/// `IndexMap::new`: a map holding nothing.
#[verifier::external_body]
pub(crate) fn var_map_new() -> (m: IndexMap<String, Variable>)
    ensures
        var_entries(m) == Seq::<(Seq<char>, VariableView)>::empty(),
{
    IndexMap::new()
}

/// `IndexMap::insert`, as for the other maps.
#[verifier::external_body]
pub(crate) fn var_map_insert(m: &mut IndexMap<String, Variable>, key: String, value: Variable)
    ensures
        var_entries(*final(m)) == inserted(var_entries(*old(m)), key@, value@),
{
    m.insert(key, value);
}

/// `IndexMap::len`: how many entries.
#[verifier::external_body]
pub(crate) fn var_map_len(m: &IndexMap<String, Variable>) -> (n: usize)
    ensures
        n == var_entries(*m).len(),
{
    m.len()
}

/// `IndexMap::get_index`: the entry at that place.
#[verifier::external_body]
pub(crate) fn var_map_entry<'a>(m: &'a IndexMap<String, Variable>, i: usize) -> (entry: (&'a String, &'a Variable))
    requires
        i < var_entries(*m).len(),
    ensures
        (entry.0@, entry.1@) == var_entries(*m)[i as int],
{
    m.get_index(i).unwrap()
}

// ── bash's quoted forms (bash_strings) ───────────────────────────────

/// What `parse_array` makes of a text: the words of a `(…)` array literal,
/// or, where it refuses the text, what its `ParseError` says.
pub uninterp spec fn array_parsed(text: Seq<char>) -> Result<Seq<Seq<char>>, Seq<char>>;

/// What `parse_scalar` makes of a text: the one word, or what its refusal
/// says.
pub uninterp spec fn scalar_parsed(text: Seq<char>) -> Result<Seq<char>, Seq<char>>;

/// What `parse_indexed` makes of a text: the entries of `([i]=… …)`, or what
/// its refusal says.
pub uninterp spec fn indexed_parsed(text: Seq<char>) -> Result<Seq<(usize, Seq<char>)>, Seq<char>>;

/// What `parse_assoc` makes of a text: the entries of `([k]=… …)`, or what
/// its refusal says.
pub uninterp spec fn assoc_parsed(text: Seq<char>) -> Result<Seq<(Seq<char>, Seq<char>)>, Seq<char>>;

/// A character `emit_scalar` will not put between single quotes: a C0
/// control or DEL. These are the bytes it looks for, and in UTF-8 such a
/// byte is always a character of its own.
pub open spec fn is_control(c: char) -> bool {
    (c as u32) < 0x20 || c == '\u{7f}'
}

/// The inside of a single-quoted word: each `'` closed, escaped and
/// reopened as `'\''`, every other character as it is.
pub open spec fn single_quoted_body(text: Seq<char>) -> Seq<char>
    decreases text.len(),
{
    if text.len() == 0 {
        Seq::empty()
    } else {
        single_quoted_body(text.drop_last()) + if text.last() == '\'' {
            seq!['\'', '\\', '\'', '\'']
        } else {
            seq![text.last()]
        }
    }
}

/// One character inside `$'…'`: the quote and the backslash escaped, the
/// controls bash has a letter for by that letter, any other control as a
/// backslash and three octal digits, the rest as it is.
pub open spec fn ansi_c_char(c: char) -> Seq<char> {
    if c == '\'' {
        seq!['\\', '\'']
    } else if c == '\\' {
        seq!['\\', '\\']
    } else if c == '\n' {
        seq!['\\', 'n']
    } else if c == '\r' {
        seq!['\\', 'r']
    } else if c == '\t' {
        seq!['\\', 't']
    } else if c == '\u{7}' {
        seq!['\\', 'a']
    } else if c == '\u{8}' {
        seq!['\\', 'b']
    } else if c == '\u{1b}' {
        seq!['\\', 'E']
    } else if c == '\u{c}' {
        seq!['\\', 'f']
    } else if c == '\u{b}' {
        seq!['\\', 'v']
    } else if is_control(c) {
        let n = c as u32 as nat;
        seq!['\\', digit(n / 64), digit((n / 8) % 8), digit(n % 8)]
    } else {
        seq![c]
    }
}

/// The inside of a `$'…'` word, character by character.
pub open spec fn ansi_c_body(text: Seq<char>) -> Seq<char>
    decreases text.len(),
{
    if text.len() == 0 {
        Seq::empty()
    } else {
        ansi_c_body(text.drop_last()) + ansi_c_char(text.last())
    }
}

/// What `emit_scalar` writes for a text: `''` for none; the `$'…'` form
/// where the text holds a control character; else the single-quoted word.
#[verifier::opaque]
pub open spec fn scalar_emitted(text: Seq<char>) -> Seq<char> {
    if text.len() == 0 {
        seq!['\'', '\'']
    } else if exists|i: int| 0 <= i < text.len() && is_control(#[trigger] text[i]) {
        seq!['$', '\''] + ansi_c_body(text) + seq!['\'']
    } else {
        seq!['\''] + single_quoted_body(text) + seq!['\'']
    }
}

/// `bash_strings::parse_array`: the named result, the refusal saying what
/// the name says.
#[verifier::external_body]
pub(crate) fn parse_array(text: &str) -> (res: Result<Vec<String>, ParseError>)
    ensures
        match array_parsed(text@) {
            Ok(words) => res matches Ok(v) && v.deep_view() == words,
            Err(why) => res matches Err(e) && parse_error_text(e) == why,
        },
{
    bash_strings::parse_array(text)
}

/// `bash_strings::parse_scalar`, as `parse_array`.
#[verifier::external_body]
pub(crate) fn parse_scalar(text: &str) -> (res: Result<String, ParseError>)
    ensures
        match scalar_parsed(text@) {
            Ok(word) => res matches Ok(v) && v@ == word,
            Err(why) => res matches Err(e) && parse_error_text(e) == why,
        },
{
    bash_strings::parse_scalar(text)
}

/// `bash_strings::parse_indexed`, as `parse_array`.
#[verifier::external_body]
pub(crate) fn parse_indexed(text: &str) -> (res: Result<IndexMap<usize, String>, ParseError>)
    ensures
        match indexed_parsed(text@) {
            Ok(entries) => res matches Ok(m) && index_entries(m) == entries,
            Err(why) => res matches Err(e) && parse_error_text(e) == why,
        },
{
    bash_strings::parse_indexed(text)
}

/// `bash_strings::parse_assoc`, as `parse_array`.
#[verifier::external_body]
pub(crate) fn parse_assoc(text: &str) -> (res: Result<IndexMap<String, String>, ParseError>)
    ensures
        match assoc_parsed(text@) {
            Ok(entries) => res matches Ok(m) && text_entries(m) == entries,
            Err(why) => res matches Err(e) && parse_error_text(e) == why,
        },
{
    bash_strings::parse_assoc(text)
}

/// `bash_strings::emit_scalar`: the word `scalar_emitted` says.
#[verifier::external_body]
pub(crate) fn emit_scalar(text: &str) -> (out: String)
    ensures
        out@ == scalar_emitted(text@),
{
    bash_strings::emit_scalar(text)
}

/// A number's decimal digits, as `{}` writes a `usize`.
pub open spec fn decimal(n: nat) -> Seq<char>
    decreases n,
{
    if n < 10 {
        seq![digit(n)]
    } else {
        decimal(n / 10) + seq![digit(n % 10)]
    }
}

pub open spec fn digit(d: nat) -> char {
    if d == 0 { '0' } else if d == 1 { '1' } else if d == 2 { '2' } else if d == 3 { '3' }
    else if d == 4 { '4' } else if d == 5 { '5' } else if d == 6 { '6' } else if d == 7 { '7' }
    else if d == 8 { '8' } else { '9' }
}

/// The items with `sep` between each two.
pub open spec fn joined(items: Seq<Seq<char>>, sep: Seq<char>) -> Seq<char>
    decreases items.len(),
{
    if items.len() == 0 {
        Seq::empty()
    } else if items.len() == 1 {
        items[0]
    } else {
        joined(items.drop_last(), sep) + sep + items.last()
    }
}

/// `([0]='a' [5]='b c')`: each entry as `[index]=value`, the value as
/// `emit_scalar` writes it, one space between, in parentheses.
pub open spec fn indexed_emitted(e: Seq<(usize, Seq<char>)>) -> Seq<char> {
    seq!['('] + joined(
        Seq::new(
            e.len(),
            |i: int| seq!['['] + decimal(e[i].0 as nat) + seq![']', '='] + scalar_emitted(e[i].1),
        ),
        seq![' '],
    ) + seq![')']
}

/// `(['k']='v')`: as `indexed_emitted`, the key written as a word too.
pub open spec fn assoc_emitted(e: Seq<(Seq<char>, Seq<char>)>) -> Seq<char> {
    seq!['('] + joined(
        Seq::new(
            e.len(),
            |i: int| seq!['['] + scalar_emitted(e[i].0) + seq![']', '='] + scalar_emitted(e[i].1),
        ),
        seq![' '],
    ) + seq![')']
}

/// `bash_strings::emit_indexed`: every entry in order, as the source writes
/// them.
#[verifier::external_body]
pub(crate) fn emit_indexed(m: &IndexMap<usize, String>) -> (out: String)
    ensures
        out@ == indexed_emitted(index_entries(*m)),
{
    bash_strings::emit_indexed(m)
}

/// `bash_strings::emit_assoc`: every entry in order, as the source writes
/// them.
#[verifier::external_body]
pub(crate) fn emit_assoc(m: &IndexMap<String, String>) -> (out: String)
    ensures
        out@ == assoc_emitted(text_entries(*m)),
{
    bash_strings::emit_assoc(m)
}

// ── the wire and the walk (bash_interop) ─────────────────────────────

/// The value of the first `key value` pair with this key, pairs counted
/// from the front; a word left over at the end is no pair.
pub open spec fn field_of(words: Seq<Seq<char>>, key: Seq<char>) -> Option<Seq<char>>
    decreases words.len(),
{
    if words.len() < 2 {
        None
    } else if words[0] == key {
        Some(words[1])
    } else {
        field_of(words.skip(2), key)
    }
}

/// `bash_interop::rig::field`: `field_of`, which is the whole of it.
#[verifier::external_body]
pub(crate) fn field<'a>(words: &'a [String], key: &str) -> (found: Option<&'a str>)
    ensures
        match field_of(words.deep_view(), key@) {
            Some(v) => found matches Some(s) && s@ == v,
            None => found is None,
        },
{
    bash_interop::rig::field(words, key)
}

/// `Message::behind`: the words after the first, where the first is `lead`.
#[verifier::external_body]
pub(crate) fn behind<'a>(message: &'a Message, lead: &str) -> (after: Option<&'a [String]>)
    ensures
        after.is_some() == (message.words.len() > 0 && message.words@[0]@ == lead@),
        after matches Some(r) ==> r.deep_view() == message.words.deep_view().skip(1),
{
    message.behind(lead)
}

/// Whether a character is an ASCII digit.
pub open spec fn is_digit(c: char) -> bool {
    '0' <= c && c <= '9'
}

/// The number that ASCII digits write, most significant first.
pub open spec fn digits_value(digits: Seq<char>) -> nat
    decreases digits.len(),
{
    if digits.len() == 0 {
        0
    } else {
        digits_value(digits.drop_last()) * 10 + (digits.last() as int - '0' as int) as nat
    }
}

/// What `str::parse::<usize>` makes of a text, as its documentation says: an
/// optional `+`, then one or more ASCII digits whose value fits; anything
/// else is refused.
pub open spec fn count_read(text: Seq<char>) -> Option<usize> {
    let digits = if text.len() > 0 && text[0] == '+' { text.skip(1) } else { text };
    if digits.len() > 0 && (forall|i: int| 0 <= i < digits.len() ==> is_digit(#[trigger] digits[i]))
        && digits_value(digits) <= usize::MAX {
        Some(digits_value(digits) as usize)
    } else {
        None
    }
}

/// A frame walk's sections: how many leading frames are the instrument's,
/// the sending shell's `$PWD`, the three aligned columns, and the argument
/// columns where they were sent.
pub struct ColumnsView {
    pub skip: usize,
    pub pwd: Seq<char>,
    pub funcs: Seq<char>,
    pub sources: Seq<char>,
    pub lines: Seq<char>,
    pub args: Option<(Seq<char>, Seq<char>)>,
}

/// What a `Columns` holds.
pub open spec fn columns_view(columns: Columns) -> ColumnsView {
    ColumnsView {
        skip: columns.skip,
        pwd: columns.pwd@,
        funcs: columns.funcs@,
        sources: columns.sources@,
        lines: columns.lines@,
        args: match columns.args {
            Some(args) => Some((args.argc@, args.argv@)),
            None => None,
        },
    }
}

/// What `Columns::of` says where a payload holds no frame walk: what was
/// being done, then why.
pub open spec fn walk_broken(why: Seq<char>) -> Seq<char> {
    "reading a call stack: "@ + why
}

/// A section of the walk by its key, or what `Columns::of` says of its
/// absence.
pub open spec fn walk_section(words: Seq<Seq<char>>, key: Seq<char>) -> Result<Seq<char>, Seq<char>> {
    match field_of(words, key) {
        Some(text) => Ok(text),
        None => Err(walk_broken("no "@ + debug_quoted(key) + " section"@)),
    }
}

/// The walk's sections as `Columns::of` picks them out of a `key value`
/// payload, in its order: `skip`, read as a count, then `pwd`, `funcs`,
/// `sources`, `lines`, and last `argc` with `argv` or neither. The first that
/// is missing or wrong is the refusal, and this is what it says.
pub open spec fn columns_read(words: Seq<Seq<char>>) -> Result<ColumnsView, Seq<char>> {
    match walk_section(words, "skip"@) {
        Err(why) => Err(why),
        Ok(skip_text) => match count_read(skip_text) {
            None => Err(walk_broken("skip "@ + debug_quoted(skip_text) + " is not a count"@)),
            Some(skip) => match walk_section(words, "pwd"@) {
                Err(why) => Err(why),
                Ok(pwd) => match walk_section(words, "funcs"@) {
                    Err(why) => Err(why),
                    Ok(funcs) => match walk_section(words, "sources"@) {
                        Err(why) => Err(why),
                        Ok(sources) => match walk_section(words, "lines"@) {
                            Err(why) => Err(why),
                            Ok(lines) => match (field_of(words, "argc"@), field_of(words, "argv"@)) {
                                (Some(argc), Some(argv)) => Ok(
                                    ColumnsView { skip, pwd, funcs, sources, lines, args: Some((argc, argv)) },
                                ),
                                (None, None) => Ok(ColumnsView { skip, pwd, funcs, sources, lines, args: None }),
                                _ => Err(walk_broken("one of \"argc\"/\"argv\" without the other"@)),
                            },
                        },
                    },
                },
            },
        },
    }
}

/// `Columns::of`: the sections `columns_read` says, borrowed from the
/// payload, or the refusal it says.
#[verifier::external_body]
pub(crate) fn columns_of<'a>(words: &'a [String]) -> (res: Result<Columns<'a>, Failure>)
    ensures
        match columns_read(words.deep_view()) {
            Ok(view) => res matches Ok(columns) && columns_view(columns) == view,
            Err(why) => res matches Err(f) && failure_text(f) == why,
        },
{
    Columns::of(words)
}

/// `Invocation::from_a_file`: bash was handed a file to read — no `-c`
/// command line, and not standard input.
pub open spec fn from_a_file(invocation: Invocation) -> bool {
    invocation.command is None && !invocation.standard_input
}

/// What `Columns::frames` makes of a walk's sections, read against a shell
/// whose `$0` is `zero` and which was or was not handed a file: the frames,
/// innermost first, each as its `Display` writes it — or, where it refuses
/// the walk, what its `Failure` says. Only a frame's source reads `pwd` and
/// the shell.
pub uninterp spec fn walked(columns: ColumnsView, zero: Seq<char>, from_a_file: bool) -> Result<Seq<Seq<char>>, Seq<char>>;

/// `Columns::frames`: the walk read against the shell it was taken in, as
/// `walked` names it, the frames tied to the stack through `stack_lines`.
#[verifier::external_body]
pub(crate) fn frames(columns: &Columns, shell: &Shell) -> (res: Result<Stack, Failure>)
    ensures
        match walked(columns_view(*columns), shell.bash.zero@, from_a_file(shell.bash.invocation)) {
            Ok(lines) => res matches Ok(stack) && stack_lines(stack) == lines,
            Err(why) => res matches Err(f) && failure_text(f) == why,
        },
{
    columns.frames(shell)
}

/// What a `Stack` holds, as it is shown: its frames, innermost first, each
/// as its `Display` writes it.
pub uninterp spec fn stack_lines(stack: Stack) -> Seq<Seq<char>>;

/// `Stack::frames`, each as its `Display` writes it: the named lines, and
/// never none — a `Stack` always holds the frame it was taken in.
#[verifier::external_body]
pub(crate) fn frame_lines(stack: &Stack) -> (lines: Vec<String>)
    ensures
        lines.deep_view() == stack_lines(*stack),
        lines@.len() >= 1,
{
    stack.frames().map(|frame| frame.to_string()).collect()
}

/// What `stack::with_walk` makes of a tool's own bash: the frame walk's
/// definitions, then each part, a newline between each two.
pub uninterp spec fn walk_bash(parts: Seq<Seq<char>>) -> Seq<char>;

/// `bash_interop::stack::with_walk`: the named result.
#[verifier::external_body]
pub(crate) fn with_walk(parts: &[&str]) -> (all: String)
    ensures
        all@ == walk_bash(parts@.map_values(|p: &str| p@)),
{
    bash_interop::stack::with_walk(parts)
}

/// What a `Failure` says: the text its `Display` writes.
pub uninterp spec fn failure_text(failure: Failure) -> Seq<char>;

/// What a `ParseError` says: the text its `Display` writes — the byte it
/// stopped at, why, and the text around it.
pub uninterp spec fn parse_error_text(error: ParseError) -> Seq<char>;

/// `Failure::new`, with a sentence for its cause. A failure's `Display`
/// writes what was being done, `": "`, then its cause, and a `String` cause
/// writes itself.
#[verifier::external_body]
pub(crate) fn failure_saying(doing: String, cause: String) -> (failure: Failure)
    ensures
        failure_text(failure) == doing@ + ": "@ + cause@,
{
    Failure::new(doing, cause)
}

/// `Failure::new`, with a refused quoted form for its cause: what was being
/// done, `": "`, then what the `ParseError` says.
#[verifier::external_body]
pub(crate) fn failure_parsing(doing: String, cause: ParseError) -> (failure: Failure)
    ensures
        failure_text(failure) == doing@ + ": "@ + parse_error_text(cause),
{
    Failure::new(doing, cause)
}

/// `Arc::clone`: another handle on the same shell.
#[verifier::external_body]
pub(crate) fn share(shell: &Arc<Shell>) -> (other: Arc<Shell>)
    ensures
        other == *shell,
{
    Arc::clone(shell)
}

/// `{}` of a `usize`: its decimal digits.
#[verifier::external_body]
pub(crate) fn decimal_text(n: usize) -> (text: String)
    ensures
        text@ == decimal(n as nat),
{
    n.to_string()
}

/// How `{:?}` writes a `str`: in double quotes, escaped.
pub uninterp spec fn debug_quoted(text: Seq<char>) -> Seq<char>;

/// `format!("{:?}")` of a `str`: the named result.
#[verifier::external_body]
pub(crate) fn quoted(text: &str) -> (out: String)
    ensures
        out@ == debug_quoted(text@),
{
    format!("{text:?}")
}

} // verus!
