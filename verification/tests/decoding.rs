//! What decodes without a shell: declarations, sections, whole snapshot
//! messages, and the rendering of what they decode to.

use std::sync::Arc;

use bash_interop::rig::{Message, Micros, Stamp, Verb};
use bash_interop::scratch::accounts;
use bash_interop::shell::Shell;
use indexmap::IndexMap;

use bashcap::declaration::Declaration;
use bashcap::snapshot::{flat, has_char, reading, variable, Refusal, TAG};
use bashcap::text::{chars_of, is_whitespace};
use bashcap::show::shown;
use bashcap::{Capture, Value, Variable};

fn words(items: &[&str]) -> Vec<String> {
    items.iter().map(|item| item.to_string()).collect()
}

fn message(payload: &[&str]) -> Message {
    Message {
        verb: Verb::Say,
        stamp: Stamp { sent_at: Micros(1), heard_at: Micros(2) },
        words: words(payload),
    }
}

fn shell() -> Arc<Shell> {
    accounts::shell(0, 4242, "main.bash", "hB")
}

/// A snapshot message as the effect writes one: the walk's sections, then
/// bashcap's own.
fn snapshot_words(state: &str, vars: &str) -> Vec<&'static str> {
    let state: &'static str = Box::leak(state.to_string().into_boxed_str());
    let vars: &'static str = Box::leak(vars.to_string().into_boxed_str());
    vec![
        TAG,
        "skip", "3",
        "pwd", "/work",
        "funcs", "('__bc_stack' '__bc_capture' 'BASHCAP' 'f' 'main')",
        "sources", "('/i/stack.bash' '/i/effect.bash' '/i/words.bash' 'main.bash' 'main.bash')",
        "lines", "('33' '10' '7' '8' '0')",
        "argc", "('2' '1' '0' '1' '0')",
        "argv", "('3' '__bc_walk' '3' 'arg')",
        "state", state,
        "rematch", "()",
        "vars", vars,
        "notes", "('deep')",
    ]
}

const VARS: &str = r#"('greeting='\''hello world'\''' 'declare -a items=([0]="alpha" [1]="beta gamma")')"#;

#[test]
fn declarations_decode_with_their_attributes() {
    let cases = [
        ("s='hi there'", "s", "", Value::Scalar("hi there".into())),
        (
            r#"declare -a a=([0]="x" [1]="y z")"#,
            "a",
            "a",
            Value::Indexed(IndexMap::from([(0, "x".into()), (1, "y z".into())])),
        ),
        (
            r#"declare -A m=([k]="v" [k2]="v 2" )"#,
            "m",
            "A",
            Value::Assoc(IndexMap::from([("k".into(), "v".into()), ("k2".into(), "v 2".into())])),
        ),
        ("declare -i n='7'", "n", "i", Value::Scalar("7".into())),
    ];
    for (text, name, attrs, value) in cases {
        let (got_name, got) = variable(text).unwrap();
        assert_eq!(got_name, name);
        assert_eq!(got.attrs, attrs, "{text}");
        assert_eq!(got.value, value, "{text}");
    }
}

#[test]
fn a_declaration_splits_into_name_letters_and_value() {
    let read = Declaration::read("declare -aX items=([0]='a')").unwrap();
    assert_eq!((read.name, read.attrs.as_str(), read.rhs), ("items", "aX", "([0]='a')"));

    let bare = Declaration::read("s='hi there'").unwrap();
    assert_eq!((bare.name, bare.attrs.as_str(), bare.rhs), ("s", "", "'hi there'"));

    // Letters from every option word, whitespace between them skipped.
    let many = Declaration::read("declare -a  -r \tv=1").unwrap();
    assert_eq!((many.name, many.attrs.as_str(), many.rhs), ("v", "ar", "1"));

    // The value is everything after the first `=`.
    let split = Declaration::read("x=a=b").unwrap();
    assert_eq!((split.name, split.rhs), ("x", "a=b"));

    // No `=`: the rest, trimmed, is the name and the value is empty.
    let named = Declaration::read("declare -i  lonely  ").unwrap();
    assert_eq!((named.name, named.attrs.as_str(), named.rhs), ("lonely", "i", ""));

    // `declare --` is an option word of one letter, the dash.
    let dashed = Declaration::read("declare -- g='x'").unwrap();
    assert_eq!((dashed.name, dashed.attrs.as_str(), dashed.rhs), ("g", "-", "'x'"));
}

#[test]
fn an_option_word_that_never_ends_is_no_declaration() {
    assert!(Declaration::read("declare -a").is_none());
    assert!(Declaration::read("-ai").is_none());
    assert!(Declaration::read("declare -a x=1 -").is_some(), "only option words at the front count");
}

#[test]
fn whitespace_is_unicode_whitespace() {
    for c in [' ', '\t', '\n', '\u{b}', '\u{c}', '\r', '\u{85}', '\u{a0}', '\u{2003}', '\u{3000}'] {
        assert!(is_whitespace(c), "{c:?}");
        assert_eq!(is_whitespace(c), c.is_whitespace());
    }
    for c in ['a', '-', '=', '\u{200b}', '\0'] {
        assert!(!is_whitespace(c), "{c:?}");
        assert_eq!(is_whitespace(c), c.is_whitespace());
    }
    assert_eq!(chars_of("añb"), vec!['a', 'ñ', 'b']);
    assert!(has_char("aAx", 'A'));
    assert!(!has_char("ax", 'A'));
}

#[test]
fn the_letters_choose_the_form_of_the_value() {
    // `A` wins over `a`, and any other letter leaves a scalar.
    let (_, both) = variable("declare -aA m=([k]='v')").unwrap();
    assert_eq!(both.value, Value::Assoc(IndexMap::from([("k".into(), "v".into())])));

    let (_, exported) = variable("declare -x e='1'").unwrap();
    assert_eq!(exported.value, Value::Scalar("1".into()));
    assert_eq!(exported.attrs, "x");
}

#[test]
fn each_way_a_variable_fails_to_read_is_its_own() {
    match variable("declare -a") {
        Err(Refusal::NotADeclaration { text }) => assert_eq!(text, "declare -a"),
        other => panic!("{other:?}"),
    }
    match variable("declare -a a='not an array'") {
        Err(Refusal::Value { name, .. }) => assert_eq!(name, "a"),
        other => panic!("{other:?}"),
    }
    match variable("s='unclosed") {
        Err(Refusal::Value { name, .. }) => assert_eq!(name, "s"),
        other => panic!("{other:?}"),
    }
    let failure = variable("declare -a").unwrap_err().failure();
    assert_eq!(failure.to_string(), r#"reading a variable: not a declaration: "declare -a""#);
}

#[test]
fn a_section_is_read_as_the_array_literal_it_is() {
    let sections = words(&["notes", "('one' 'two words')", "broken", "'no parentheses'", "odd"]);

    assert_eq!(flat(&sections, "notes").unwrap(), words(&["one", "two words"]));
    match flat(&sections, "state") {
        Err(Refusal::Missing { key }) => assert_eq!(key, "state"),
        other => panic!("{other:?}"),
    }
    match flat(&sections, "broken") {
        Err(Refusal::Unreadable { key, cause }) => {
            assert_eq!(key, "broken");
            let said = bash_strings::parse_array("'no parentheses'").unwrap_err();
            assert_eq!(cause.to_string(), said.to_string());
        },
        other => panic!("{other:?}"),
    }
    // A word left over at the end is no pair, so it names no section.
    assert!(matches!(flat(&sections, "odd"), Err(Refusal::Missing { .. })));

    assert_eq!(reading("state"), r#"reading the "state" section"#);
    let missing = flat(&sections, "state").unwrap_err().failure();
    assert_eq!(missing.to_string(), r#"reading the "state" section: it is missing"#);
    let unreadable = flat(&sections, "broken").unwrap_err().failure();
    let said = bash_strings::parse_array("'no parentheses'").unwrap_err();
    assert_eq!(unreadable.to_string(), format!(r#"reading the "broken" section: {said}"#));
    assert!(std::error::Error::source(&unreadable).is_some(), "the parser's refusal rides along");

    let value = variable("declare -i n=").unwrap_err().failure();
    assert!(value.to_string().starts_with("reading the variable n: "), "{value}");
}

#[test]
fn a_run_is_shown_numbered_and_counted_by_shell() {
    let shell = shell();
    let first = Capture::of(&message(&snapshot_words("()", "()")), &shell).unwrap().unwrap();
    let second = Capture::of(&message(&snapshot_words("()", "()")), &shell).unwrap().unwrap();
    let one = first.to_text();
    let text = shown(&vec![first, second]);
    assert_eq!(text, format!("2 snapshots from 1 shells\n\n[0] {one}\n[1] {one}\n"));
    assert_eq!(shown(&Vec::new()), "0 snapshots from 0 shells\n\n");

    let other = accounts::shell(1, 4343, "main.bash", "hB");
    let runs = vec![
        Capture::of(&message(&snapshot_words("()", "()")), &shell).unwrap().unwrap(),
        Capture::of(&message(&snapshot_words("()", "()")), &other).unwrap().unwrap(),
        Capture::of(&message(&snapshot_words("()", "()")), &shell).unwrap().unwrap(),
    ];
    assert!(shown(&runs).starts_with("3 snapshots from 2 shells\n\n[0] pid 4242 seq 0 "));
}

#[test]
fn a_message_that_is_not_ours_is_declined() {
    let shell = shell();
    assert!(Capture::of(&message(&[]), &shell).is_none());
    assert!(Capture::of(&message(&["TIMETHIS", "x"]), &shell).is_none());
    assert!(Capture::of(&message(&["__bashcap__"]), &shell).is_none());
}

#[test]
fn a_message_that_is_ours_and_broken_is_a_failure() {
    let shell = shell();
    assert!(matches!(Capture::of(&message(&[TAG]), &shell), Some(Err(_))));

    let mut no_notes = snapshot_words("()", "()");
    no_notes.truncate(no_notes.len() - 2);
    let failed = Capture::of(&message(&no_notes), &shell).unwrap().unwrap_err();
    assert_eq!(failed.to_string(), r#"reading the "notes" section: it is missing"#);
}

#[test]
fn a_whole_snapshot_decodes_and_renders() {
    let shell = shell();
    let payload = snapshot_words("('seconds' '4' 'shlvl' '2' 'subshell' '0')", VARS);
    let capture = Capture::of(&message(&payload), &shell).unwrap().unwrap();

    assert_eq!(capture.shell.pid.0, 4242);
    assert_eq!(capture.stamp, Stamp { sent_at: Micros(1), heard_at: Micros(2) });

    let snap = &capture.snapshot;
    assert_eq!(snap.stack.top().args, Some(vec!["arg".to_string()]));
    assert_eq!(snap.state["seconds"], "4");
    assert_eq!(snap.vars["greeting"], Variable { attrs: String::new(), value: Value::Scalar("hello world".into()) });
    assert_eq!(
        snap.vars["items"].value,
        Value::Indexed(IndexMap::from([(0, "alpha".into()), (1, "beta gamma".into())]))
    );
    assert_eq!(snap.notes, ["deep"]);
    assert!(snap.rematch.is_empty());

    assert_eq!(
        capture.to_text(),
        "pid 4242 seq 0 shlvl 5 subshell 0\n\
         \x20   at    f@main.bash:7 ('arg')\n\
         \x20   at    main@main.bash:8 ()\n\
         \x20   note  deep\n\
         \x20   var   greeting [--] 'hello world'\n\
         \x20   var   items [a] ([0]='alpha' [1]='beta gamma')\n"
    );
}

#[test]
fn a_later_state_pair_replaces_an_earlier_one_in_its_place() {
    let shell = shell();
    let payload = snapshot_words("('k' '1' 'j' '2' 'k' '3' 'left')", "()");
    let capture = Capture::of(&message(&payload), &shell).unwrap().unwrap();

    let state: Vec<(&str, &str)> =
        capture.snapshot.state.iter().map(|(k, v)| (k.as_str(), v.as_str())).collect();
    assert_eq!(state, [("k", "3"), ("j", "2")]);

    // The header's level and depth are the shell's own, whatever `state` holds.
    assert!(capture.to_text().starts_with("pid 4242 seq 0 shlvl 5 subshell 0\n"));
}

#[test]
fn a_later_declaration_of_a_name_replaces_the_earlier_one() {
    let shell = shell();
    let payload = snapshot_words("()", "('x=1' 'y=2' 'declare -i x=3')");
    let capture = Capture::of(&message(&payload), &shell).unwrap().unwrap();

    let names: Vec<&str> = capture.snapshot.vars.keys().map(String::as_str).collect();
    assert_eq!(names, ["x", "y"]);
    assert_eq!(capture.snapshot.vars["x"].attrs, "i");
}

#[test]
fn the_first_declaration_that_does_not_read_is_the_one_reported() {
    let shell = shell();
    let payload = snapshot_words("()", "('x=1' 'declare -a' 'declare -a a=oops')");
    let failed = Capture::of(&message(&payload), &shell).unwrap().unwrap_err();
    assert_eq!(failed.to_string(), r#"reading a variable: not a declaration: "declare -a""#);
}

#[test]
fn a_walk_that_does_not_read_is_a_failure() {
    let shell = shell();
    let mut payload = snapshot_words("()", "()");
    payload[2] = "0";
    assert!(matches!(Capture::of(&message(&payload), &shell), Some(Err(_))));
}

#[test]
fn the_walk_is_read_before_the_sections() {
    let shell = shell();

    let mut no_count = snapshot_words("()", "()");
    no_count[2] = "three";
    no_count.truncate(no_count.len() - 2);
    let failed = Capture::of(&message(&no_count), &shell).unwrap().unwrap_err();
    assert!(failed.to_string().starts_with("reading a call stack"), "{failed}");

    let mut lone_argc = snapshot_words("()", "()");
    let at = lone_argc.iter().position(|word| *word == "argv").unwrap();
    lone_argc.drain(at..at + 2);
    let failed = Capture::of(&message(&lone_argc), &shell).unwrap().unwrap_err();
    assert!(failed.to_string().starts_with("reading a call stack"), "{failed}");

    let mut signed = snapshot_words("()", "()");
    signed[2] = "+3";
    assert!(matches!(Capture::of(&message(&signed), &shell), Some(Ok(_))));
}

#[test]
fn regex_captures_render_on_one_line() {
    let shell = shell();
    let mut payload = snapshot_words("()", "()");
    let at = payload.iter().position(|word| *word == "rematch").unwrap();
    payload[at + 1] = "('build-2026' 'build' '2026')";
    let capture = Capture::of(&message(&payload), &shell).unwrap().unwrap();

    assert_eq!(capture.snapshot.rematch, ["build-2026", "build", "2026"]);
    assert!(capture.to_text().ends_with("    regex build-2026 | build | 2026\n"), "{}", capture.to_text());
}

#[test]
fn a_value_renders_as_the_bash_that_would_declare_it() {
    assert_eq!(Value::Scalar("it's".into()).to_text(), r"'it'\''s'");
    assert_eq!(Value::Scalar("a\nb".into()).to_text(), r"$'a\nb'");
    assert_eq!(Value::Scalar("a\u{1}".into()).to_text(), r"$'a\001'");
    assert_eq!(Value::Scalar(String::new()).to_text(), "''");
    assert_eq!(
        Value::Indexed(IndexMap::from([(0, "x".into()), (5, "y z".into())])).to_text(),
        "([0]='x' [5]='y z')"
    );
    assert_eq!(Value::Assoc(IndexMap::from([("k 2".into(), "v".into())])).to_text(), "(['k 2']='v')");
    assert_eq!(Value::Indexed(IndexMap::new()).to_text(), "()");

    let plain = Variable { attrs: String::new(), value: Value::Scalar("hi there".into()) };
    assert_eq!(plain.to_text(), "[--] 'hi there'");
    let counted = Variable { attrs: "i".into(), value: Value::Scalar("7".into()) };
    assert_eq!(counted.to_text(), "[i] '7'");
}
