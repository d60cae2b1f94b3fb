//! bashcap against a real shell, which is the only way to see what the
//! instrument harvests from one.

use std::sync::Arc;

use bash_interop::rig::{Answer, Driving, Failure, Layout, Message, Provision, Reacting, Rig, Shell};
use bash_interop::scratch::{bash, Scripts};
use bash_interop::stack;

use bashcap::instrument::{EFFECT, POLYFILL, TRACE, WORDS};
use bashcap::{instrument, joining, Capture, Tracing, Value};

/// Every script these tests build starts here.
const ENTRY: &str = "main.bash";

/// bashcap's bash, decoded but not written, so assertions read typed
/// captures rather than JSON. Every snapshot must decode.
struct Decoding;

struct Decoded {
    shell: Arc<Shell>,
    seen: Vec<Capture>,
}

impl Rig for Decoding {
    type Reaction = Decoded;

    fn bash(&self, _at: &Layout) -> String {
        instrument(Tracing::Off)
    }

    async fn joined(&self, _at: &Layout, shell: Arc<Shell>) -> Result<Decoded, Failure> {
        Ok(Decoded { shell, seen: Vec::new() })
    }
}

impl Reacting for Decoded {
    type Kept = Vec<Capture>;

    async fn hear(&mut self, said: Message) -> Result<(), Failure> {
        let Some(capture) = Capture::of(&said, &self.shell) else {
            return Ok(());
        };
        self.seen.push(capture?);
        Ok(())
    }

    async fn answer(&mut self, asked: Message) -> Result<Answer, Failure> {
        self.hear(asked).await?;
        Ok(Answer::unknown())
    }

    async fn finish(self) -> Result<Vec<Capture>, Failure> {
        Ok(self.seen)
    }
}

impl Driving for Decoding {}

/// Every snapshot a script produced, shell by shell in the order they
/// joined, the script under the strict options a shipped one has.
fn capture(body: &str) -> Vec<Capture> {
    let scripts = Scripts::of(&[(ENTRY, &format!("set -euo pipefail\n{body}"))]);
    let runtime = tokio::runtime::Builder::new_current_thread().enable_all().build().unwrap();
    let ran = runtime
        .block_on(Decoding.run(&bash(scripts.at(ENTRY)), |at| {
            Ok(vec![at.bash_env(Provision::Joining(&joining(at.text())))?])
        }))
        .unwrap()
        .whole()
        .unwrap();

    ran.shells.into_iter().flat_map(|at| at.kept).collect()
}

/// What only exists once a tool has been sourced: the protocol's words and
/// state, the frame walk, and bashcap's own effect and join.
const INJECTED_NAMES: [&str; 16] = [
    "BC_JOIN", "BC_SAY", "BC_ASK", "BC_THROW", "BC_BAIL", "BC_WRITE", "BC_REACH", "__BC__",
    "__bc_say", "__bc_ask", "__bc_stack", "__bc_account", "__bc_announce", "__bc_attach",
    "__bc_capture", "BASHCAP_INIT",
];

/// The words are one text, shipped both ways, so a client's copy cannot
/// drift from the injected one. What makes that possible is that they name
/// nothing that only exists once the tool has been sourced.
#[test]
fn the_words_name_nothing_a_client_would_not_have() {
    for line in WORDS.lines().filter(|line| !line.trim_start().starts_with('#')) {
        for name in INJECTED_NAMES {
            assert!(!line.contains(name), "{name} in a file a client vendors: {line}");
        }
    }
}

#[test]
fn vendoring_no_shipped_bash_exports_a_name() {
    let walk = stack::with_walk(&[]);
    let shipped =
        [("stack.bash", walk.as_str()), ("bashcap.bash", WORDS), ("effect.bash", EFFECT),
         ("trace.bash", TRACE)];

    for (whose, bash) in shipped {
        for line in bash.lines().filter(|line| !line.trim_start().starts_with('#')) {
            assert!(!line.contains("export "), "{whose}: {line}");
        }
    }
}

#[test]
fn tests_no_shipped_bash_exports_a_name() {
    let shipped = [("bashcap.bash", WORDS), ("trace.bash", TRACE), ("polyfill.bash", POLYFILL)];

    for (whose, bash) in shipped {
        for line in bash.lines().filter(|line| !line.trim_start().starts_with('#')) {
            assert!(!line.contains("export "), "{whose}: {line}");
        }
    }
}

#[test]
fn shipped_no_shipped_bash_exports_a_name() {
    let walk = stack::with_walk(&[]);
    let shipped =
        [("stack.bash", walk.as_str()), ("bashcap.bash", WORDS), ("effect.bash", EFFECT),
         ("trace.bash", TRACE)];

    for (whose, bash) in shipped {
        for line in bash.lines().filter(|line| !line.trim_start().starts_with('#')) {
            assert!(!line.contains("export "), "{whose}: {line}");
        }
    }
}

#[test]
fn the_trace_rides_only_when_asked_for() {
    let plain = instrument(Tracing::Off);
    let traced = instrument(Tracing::Calls);

    assert_eq!(plain, stack::with_walk(&[WORDS, EFFECT]));
    assert_eq!(traced, stack::with_walk(&[WORDS, EFFECT, TRACE]));
    assert!(plain.contains("__bc_stack()") && plain.contains("BASHCAP()"));
    assert!(!plain.contains("__bc_trace_arm") && traced.contains("trap __bc_trace_arm DEBUG"));

    assert_eq!(joining("/tmp/it's here"), "BASHCAP_INIT '/tmp/it'\\''s here'\n");
}

#[test]
fn snapshot_a_snapshot_carries_the_whole_shell_state() {
    let snaps = capture(
        r#"
        declare -- greeting="hello world"
        declare -a items=(alpha "beta gamma")
        declare -A conf=([host]=localhost)
        declare -i tries=3
        BASHCAP__CTX__phase="setup"

        [[ "build-2026" =~ ^([a-z]+)-([0-9]+)$ ]]

        outer() { inner; }
        inner() {
            BASHCAP -BCV:greeting -BCV:items -BCV:conf -BCV:tries -BCV:absent -BCS:"deep"
        }
        outer

        step() { echo "ran $*"; }
        WITH_BASHCAP -BCV:greeting -BCS:"before step" step one
        "#,
    );

    assert_eq!(snaps.len(), 2);

    let deep = &snaps[0].snapshot;
    let names: Vec<String> = deep.stack.frames().map(|frame| frame.site.to_string()).collect();
    assert_eq!(names, ["inner", "outer", "main"]);
    assert_eq!(deep.stack.top().source.to_string(), "main.bash", "the file, absolute underneath");
    assert!(deep.stack.top().lineno > 0);

    assert_eq!(deep.vars["greeting"].value, Value::Scalar("hello world".into()));
    assert_eq!(deep.vars["items"].attrs, "a");
    assert_eq!(
        deep.vars["items"].value,
        Value::Indexed([(0, "alpha".to_string()), (1, "beta gamma".to_string())].into())
    );
    assert_eq!(deep.vars["conf"].attrs, "A");
    assert_eq!(deep.vars["tries"].attrs, "i", "attributes survive, unlike a hand-rolled capture");
    assert!(!deep.vars.contains_key("absent"), "a missing variable is skipped");
    assert_eq!(deep.vars["BASHCAP__CTX__phase"].value, Value::Scalar("setup".into()));

    assert_eq!(deep.rematch, ["build-2026", "build", "2026"]);
    assert_eq!(deep.notes, ["deep"]);

    assert!(deep.state.contains_key("seconds"));
    assert!(snaps[0].shell.shlvl > 0);
    assert!(snaps[0].shell.bash.version.at_least(5, 0, 0), "$EPOCHREALTIME is bash 5");
    assert!(snaps[0].shell.bash.invocation.from_a_file(), "a script bash was handed to read");
    assert!(!snaps[0].shell.bash.invocation.interactive);

    let wrapped = &snaps[1].snapshot;
    assert_eq!(wrapped.stack.top().site.to_string(), "WITH_BASHCAP");
    assert_eq!(wrapped.notes, ["before step"]);
}

#[test]
fn tests_a_snapshot_carries_the_whole_shell_state() {
    let snaps = capture(
        r#"
        declare -- greeting="hello world"
        declare -a items=(alpha "beta gamma")
        declare -A conf=([host]=localhost)
        declare -i tries=3
        BASHCAP__CTX__phase="setup"

        [[ "build-2026" =~ ^([a-z]+)-([0-9]+)$ ]]

        outer() { inner; }
        inner() {
            BASHCAP -BCV:greeting -BCV:items -BCV:conf -BCV:tries -BCV:absent -BCS:"deep"
        }
        outer

        step() { echo "ran $*"; }
        WITH_BASHCAP -BCV:greeting -BCS:"before step" step one
        "#,
    );

    assert_eq!(snaps.len(), 2);

    let deep = &snaps[0].snapshot;
    let names: Vec<String> = deep.stack.frames().map(|frame| frame.site.to_string()).collect();
    assert_eq!(names, ["inner", "outer", "main"]);
    assert!(deep.stack.top().source.to_string().ends_with("main.bash"));
    assert!(deep.stack.top().lineno > 0);

    assert_eq!(deep.vars["greeting"].value, Value::Scalar("hello world".into()));
    assert_eq!(deep.vars["items"].attrs, "a");
    assert_eq!(
        deep.vars["items"].value,
        Value::Indexed([(0, "alpha".to_string()), (1, "beta gamma".to_string())].into())
    );
    assert_eq!(deep.vars["conf"].attrs, "A");
    assert_eq!(deep.vars["tries"].attrs, "i", "attributes survive, unlike a hand-rolled capture");
    assert!(!deep.vars.contains_key("absent"), "a missing variable is skipped");
    assert_eq!(deep.vars["BASHCAP__CTX__phase"].value, Value::Scalar("setup".into()));

    assert_eq!(deep.rematch, ["build-2026", "build", "2026"]);
    assert_eq!(deep.notes, ["deep"]);
    assert!(deep.state.contains_key("shlvl") && deep.state.contains_key("flags"));

    let wrapped = &snaps[1].snapshot;
    assert_eq!(wrapped.stack.top().site.to_string(), "WITH_BASHCAP");
    assert_eq!(wrapped.notes, ["before step"]);
}

#[test]
fn snapshot_a_variable_holding_a_byte_bash_cannot_show_survives_the_wire() {
    let snaps = capture(
        r#"
        high=$'\377'
        low=$'a\001b'
        BASHCAP -BCV:high -BCV:low
        "#,
    );

    let vars = &snaps[0].snapshot.vars;
    assert_eq!(vars["high"].value, Value::Scalar("\u{ff}".into()));
    assert_eq!(vars["low"].value, Value::Scalar("a\u{1}b".into()));
}

#[test]
fn tests_a_variable_holding_a_byte_bash_cannot_show_survives_the_wire() {
    let snaps = capture(
        r#"
        high=$'\377'
        low=$'a\001b'
        BASHCAP -BCV:high -BCV:low
        "#,
    );

    let vars = &snaps[0].snapshot.vars;
    assert_eq!(vars["high"].value, Value::Scalar("\u{ff}".into()));
    assert_eq!(vars["low"].value, Value::Scalar("a\u{1}b".into()));
}

#[test]
fn snapshot_the_walk_survives_the_subjects_own_shell_options() {
    let snaps = capture(
        r#"
        set -euo pipefail
        shopt -s extdebug
        f() { BASHCAP; }
        f
        BASHCAP -BCS:after
        "#,
    );

    assert_eq!(snaps.len(), 2, "the script ran on past the first snapshot");
    assert_eq!(snaps[0].snapshot.stack.top().args, Some(Vec::new()), "f was called with none");
    assert_eq!(snaps[1].snapshot.notes, ["after"]);
}

#[test]
fn tests_the_walk_survives_the_subjects_own_shell_options() {
    let snaps = capture(
        r#"
        set -euo pipefail
        shopt -s extdebug
        f() { BASHCAP; }
        f
        BASHCAP -BCS:after
        "#,
    );

    assert_eq!(snaps.len(), 2, "the script ran on past the first snapshot");
    assert_eq!(snaps[0].snapshot.stack.top().args, Some(Vec::new()), "f was called with none");
    assert_eq!(snaps[1].snapshot.notes, ["after"]);
}

#[test]
fn tests_call_arguments_arrive_where_the_shell_was_recording_them() {
    let body = r#"
        deep() { BASHCAP -BCS:"at the bottom"; }
        mid()  { deep "d one" $'d\ntwo'; }
        mid "m one"
        "#;

    let bare = capture(body);
    assert!(
        bare[0].snapshot.stack.frames().all(|frame| frame.args.is_none()),
        "an ordinary shell records none, and says so"
    );

    let traced = capture(&format!("shopt -s extdebug\n{body}"));
    let called: Vec<&[String]> = traced[0]
        .snapshot
        .stack
        .frames()
        .map(|frame| frame.args.as_deref().expect("the shell was recording"))
        .collect();

    // The instrument's own frames are not reported, but their arguments
    // still sit in the flat `BASH_ARGV` stack; miscounting them would shift
    // every frame.
    assert_eq!(called, [["d one", "d\ntwo"].as_slice(), ["m one"].as_slice(), [].as_slice()]);

    let shown = traced[0].snapshot.stack.top().to_string();
    assert!(
        shown.ends_with(" ('d one' $'d\\ntwo')"),
        "rendered as the bash that would pass them, newline and all: {shown}"
    );
}

#[test]
fn tracing_call_arguments_arrive_where_the_shell_was_recording_them() {
    let body = r#"
        deep() { BASHCAP -BCS:"at the bottom"; }
        mid()  { deep "d one" $'d\ntwo'; }
        mid "m one"
        "#;

    let bare = capture(body);
    assert!(
        bare[0].snapshot.stack.frames().all(|frame| frame.args.is_none()),
        "an ordinary shell records none, and says so"
    );

    let traced = capture(&format!("shopt -s extdebug\n{body}"));
    let called: Vec<&[String]> = traced[0]
        .snapshot
        .stack
        .frames()
        .map(|frame| frame.args.as_deref().expect("the shell was recording"))
        .collect();

    assert_eq!(called, [["d one", "d\ntwo"].as_slice(), ["m one"].as_slice(), [].as_slice()]);

    let shown = traced[0].snapshot.stack.top().to_string();
    assert!(
        shown.ends_with(" ('d one' $'d\\ntwo')"),
        "rendered as the bash that would pass them, newline and all: {shown}"
    );
}
