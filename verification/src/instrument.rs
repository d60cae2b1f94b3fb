//! The bash injected into a subject's shells.
//!
//! Two halves. [`WORDS`] is what a call site says — the same text a client
//! vendors, naming nothing of the protocol. [`EFFECT`] is what a call does,
//! and needs both the protocol and the frame walk. [`TRACE`] is the switch
//! that has the shells record what each call was passed.

use vstd::prelude::*;

use crate::outside::{emit_scalar, scalar_emitted, walk_bash, with_walk};

verus! {

broadcast use vstd::string::group_string_axioms;

/// `BASHCAP` and `WITH_BASHCAP`: the words, which do nothing until an
/// effect stands behind them.
pub const WORDS: &'static str = r##"# The words a call site says:
#
#     BASHCAP [-BCV:<name>]... [-BCS:<note>]...
#     WITH_BASHCAP [-BCV:<name>]... [-BCS:<note>]... <command> [<arg>]...
#
# What a call does is whatever stands in BASHCAP__EFFECT when it is made: the
# tool puts its capture there, and without the tool a call does nothing.
# WITH_BASHCAP runs its command either way, and returns that command's status.
BASHCAP() {
    [[ -z ${BASHCAP__EFFECT-} ]] || "$BASHCAP__EFFECT" 3 "$@"
}

WITH_BASHCAP() {
    local -a __bashcap_flags=()
    while (( $# > 0 )) && [[ $1 == -BCV:* || $1 == -BCS:* ]]; do
        __bashcap_flags+=("$1")
        shift
    done
    if [[ -n ${BASHCAP__EFFECT-} ]]; then
        "$BASHCAP__EFFECT" 2 "${__bashcap_flags[@]}" || return
    fi
    "$@"
}
"##;

/// `__bc_capture`, which is what makes those words do anything, and
/// `BASHCAP_INIT`, which joins a shell to a session.
pub const EFFECT: &'static str = r##"# What a BASHCAP call does: one snapshot of this shell, said on the session's
# channel under the label BASHCAP. $1 is how many leading frames are the
# instrument's, the walk's own included; the rest are the call's flags.
#
# Each section is an array literal. `IFS` is this function's own, so the
# joins below are one space apart whatever the subject set.
__bc_capture() {
    local -a __bc_rematch=("${BASH_REMATCH[@]}")
    local -a __bc_names=() __bc_declared=() __bc_notes=() __bc_walk=() __bc_state=()
    local __bc_skip=$1 __bc_arg __bc_name IFS=' '
    shift

    for __bc_arg in "$@"; do
        case $__bc_arg in
            -BCV:*) __bc_names+=("${__bc_arg#-BCV:}") ;;
            -BCS:*) __bc_notes+=("${__bc_arg#-BCS:}") ;;
        esac
    done
    for __bc_name in ${!BASHCAP__CTX__@}; do
        __bc_names+=("$__bc_name")
    done

    # `${ref[*]@A}` through a nameref is the whole declaration, attributes
    # included; a name that is not set is skipped.
    for __bc_name in "${__bc_names[@]}"; do
        declare -p -- "$__bc_name" >/dev/null 2>&1 || continue
        local -n __bc_ref=$__bc_name
        __bc_declared+=("${__bc_ref[*]@A}")
        unset -n __bc_ref
    done

    __bc_state=(seconds "$SECONDS" shlvl "$SHLVL" subshell "$BASH_SUBSHELL" flags "$-")
    __bc_stack __bc_walk "$__bc_skip"

    local BC_SAY__ARG_LABEL=BASHCAP
    __bc_say __BASHCAP__ "${__bc_walk[@]}" \
        state   "(${__bc_state[*]@Q})" \
        rematch "(${__bc_rematch[*]@Q})" \
        vars    "(${__bc_declared[*]@Q})" \
        notes   "(${__bc_notes[*]@Q})"
}

BASHCAP__EFFECT=__bc_capture

# Joins this shell to the session whose workspace is $1.
BASHCAP_INIT() {
    BC_JOIN BASHCAP "${1:?the session workspace}"
}
"##;

/// Turns on the shell's own recording of call arguments, in every shell.
pub const TRACE: &'static str = r##"# Record what each call is passed: `extdebug`, armed at the first command that
# is not a startup file's, from a DEBUG trap that then removes itself. Under
# `extdebug` a DEBUG handler that returns non-zero skips its command, so this
# one returns zero whatever it does.
__bc_trace_arm() {
    case " ${BASH_SOURCE[*]:1} " in
        *"/bash_env.bash "* | *"/prelude.bash "* | *"/rig.bash "*) return 0 ;;
    esac
    trap - DEBUG
    shopt -s extdebug
    return 0
}
trap __bc_trace_arm DEBUG
"##;

/// The one line a script that must also run without the tool says for
/// itself: outside a session the word is then a command that does nothing,
/// rather than one that does not exist.
pub const POLYFILL: &'static str = "declare -F BASHCAP >/dev/null || BASHCAP() { :; }\n";

/// Whether the subject's shells record what each call was passed. Opt-in,
/// because `extdebug` also makes `ERR`, `DEBUG` and `RETURN` traps inherited
/// by functions and subshells — a change in the subject.
#[derive(Copy, Clone, PartialEq, Eq, Debug, Structural)]
pub enum Tracing {
    Off,
    /// Every frame comes back with the arguments its call was made with.
    /// Sourced at a shell's start, this arms itself before the subject's
    /// first line; sourced into a shell that is already running, it
    /// installs a `DEBUG` trap there, replacing one the client had.
    Calls,
}

/// The parts of the instrument, in the order a shell sources them.
pub open spec fn instrument_parts(tracing: Tracing) -> Seq<Seq<char>> {
    match tracing {
        Tracing::Off => seq![WORDS@, EFFECT@],
        Tracing::Calls => seq![WORDS@, EFFECT@, TRACE@],
    }
}

/// The bash a rig hands the subject, for any rig that wants what bashcap
/// harvests: the frame walk, then the words and their effect, and the
/// trace only where it was asked for.
///
/// Definitions only, as bash-interop asks of a rig's bash: sourcing it
/// joins no session. The join is the line [`joining`] gives, which the
/// provisioner appends after these definitions (`Provision::Joining`), or
/// which a script says for itself. So the join still comes after the words
/// and the effect, and `TRACE`, which arms itself only outside a shell's
/// startup files, never records the join as the subject's.
pub fn instrument(tracing: Tracing) -> (bash: String)
    ensures
        bash@ == walk_bash(instrument_parts(tracing)),
{
    match tracing {
        Tracing::Off => {
            let parts = [WORDS, EFFECT];
            assert(parts@.map_values(|p: &str| p@) =~= instrument_parts(tracing));
            with_walk(&parts)
        },
        Tracing::Calls => {
            let parts = [WORDS, EFFECT, TRACE];
            assert(parts@.map_values(|p: &str| p@) =~= instrument_parts(tracing));
            with_walk(&parts)
        },
    }
}

/// The line that joins a shell to the session in `workspace`, the
/// workspace spelled as a bash word: `BASHCAP_INIT`, which `EFFECT` defines,
/// says `BC_JOIN BASHCAP` with it. This is the join that [`instrument`]
/// leaves out.
pub fn joining(workspace: &str) -> (line: String)
    ensures
        line@ == "BASHCAP_INIT "@ + scalar_emitted(workspace@) + "\n"@,
{
    let mut line = String::from_str("BASHCAP_INIT ");
    let word = emit_scalar(workspace);
    line.append(word.as_str());
    line.append("\n");
    line
}

} // verus!
