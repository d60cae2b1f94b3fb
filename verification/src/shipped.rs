//! What the shipped bash does not do: put a name in the environment. A
//! name exported by a shell reaches every process the subject starts, and
//! those are the subject's, not bashcap's.

use vstd::prelude::*;

use crate::instrument::{instrument_parts, Tracing, EFFECT, POLYFILL, TRACE, WORDS};

verus! {

broadcast use vstd::string::group_string_axioms;

/// Whether `export ` stands nowhere in `text` from `at` on.
pub open spec fn exports_nothing_from(text: Seq<char>, at: int) -> bool
    decreases text.len() - at,
{
    if at < 0 || at + 7 > text.len() {
        true
    } else {
        !(text[at] == 'e' && text[at + 1] == 'x' && text[at + 2] == 'p' && text[at + 3] == 'o'
            && text[at + 4] == 'r' && text[at + 5] == 't' && text[at + 6] == ' ')
            && exports_nothing_from(text, at + 1)
    }
}

/// Whether `export ` stands nowhere in `text`.
pub open spec fn exports_nothing(text: Seq<char>) -> bool {
    exports_nothing_from(text, 0)
}

/// Nothing bashcap ships puts a name in the environment of the processes a
/// subject starts: `export ` stands nowhere in the words, their effect, the
/// trace, or the one-line stand-in a script may say for itself — so in no
/// part of the instrument, whether or not calls are traced.
pub proof fn nothing_shipped_exports_a_name(tracing: Tracing)
    ensures
        exports_nothing(WORDS@),
        exports_nothing(EFFECT@),
        exports_nothing(TRACE@),
        exports_nothing(POLYFILL@),
        forall|i: int| 0 <= i < instrument_parts(tracing).len() ==> exports_nothing(#[trigger] instrument_parts(tracing)[i]),
{
    lemma_words_export_nothing();
    lemma_effect_exports_nothing();
    lemma_trace_exports_nothing();
    lemma_polyfill_exports_nothing();
}

/// `WORDS`, as written, character by character, a stretch at a time.
#[verifier::rlimit(50)]
proof fn lemma_words_export_nothing()
    ensures
        exports_nothing(WORDS@),
{
    reveal_strlit(r##"# The words a call site says:
#
#     BASHCAP [-BCV:<name>]... [-BCS:<note>]...
#     WITH_BASHCAP [-BCV:<name>]... [-BCS:<note>]... <command> [<arg>]...
#
# What a call does is whatever stands in BASHCAP__EFFECT when it is made: the
# tool puts its capture there, and without the tool a call does nothing.
# WITH_BASHCAP runs its command either way, and returns that command's status.
BASHCAP() {
    [[ -z ${BASHCAP__EFFECT-} ]] || "$BASHCAP__EFFECT" 3 "$@"
}

WITH_BASHCAP() {
    local -a __bashcap_flags=()
    while (( $# > 0 )) && [[ $1 == -BCV:* || $1 == -BCS:* ]]; do
        __bashcap_flags+=("$1")
        shift
    done
    if [[ -n ${BASHCAP__EFFECT-} ]]; then
        "$BASHCAP__EFFECT" 2 "${__bashcap_flags[@]}" || return
    fi
    "$@"
}
"##);
    assert(WORDS@ == r##"# The words a call site says:
#
#     BASHCAP [-BCV:<name>]... [-BCS:<note>]...
#     WITH_BASHCAP [-BCV:<name>]... [-BCS:<note>]... <command> [<arg>]...
#
# What a call does is whatever stands in BASHCAP__EFFECT when it is made: the
# tool puts its capture there, and without the tool a call does nothing.
# WITH_BASHCAP runs its command either way, and returns that command's status.
BASHCAP() {
    [[ -z ${BASHCAP__EFFECT-} ]] || "$BASHCAP__EFFECT" 3 "$@"
}

WITH_BASHCAP() {
    local -a __bashcap_flags=()
    while (( $# > 0 )) && [[ $1 == -BCV:* || $1 == -BCS:* ]]; do
        __bashcap_flags+=("$1")
        shift
    done
    if [[ -n ${BASHCAP__EFFECT-} ]]; then
        "$BASHCAP__EFFECT" 2 "${__bashcap_flags[@]}" || return
    fi
    "$@"
}
"##@);
    assert(exports_nothing_from(WORDS@, 750)) by {
        reveal_with_fuel(exports_nothing_from, 51);
    }
    assert(exports_nothing_from(WORDS@, 700)) by {
        reveal_with_fuel(exports_nothing_from, 51);
    }
    assert(exports_nothing_from(WORDS@, 650)) by {
        reveal_with_fuel(exports_nothing_from, 51);
    }
    assert(exports_nothing_from(WORDS@, 600)) by {
        reveal_with_fuel(exports_nothing_from, 51);
    }
    assert(exports_nothing_from(WORDS@, 550)) by {
        reveal_with_fuel(exports_nothing_from, 51);
    }
    assert(exports_nothing_from(WORDS@, 500)) by {
        reveal_with_fuel(exports_nothing_from, 51);
    }
    assert(exports_nothing_from(WORDS@, 450)) by {
        reveal_with_fuel(exports_nothing_from, 51);
    }
    assert(exports_nothing_from(WORDS@, 400)) by {
        reveal_with_fuel(exports_nothing_from, 51);
    }
    assert(exports_nothing_from(WORDS@, 350)) by {
        reveal_with_fuel(exports_nothing_from, 51);
    }
    assert(exports_nothing_from(WORDS@, 300)) by {
        reveal_with_fuel(exports_nothing_from, 51);
    }
    assert(exports_nothing_from(WORDS@, 250)) by {
        reveal_with_fuel(exports_nothing_from, 51);
    }
    assert(exports_nothing_from(WORDS@, 200)) by {
        reveal_with_fuel(exports_nothing_from, 51);
    }
    assert(exports_nothing_from(WORDS@, 150)) by {
        reveal_with_fuel(exports_nothing_from, 51);
    }
    assert(exports_nothing_from(WORDS@, 100)) by {
        reveal_with_fuel(exports_nothing_from, 51);
    }
    assert(exports_nothing_from(WORDS@, 50)) by {
        reveal_with_fuel(exports_nothing_from, 51);
    }
    assert(exports_nothing_from(WORDS@, 0)) by {
        reveal_with_fuel(exports_nothing_from, 51);
    }
}

/// `EFFECT`, as written, character by character, a stretch at a time.
#[verifier::rlimit(50)]
proof fn lemma_effect_exports_nothing()
    ensures
        exports_nothing(EFFECT@),
{
    reveal_strlit(r##"# What a BASHCAP call does: one snapshot of this shell, said on the session's
# channel under the label BASHCAP. $1 is how many leading frames are the
# instrument's, the walk's own included; the rest are the call's flags.
#
# Each section is an array literal. `IFS` is this function's own, so the
# joins below are one space apart whatever the subject set.
__bc_capture() {
    local -a __bc_rematch=("${BASH_REMATCH[@]}")
    local -a __bc_names=() __bc_declared=() __bc_notes=() __bc_walk=() __bc_state=()
    local __bc_skip=$1 __bc_arg __bc_name IFS=' '
    shift

    for __bc_arg in "$@"; do
        case $__bc_arg in
            -BCV:*) __bc_names+=("${__bc_arg#-BCV:}") ;;
            -BCS:*) __bc_notes+=("${__bc_arg#-BCS:}") ;;
        esac
    done
    for __bc_name in ${!BASHCAP__CTX__@}; do
        __bc_names+=("$__bc_name")
    done

    # `${ref[*]@A}` through a nameref is the whole declaration, attributes
    # included; a name that is not set is skipped.
    for __bc_name in "${__bc_names[@]}"; do
        declare -p -- "$__bc_name" >/dev/null 2>&1 || continue
        local -n __bc_ref=$__bc_name
        __bc_declared+=("${__bc_ref[*]@A}")
        unset -n __bc_ref
    done

    __bc_state=(seconds "$SECONDS" shlvl "$SHLVL" subshell "$BASH_SUBSHELL" flags "$-")
    __bc_stack __bc_walk "$__bc_skip"

    local BC_SAY__ARG_LABEL=BASHCAP
    __bc_say __BASHCAP__ "${__bc_walk[@]}" \
        state   "(${__bc_state[*]@Q})" \
        rematch "(${__bc_rematch[*]@Q})" \
        vars    "(${__bc_declared[*]@Q})" \
        notes   "(${__bc_notes[*]@Q})"
}

BASHCAP__EFFECT=__bc_capture

# Joins this shell to the session whose workspace is $1.
BASHCAP_INIT() {
    BC_JOIN BASHCAP "${1:?the session workspace}"
}
"##);
    assert(EFFECT@ == r##"# What a BASHCAP call does: one snapshot of this shell, said on the session's
# channel under the label BASHCAP. $1 is how many leading frames are the
# instrument's, the walk's own included; the rest are the call's flags.
#
# Each section is an array literal. `IFS` is this function's own, so the
# joins below are one space apart whatever the subject set.
__bc_capture() {
    local -a __bc_rematch=("${BASH_REMATCH[@]}")
    local -a __bc_names=() __bc_declared=() __bc_notes=() __bc_walk=() __bc_state=()
    local __bc_skip=$1 __bc_arg __bc_name IFS=' '
    shift

    for __bc_arg in "$@"; do
        case $__bc_arg in
            -BCV:*) __bc_names+=("${__bc_arg#-BCV:}") ;;
            -BCS:*) __bc_notes+=("${__bc_arg#-BCS:}") ;;
        esac
    done
    for __bc_name in ${!BASHCAP__CTX__@}; do
        __bc_names+=("$__bc_name")
    done

    # `${ref[*]@A}` through a nameref is the whole declaration, attributes
    # included; a name that is not set is skipped.
    for __bc_name in "${__bc_names[@]}"; do
        declare -p -- "$__bc_name" >/dev/null 2>&1 || continue
        local -n __bc_ref=$__bc_name
        __bc_declared+=("${__bc_ref[*]@A}")
        unset -n __bc_ref
    done

    __bc_state=(seconds "$SECONDS" shlvl "$SHLVL" subshell "$BASH_SUBSHELL" flags "$-")
    __bc_stack __bc_walk "$__bc_skip"

    local BC_SAY__ARG_LABEL=BASHCAP
    __bc_say __BASHCAP__ "${__bc_walk[@]}" \
        state   "(${__bc_state[*]@Q})" \
        rematch "(${__bc_rematch[*]@Q})" \
        vars    "(${__bc_declared[*]@Q})" \
        notes   "(${__bc_notes[*]@Q})"
}

BASHCAP__EFFECT=__bc_capture

# Joins this shell to the session whose workspace is $1.
BASHCAP_INIT() {
    BC_JOIN BASHCAP "${1:?the session workspace}"
}
"##@);
    assert(exports_nothing_from(EFFECT@, 1700)) by {
        reveal_with_fuel(exports_nothing_from, 51);
    }
    assert(exports_nothing_from(EFFECT@, 1650)) by {
        reveal_with_fuel(exports_nothing_from, 51);
    }
    assert(exports_nothing_from(EFFECT@, 1600)) by {
        reveal_with_fuel(exports_nothing_from, 51);
    }
    assert(exports_nothing_from(EFFECT@, 1550)) by {
        reveal_with_fuel(exports_nothing_from, 51);
    }
    assert(exports_nothing_from(EFFECT@, 1500)) by {
        reveal_with_fuel(exports_nothing_from, 51);
    }
    assert(exports_nothing_from(EFFECT@, 1450)) by {
        reveal_with_fuel(exports_nothing_from, 51);
    }
    assert(exports_nothing_from(EFFECT@, 1400)) by {
        reveal_with_fuel(exports_nothing_from, 51);
    }
    assert(exports_nothing_from(EFFECT@, 1350)) by {
        reveal_with_fuel(exports_nothing_from, 51);
    }
    assert(exports_nothing_from(EFFECT@, 1300)) by {
        reveal_with_fuel(exports_nothing_from, 51);
    }
    assert(exports_nothing_from(EFFECT@, 1250)) by {
        reveal_with_fuel(exports_nothing_from, 51);
    }
    assert(exports_nothing_from(EFFECT@, 1200)) by {
        reveal_with_fuel(exports_nothing_from, 51);
    }
    assert(exports_nothing_from(EFFECT@, 1150)) by {
        reveal_with_fuel(exports_nothing_from, 51);
    }
    assert(exports_nothing_from(EFFECT@, 1100)) by {
        reveal_with_fuel(exports_nothing_from, 51);
    }
    assert(exports_nothing_from(EFFECT@, 1050)) by {
        reveal_with_fuel(exports_nothing_from, 51);
    }
    assert(exports_nothing_from(EFFECT@, 1000)) by {
        reveal_with_fuel(exports_nothing_from, 51);
    }
    assert(exports_nothing_from(EFFECT@, 950)) by {
        reveal_with_fuel(exports_nothing_from, 51);
    }
    assert(exports_nothing_from(EFFECT@, 900)) by {
        reveal_with_fuel(exports_nothing_from, 51);
    }
    assert(exports_nothing_from(EFFECT@, 850)) by {
        reveal_with_fuel(exports_nothing_from, 51);
    }
    assert(exports_nothing_from(EFFECT@, 800)) by {
        reveal_with_fuel(exports_nothing_from, 51);
    }
    assert(exports_nothing_from(EFFECT@, 750)) by {
        reveal_with_fuel(exports_nothing_from, 51);
    }
    assert(exports_nothing_from(EFFECT@, 700)) by {
        reveal_with_fuel(exports_nothing_from, 51);
    }
    assert(exports_nothing_from(EFFECT@, 650)) by {
        reveal_with_fuel(exports_nothing_from, 51);
    }
    assert(exports_nothing_from(EFFECT@, 600)) by {
        reveal_with_fuel(exports_nothing_from, 51);
    }
    assert(exports_nothing_from(EFFECT@, 550)) by {
        reveal_with_fuel(exports_nothing_from, 51);
    }
    assert(exports_nothing_from(EFFECT@, 500)) by {
        reveal_with_fuel(exports_nothing_from, 51);
    }
    assert(exports_nothing_from(EFFECT@, 450)) by {
        reveal_with_fuel(exports_nothing_from, 51);
    }
    assert(exports_nothing_from(EFFECT@, 400)) by {
        reveal_with_fuel(exports_nothing_from, 51);
    }
    assert(exports_nothing_from(EFFECT@, 350)) by {
        reveal_with_fuel(exports_nothing_from, 51);
    }
    assert(exports_nothing_from(EFFECT@, 300)) by {
        reveal_with_fuel(exports_nothing_from, 51);
    }
    assert(exports_nothing_from(EFFECT@, 250)) by {
        reveal_with_fuel(exports_nothing_from, 51);
    }
    assert(exports_nothing_from(EFFECT@, 200)) by {
        reveal_with_fuel(exports_nothing_from, 51);
    }
    assert(exports_nothing_from(EFFECT@, 150)) by {
        reveal_with_fuel(exports_nothing_from, 51);
    }
    assert(exports_nothing_from(EFFECT@, 100)) by {
        reveal_with_fuel(exports_nothing_from, 51);
    }
    assert(exports_nothing_from(EFFECT@, 50)) by {
        reveal_with_fuel(exports_nothing_from, 51);
    }
    assert(exports_nothing_from(EFFECT@, 0)) by {
        reveal_with_fuel(exports_nothing_from, 51);
    }
}

/// `TRACE`, as written, character by character, a stretch at a time.
#[verifier::rlimit(50)]
proof fn lemma_trace_exports_nothing()
    ensures
        exports_nothing(TRACE@),
{
    reveal_strlit(r##"# Record what each call is passed: `extdebug`, armed at the first command that
# is not a startup file's, from a DEBUG trap that then removes itself. Under
# `extdebug` a DEBUG handler that returns non-zero skips its command, so this
# one returns zero whatever it does.
__bc_trace_arm() {
    case " ${BASH_SOURCE[*]:1} " in
        *"/bash_env.bash "* | *"/prelude.bash "* | *"/rig.bash "*) return 0 ;;
    esac
    trap - DEBUG
    shopt -s extdebug
    return 0
}
trap __bc_trace_arm DEBUG
"##);
    assert(TRACE@ == r##"# Record what each call is passed: `extdebug`, armed at the first command that
# is not a startup file's, from a DEBUG trap that then removes itself. Under
# `extdebug` a DEBUG handler that returns non-zero skips its command, so this
# one returns zero whatever it does.
__bc_trace_arm() {
    case " ${BASH_SOURCE[*]:1} " in
        *"/bash_env.bash "* | *"/prelude.bash "* | *"/rig.bash "*) return 0 ;;
    esac
    trap - DEBUG
    shopt -s extdebug
    return 0
}
trap __bc_trace_arm DEBUG
"##@);
    assert(exports_nothing_from(TRACE@, 450)) by {
        reveal_with_fuel(exports_nothing_from, 51);
    }
    assert(exports_nothing_from(TRACE@, 400)) by {
        reveal_with_fuel(exports_nothing_from, 51);
    }
    assert(exports_nothing_from(TRACE@, 350)) by {
        reveal_with_fuel(exports_nothing_from, 51);
    }
    assert(exports_nothing_from(TRACE@, 300)) by {
        reveal_with_fuel(exports_nothing_from, 51);
    }
    assert(exports_nothing_from(TRACE@, 250)) by {
        reveal_with_fuel(exports_nothing_from, 51);
    }
    assert(exports_nothing_from(TRACE@, 200)) by {
        reveal_with_fuel(exports_nothing_from, 51);
    }
    assert(exports_nothing_from(TRACE@, 150)) by {
        reveal_with_fuel(exports_nothing_from, 51);
    }
    assert(exports_nothing_from(TRACE@, 125)) by {
        reveal_with_fuel(exports_nothing_from, 26);
    }
    assert(exports_nothing_from(TRACE@, 100)) by {
        reveal_with_fuel(exports_nothing_from, 51);
    }
    assert(exports_nothing_from(TRACE@, 50)) by {
        reveal_with_fuel(exports_nothing_from, 51);
    }
    assert(exports_nothing_from(TRACE@, 0)) by {
        reveal_with_fuel(exports_nothing_from, 51);
    }
}

/// `POLYFILL`, as written, character by character, a stretch at a time.
#[verifier::rlimit(50)]
proof fn lemma_polyfill_exports_nothing()
    ensures
        exports_nothing(POLYFILL@),
{
    reveal_strlit("declare -F BASHCAP >/dev/null || BASHCAP() { :; }\n");
    assert(POLYFILL@ == "declare -F BASHCAP >/dev/null || BASHCAP() { :; }\n"@);
    assert(exports_nothing_from(POLYFILL@, 50)) by {
        reveal_with_fuel(exports_nothing_from, 51);
    }
    assert(exports_nothing_from(POLYFILL@, 0)) by {
        reveal_with_fuel(exports_nothing_from, 51);
    }
}

} // verus!
