//! What `${ref[*]@A}` yields — `declare -aX name=rhs` — read back into its
//! three parts.

use vstd::prelude::*;
use crate::text::{
    chars_of, find_from, first_index, is_ws, lemma_first_index, lemma_trim_end_is_prefix,
    lemma_trim_start_first, lemma_trim_start_is_suffix, skip_ws, trim, trim_end, trim_start,
};

verus! {

broadcast use vstd::string::group_string_axioms;

/// The word bash puts in front of a declaration with attributes.
pub open spec fn declare_word() -> Seq<char> {
    seq!['d', 'e', 'c', 'l', 'a', 'r', 'e', ' ']
}

/// `text` without a leading `declare `, where it has one.
pub open spec fn strip_declare(text: Seq<char>) -> Seq<char> {
    if text.len() >= 8 && text.take(8) == declare_word() {
        text.skip(8)
    } else {
        text
    }
}

/// The option words at the front of `s`, each `-` then letters then a
/// space, with whitespace after each: the letters of all of them, joined, and
/// what follows. `None` where an option word runs to the end with no space.
pub open spec fn flags(s: Seq<char>) -> Option<(Seq<char>, Seq<char>)>
    decreases s.len(),
{
    if s.len() > 0 && s[0] == '-' {
        let rest = s.drop_first();
        match first_index(rest, ' ') {
            None => None,
            Some(e) => {
                if 0 <= e < rest.len() {
                    proof {
                        lemma_trim_start_is_suffix(rest.skip(e + 1));
                    }
                    match flags(trim_start(rest.skip(e + 1))) {
                        Some((letters, after)) => Some((rest.take(e) + letters, after)),
                        None => None,
                    }
                } else {
                    None
                }
            },
        }
    } else {
        Some((Seq::empty(), s))
    }
}

/// A declaration's name, attribute letters and right-hand side, or `None`
/// for text that is not one. What follows the options is split at its first
/// `=`; with none, all of it is the name, trimmed, and the value is empty.
pub open spec fn declaration_of(text: Seq<char>) -> Option<(Seq<char>, Seq<char>, Seq<char>)> {
    match flags(trim_start(strip_declare(text))) {
        None => None,
        Some((attrs, after)) => Some(
            match first_index(after, '=') {
                Some(i) => (after.take(i), attrs, after.skip(i + 1)),
                None => (trim(after), attrs, Seq::empty()),
            },
        ),
    }
}

/// A name bash would print: no whitespace and no `=` in it, and not an
/// option word.
pub open spec fn plain_name(name: Seq<char>) -> bool {
    &&& forall|i: int| 0 <= i < name.len() ==> !is_ws(#[trigger] name[i]) && name[i] != '='
    &&& name.len() > 0 ==> name[0] != '-'
}

/// Attribute letters as one option word carries them: no space among them.
pub open spec fn plain_letters(attrs: Seq<char>) -> bool {
    forall|i: int| 0 <= i < attrs.len() ==> #[trigger] attrs[i] != ' '
}

proof fn lemma_name_then_value(name: Seq<char>, rhs: Seq<char>)
    requires
        plain_name(name),
    ensures
        trim_start(name + seq!['='] + rhs) == name + seq!['='] + rhs,
        flags(name + seq!['='] + rhs) == Some((Seq::<char>::empty(), name + seq!['='] + rhs)),
        first_index(name + seq!['='] + rhs, '=') == Some(name.len() as int),
        (name + seq!['='] + rhs).take(name.len() as int) == name,
        (name + seq!['='] + rhs).skip(name.len() as int + 1) == rhs,
{
    let t = name + seq!['='] + rhs;
    assert(t[name.len() as int] == '=');
    if name.len() > 0 {
        assert(t[0] == name[0]);
        assert(!is_ws(name[0]));
    }
    assert forall|k: int| 0 <= k < name.len() implies t[k] != '=' by {
        assert(t[k] == name[k]);
    }
    crate::text::lemma_first_index_at(t, '=', name.len() as int);
    assert(t.take(name.len() as int) =~= name);
    assert(t.skip(name.len() as int + 1) =~= rhs);
}

/// What bash prints for a variable with attributes reads back whole:
/// `declare -<letters> <name>=<value>` gives the name, the letters and the
/// value it was made of.
pub proof fn declare_form_reads_back(attrs: Seq<char>, name: Seq<char>, rhs: Seq<char>)
    requires
        plain_letters(attrs),
        plain_name(name),
    ensures
        declaration_of(declare_word() + seq!['-'] + attrs + seq![' '] + name + seq!['='] + rhs)
            == Some((name, attrs, rhs)),
{
    let tail = name + seq!['='] + rhs;
    let opts = seq!['-'] + attrs + seq![' '] + tail;
    let text = declare_word() + seq!['-'] + attrs + seq![' '] + name + seq!['='] + rhs;
    assert(text =~= declare_word() + opts);
    assert(text.take(8) =~= declare_word());
    assert(strip_declare(text) =~= opts);
    assert(opts[0] == '-');
    assert(trim_start(opts) == opts);
    let rest = opts.drop_first();
    assert(rest =~= attrs + seq![' '] + tail);
    assert(rest[attrs.len() as int] == ' ');
    assert forall|k: int| 0 <= k < attrs.len() implies rest[k] != ' ' by {
        assert(rest[k] == attrs[k]);
    }
    crate::text::lemma_first_index_at(rest, ' ', attrs.len() as int);
    assert(rest.skip(attrs.len() as int + 1) =~= tail);
    assert(rest.take(attrs.len() as int) =~= attrs);
    lemma_name_then_value(name, rhs);
    assert(attrs + Seq::<char>::empty() =~= attrs);
}

/// What bash prints for a variable with no attributes reads back whole:
/// `<name>=<value>` gives the name, no letters, and the value.
pub proof fn bare_form_reads_back(name: Seq<char>, rhs: Seq<char>)
    requires
        plain_name(name),
    ensures
        declaration_of(name + seq!['='] + rhs) == Some((name, Seq::<char>::empty(), rhs)),
{
    let text = name + seq!['='] + rhs;
    lemma_name_then_value(name, rhs);
    if text.len() >= 8 && text.take(8) == declare_word() {
        // The word ends in a space, and neither the name nor the `=` is one.
        assert(text.take(8)[7] == ' ');
        assert(text[7] == ' ');
        if 7 < name.len() {
            assert(text[7] == name[7]);
        } else if 7 == name.len() {
            assert(text[7] == '=');
        } else {
            assert(text.take(8)[name.len() as int] == text[name.len() as int]);
            assert(declare_word()[name.len() as int] != '=');
        }
    }
    assert(strip_declare(text) == text);
}

/// The option words gather letters with no space among them, and leave a
/// tail of the text that begins with neither whitespace nor `-`.
proof fn lemma_flags_shape(s: Seq<char>)
    requires
        s.len() > 0 ==> !is_ws(s[0]),
    ensures
        flags(s) matches Some((letters, after)) ==> {
            &&& plain_letters(letters)
            &&& after.len() <= s.len()
            &&& after == s.skip(s.len() - after.len())
            &&& (after.len() > 0 ==> after[0] != '-' && !is_ws(after[0]))
        },
    decreases s.len(),
{
    if s.len() > 0 && s[0] == '-' {
        let rest = s.drop_first();
        lemma_first_index(rest, ' ');
        if let Some(e) = first_index(rest, ' ') {
            let tail = rest.skip(e + 1);
            lemma_trim_start_is_suffix(tail);
            lemma_trim_start_first(tail);
            let next = trim_start(tail);
            lemma_flags_shape(next);
            if let Some((letters, after)) = flags(next) {
                assert forall|i: int| 0 <= i < rest.take(e).len() + letters.len() implies
                    #[trigger] (rest.take(e) + letters)[i] != ' ' by {
                    if i < e {
                        assert((rest.take(e) + letters)[i] == rest[i]);
                    } else {
                        assert((rest.take(e) + letters)[i] == letters[i - e]);
                    }
                }
                assert(after == s.skip(s.len() - after.len())) by {
                    assert(next == tail.skip(tail.len() - next.len()));
                    assert(after == next.skip(next.len() - after.len()));
                    assert(s.skip(s.len() - after.len()) =~= next.skip(next.len() - after.len()));
                }
            }
        }
    } else {
        assert(s.skip(0) =~= s);
    }
}

/// A declaration splits at the first `=` after its option words: the name
/// holds no `=` and does not begin as an option word does, the letters hold
/// no space, and a value that is there is the rest of the text, verbatim,
/// after the name and its `=`.
pub proof fn a_declaration_splits_at_its_first_equals(text: Seq<char>)
    ensures
        declaration_of(text) matches Some((name, attrs, rhs)) ==> {
            &&& plain_letters(attrs)
            &&& !name.contains('=')
            &&& (name.len() > 0 ==> name[0] != '-')
            &&& (rhs.len() > 0 ==> {
                let whole = name + seq!['='] + rhs;
                &&& whole.len() <= text.len()
                &&& text.skip(text.len() - whole.len()) == whole
            })
        },
{
    let stripped = strip_declare(text);
    assert(stripped == text.skip(text.len() - stripped.len())) by {
        if text.len() >= 8 && text.take(8) == declare_word() {
        } else {
            assert(text.skip(0) =~= text);
        }
    }
    let s = trim_start(stripped);
    lemma_trim_start_is_suffix(stripped);
    lemma_trim_start_first(stripped);
    lemma_flags_shape(s);
    if let Some((attrs, after)) = flags(s) {
        assert(after == text.skip(text.len() - after.len())) by {
            assert(text.skip(text.len() - after.len()) =~= s.skip(s.len() - after.len()));
        }
        lemma_first_index(after, '=');
        match first_index(after, '=') {
            Some(i) => {
                let name = after.take(i);
                let rhs = after.skip(i + 1);
                assert(!name.contains('=')) by {
                    assert forall|k: int| 0 <= k < name.len() implies name[k] != '=' by {
                        assert(name[k] == after[k]);
                    }
                }
                if name.len() > 0 {
                    assert(name[0] == after[0]);
                }
                assert(name + seq!['='] + rhs =~= after);
            },
            None => {
                assert(trim_start(after) == after);
                lemma_trim_end_is_prefix(after);
                let name = trim(after);
                assert(name == after.take(name.len() as int));
                assert(!name.contains('=')) by {
                    assert forall|k: int| 0 <= k < name.len() implies name[k] != '=' by {
                        assert(name[k] == after[k]);
                    }
                }
                if name.len() > 0 {
                    assert(name[0] == after[0]);
                }
            },
        }
    }
}

/// Only an option word that runs to the end of the text with no space after
/// it makes a text no declaration: past an optional `declare ` and leading
/// whitespace, the text is refused exactly where its option words do not
/// read, and then some `-` stands with no space anywhere after it. A text
/// that does not begin with `-` there is always a declaration.
pub proof fn only_an_unended_option_word_refuses(text: Seq<char>)
    ensures
        declaration_of(text) is None <==> flags(trim_start(strip_declare(text))) is None,
        declaration_of(text) is None ==> {
            let s = trim_start(strip_declare(text));
            &&& s.len() > 0 && s[0] == '-'
            &&& exists|k: int| 0 <= k < s.len() && s[k] == '-' && forall|j: int| k < j < s.len() ==> #[trigger] s[j] != ' '
        },
{
    lemma_unended_option_word(trim_start(strip_declare(text)));
}

proof fn lemma_unended_option_word(s: Seq<char>)
    ensures
        flags(s) is None ==> exists|k: int| 0 <= k < s.len() && s[k] == '-' && forall|j: int| k < j < s.len() ==> #[trigger] s[j] != ' ',
    decreases s.len(),
{
    if s.len() > 0 && s[0] == '-' {
        let rest = s.drop_first();
        lemma_first_index(rest, ' ');
        match first_index(rest, ' ') {
            None => {
                assert forall|j: int| 0 < j < s.len() implies #[trigger] s[j] != ' ' by {
                    assert(s[j] == rest[j - 1]);
                }
            },
            Some(e) => {
                let tail = rest.skip(e + 1);
                lemma_trim_start_is_suffix(tail);
                let next = trim_start(tail);
                lemma_unended_option_word(next);
                if flags(s) is None {
                    let k = choose|k: int| 0 <= k < next.len() && next[k] == '-' && forall|j: int| k < j < next.len() ==> #[trigger] next[j] != ' ';
                    let off = s.len() - next.len();
                    assert(next =~= s.skip(off)) by {
                        assert(next == tail.skip(tail.len() - next.len()));
                    }
                    assert(s[off + k] == next[k]);
                    assert forall|j: int| off + k < j < s.len() implies #[trigger] s[j] != ' ' by {
                        assert(s[j] == next[j - off]);
                    }
                }
            },
        }
    }
}

/// A declaration in its three parts: the name and the value are the text's
/// own, the attribute letters are gathered from every option word.
pub struct Declaration<'a> {
    pub name: &'a str,
    pub attrs: String,
    pub rhs: &'a str,
}

proof fn lemma_flags_step(cs: Seq<char>, pos: int, j: int)
    requires
        0 <= pos < j < cs.len(),
        cs[pos] == '-',
        cs[j] == ' ',
        forall|k: int| pos + 1 <= k < j ==> cs[k] != ' ',
    ensures
        flags(cs.skip(pos)) == match flags(trim_start(cs.skip(j + 1))) {
            Some((letters, after)) => Some((cs.subrange(pos + 1, j) + letters, after)),
            None => None,
        },
{
    let s = cs.skip(pos);
    let rest = s.drop_first();
    assert(rest =~= cs.skip(pos + 1));
    crate::text::lemma_first_index_at(rest, ' ', j - pos - 1);
    assert(rest.skip(j - pos) =~= cs.skip(j + 1));
    assert(rest.take(j - pos - 1) =~= cs.subrange(pos + 1, j));
}

proof fn lemma_flags_none(cs: Seq<char>, pos: int)
    requires
        0 <= pos < cs.len(),
        cs[pos] == '-',
        forall|k: int| pos + 1 <= k < cs.len() ==> cs[k] != ' ',
    ensures
        flags(cs.skip(pos)) is None,
{
    let s = cs.skip(pos);
    let rest = s.drop_first();
    assert(rest =~= cs.skip(pos + 1));
    lemma_first_index(rest, ' ');
    if let Some(e) = first_index(rest, ' ') {
        assert(rest[e] == cs[pos + 1 + e]);
    }
}

impl<'a> Declaration<'a> {
    /// `None` for text that is not one.
    pub fn read(text: &'a str) -> (res: Option<Declaration<'a>>)
        ensures
            match declaration_of(text@) {
                None => res is None,
                Some((name, attrs, rhs)) => res matches Some(d) && d.name@ == name && d.attrs@
                    == attrs && d.rhs@ == rhs,
            },
    {
        let cs = chars_of(text);
        let len = cs.len();
        let ghost s = cs@;

        // `declare `, where it leads.
        let start: usize = if len >= 8 && cs[0] == 'd' && cs[1] == 'e' && cs[2] == 'c' && cs[3]
            == 'l' && cs[4] == 'a' && cs[5] == 'r' && cs[6] == 'e' && cs[7] == ' ' {
            assert(s.take(8) =~= declare_word());
            8
        } else {
            assert(len >= 8 ==> s[0] != 'd' || s[1] != 'e' || s[2] != 'c' || s[3] != 'l'
                || s[4] != 'a' || s[5] != 'r' || s[6] != 'e' || s[7] != ' ');
            assert(len >= 8 ==> s.take(8) != declare_word()) by {
                if len >= 8 && s.take(8) == declare_word() {
                    assert(s.take(8)[0] == 'd' && s.take(8)[1] == 'e' && s.take(8)[2] == 'c'
                        && s.take(8)[3] == 'l' && s.take(8)[4] == 'a' && s.take(8)[5] == 'r'
                        && s.take(8)[6] == 'e' && s.take(8)[7] == ' ');
                }
            }
            0
        };
        assert(strip_declare(s) =~= s.skip(start as int));

        let mut pos = skip_ws(&cs, start);
        let mut attrs = String::new();
        let ghost whole = flags(trim_start(strip_declare(s)));

        while pos < len && cs[pos] == '-'
            invariant
                len == s.len(),
                cs@ == s,
                s == text@,
                whole == flags(trim_start(strip_declare(s))),
                pos <= len,
                trim_start(s.skip(pos as int)) == s.skip(pos as int),
                whole == match flags(s.skip(pos as int)) {
                    Some((letters, after)) => Some((attrs@ + letters, after)),
                    None => None,
                },
            decreases len - pos,
        {
            match find_from(&cs, pos + 1, ' ') {
                None => {
                    proof {
                        lemma_first_index(s.skip(pos + 1), ' ');
                        assert forall|k: int| pos + 1 <= k < s.len() implies s[k] != ' ' by {
                            assert(s.skip(pos + 1)[k - pos - 1] == s[k]);
                        }
                        lemma_flags_none(s, pos as int);
                    }
                    return None;
                },
                Some(j) => {
                    proof {
                        lemma_first_index(s.skip(pos + 1), ' ');
                        assert forall|k: int| pos + 1 <= k < j implies s[k] != ' ' by {
                            assert(s.skip(pos + 1)[k - pos - 1] == s[k]);
                        }
                        assert(s[j as int] == s.skip(pos + 1)[j - pos - 1]);
                        lemma_flags_step(s, pos as int, j as int);
                    }
                    let letters = text.substring_char(pos + 1, j);
                    let ghost before = attrs@;
                    attrs.append(letters);
                    let next = skip_ws(&cs, j + 1);
                    proof {
                        assert(before + s.subrange(pos + 1, j as int) == attrs@);
                        match flags(s.skip(next as int)) {
                            Some((l, a)) => {
                                assert(attrs@ + l =~= before + (s.subrange(pos + 1, j as int)
                                    + l));
                            },
                            None => {},
                        }
                    }
                    pos = next;
                },
            }
        }

        // No more option words: the rest is `name=rhs`, or a bare name.
        assert(flags(s.skip(pos as int)) == Some((Seq::<char>::empty(), s.skip(pos as int))));
        assert(attrs@ + Seq::<char>::empty() =~= attrs@);
        let ghost after = s.skip(pos as int);
        proof {
            lemma_first_index(after, '=');
        }
        match find_from(&cs, pos, '=') {
            Some(k) => {
                assert(first_index(after, '=') == Some(k - pos));
                assert(after.take(k - pos) =~= s.subrange(pos as int, k as int));
                assert(after.skip(k - pos + 1) =~= s.subrange(k + 1, len as int));
                Some(
                    Declaration {
                        name: text.substring_char(pos, k),
                        attrs,
                        rhs: text.substring_char(k + 1, len),
                    },
                )
            },
            None => {
                let end = trimmed_end(&cs, pos);
                Some(
                    Declaration {
                        name: text.substring_char(pos, end),
                        attrs,
                        rhs: text.substring_char(len, len),
                    },
                )
            },
        }
    }
}

/// Where the text from `from` ends once trailing whitespace is off it.
fn trimmed_end(cs: &Vec<char>, from: usize) -> (end: usize)
    requires
        from <= cs@.len(),
        trim_start(cs@.skip(from as int)) == cs@.skip(from as int),
    ensures
        from <= end <= cs@.len(),
        cs@.subrange(from as int, end as int) == trim(cs@.skip(from as int)),
{
    let mut end = cs.len();
    assert(cs@.subrange(from as int, end as int) =~= cs@.skip(from as int));
    while end > from && is_whitespace_at(cs, end - 1)
        invariant
            from <= end <= cs@.len(),
            trim_end(cs@.subrange(from as int, end as int)) == trim_end(cs@.skip(from as int)),
        decreases end,
    {
        assert(cs@.subrange(from as int, end as int).drop_last() =~= cs@.subrange(
            from as int,
            end - 1,
        ));
        end = end - 1;
    }
    end
}

fn is_whitespace_at(cs: &Vec<char>, i: usize) -> (b: bool)
    requires
        i < cs@.len(),
    ensures
        b == is_ws(cs@[i as int]),
{
    crate::text::is_whitespace(cs[i])
}

} // verus!
