//! Lines of a text: where they begin, and how far they are indented.

use vstd::prelude::*;
use crate::join::concat;
use crate::join::joined;
use crate::writer::spaces;

verus! {


/// Position `i` is the first character of a line of `text`.
pub open spec fn is_line_start(text: Seq<char>, i: int) -> bool {
    0 <= i < text.len() && (i == 0 || text[i - 1] == '\n')
}

/// At position `i` of `text` stand at least `n` spaces.
pub open spec fn spaces_at(text: Seq<char>, i: int, n: nat) -> bool {
    i + n <= text.len() && forall|k: int| 0 <= k < n ==> #[trigger] text[i + k] == ' '
}

/// At position `i` of `text` stand exactly `n` spaces: the character after
/// them is no space.
pub open spec fn exactly_spaces_at(text: Seq<char>, i: int, n: nat) -> bool {
    spaces_at(text, i, n) && i + n < text.len() && text[i + n] != ' '
}

/// `text` is empty or ends with a line terminator.
pub open spec fn ends_line(text: Seq<char>) -> bool {
    text.len() > 0 ==> text.last() == '\n'
}

/// `text` is made of whole lines, and each of them begins with at least `n`
/// spaces.
pub open spec fn lines_indented(text: Seq<char>, n: nat) -> bool {
    ends_line(text) && forall|i: int| is_line_start(text, i) ==> spaces_at(text, i, n)
}

/// `text` holds no line terminator.
pub open spec fn no_line_break(text: Seq<char>) -> bool {
    forall|i: int| 0 <= i < text.len() ==> text[i] != '\n'
}

/// Two texts without a line terminator make one without.
pub proof fn lemma_no_break_append(a: Seq<char>, b: Seq<char>)
    requires
        no_line_break(a),
        no_line_break(b),
    ensures
        no_line_break(a + b),
{
    assert forall|i: int| 0 <= i < (a + b).len() implies (a + b)[i] != '\n' by {
        if i < a.len() {
            assert((a + b)[i] == a[i]);
        } else {
            assert((a + b)[i] == b[i - a.len()]);
        }
    }
}

/// Parts without a line terminator, one after the other, make a text
/// without.
pub proof fn lemma_no_break_concat(parts: Seq<Seq<char>>)
    requires
        forall|k: int| 0 <= k < parts.len() ==> no_line_break(#[trigger] parts[k]),
    ensures
        no_line_break(concat(parts)),
    decreases parts.len(),
{
    if parts.len() > 0 {
        lemma_no_break_concat(parts.drop_last());
        lemma_no_break_append(concat(parts.drop_last()), parts.last());
    }
}

/// Parts without a line terminator, joined by a separator without, make a
/// text without.
pub proof fn lemma_no_break_joined(parts: Seq<Seq<char>>, sep: Seq<char>)
    requires
        forall|k: int| 0 <= k < parts.len() ==> no_line_break(#[trigger] parts[k]),
        no_line_break(sep),
    ensures
        no_line_break(joined(parts, sep)),
    decreases parts.len(),
{
    if parts.len() > 1 {
        lemma_no_break_joined(parts.drop_last(), sep);
        lemma_no_break_append(joined(parts.drop_last(), sep), sep);
        lemma_no_break_append(joined(parts.drop_last(), sep) + sep, parts.last());
    }
}

/// Whole lines indented by `n` followed by whole lines indented by `n` are
/// whole lines indented by `n`.
pub proof fn lemma_lines_append(a: Seq<char>, b: Seq<char>, n: nat)
    requires
        lines_indented(a, n),
        lines_indented(b, n),
    ensures
        lines_indented(a + b, n),
{
    let t = a + b;
    assert forall|i: int| is_line_start(t, i) implies spaces_at(t, i, n) by {
        if i < a.len() {
            assert(i > 0 ==> t[i - 1] == a[i - 1]);
            assert(is_line_start(a, i));
            assert forall|k: int| 0 <= k < n implies #[trigger] t[i + k] == ' ' by {
                assert(t[i + k] == a[i + k]);
            }
        } else {
            let j = i - a.len();
            if j > 0 {
                assert(t[i - 1] == b[j - 1]);
            }
            assert(is_line_start(b, j));
            assert forall|k: int| 0 <= k < n implies #[trigger] t[i + k] == ' ' by {
                assert(t[i + k] == b[j + k]);
            }
        }
    }
    if b.len() > 0 {
        assert(t.last() == b.last());
    } else {
        assert(t == a);
    }
}

/// Lines indented by `m` are indented by any `n` that is not more.
pub proof fn lemma_lines_weaken(text: Seq<char>, m: nat, n: nat)
    requires
        lines_indented(text, m),
        n <= m,
    ensures
        lines_indented(text, n),
{
    assert forall|i: int| is_line_start(text, i) implies spaces_at(text, i, n) by {
        assert(spaces_at(text, i, m));
    }
}

/// One line: `n` spaces, a body without a line terminator, and the line
/// terminator.
pub proof fn lemma_single_line(n: nat, body: Seq<char>)
    requires
        no_line_break(body),
    ensures
        lines_indented(spaces(n) + body + seq!['\n'], n),
{
    let t = spaces(n) + body + seq!['\n'];
    assert(t.last() == '\n');
    assert forall|i: int| is_line_start(t, i) implies spaces_at(t, i, n) by {
        if i > 0 {
            if i - 1 < n {
                assert(t[i - 1] == ' ');
            } else {
                assert(t[i - 1] == body[i - 1 - n]);
            }
        }
        assert forall|k: int| 0 <= k < n implies #[trigger] t[i + k] == ' ' by {
            assert(t[k] == spaces(n)[k]);
        }
    }
}

/// A run of parts that are each whole lines indented by `n` is whole lines
/// indented by `n`.
pub proof fn lemma_lines_concat(parts: Seq<Seq<char>>, n: nat)
    requires
        forall|k: int| 0 <= k < parts.len() ==> lines_indented(#[trigger] parts[k], n),
    ensures
        lines_indented(concat(parts), n),
    decreases parts.len(),
{
    if parts.len() > 0 {
        lemma_lines_concat(parts.drop_last(), n);
        lemma_lines_append(concat(parts.drop_last()), parts.last(), n);
    }
}

} // verus!
