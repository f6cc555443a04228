//! Texts made of parts: plain concatenation, and concatenation with a
//! separator between neighbours.

use vstd::prelude::*;

verus! {

/// The parts one after the other, in order.
pub open spec fn concat(parts: Seq<Seq<char>>) -> Seq<char>
    decreases parts.len(),
{
    if parts.len() == 0 {
        Seq::empty()
    } else {
        concat(parts.drop_last()) + parts.last()
    }
}

/// The parts in order, with `sep` between each two neighbours.
pub open spec fn joined(parts: Seq<Seq<char>>, sep: Seq<char>) -> Seq<char>
    decreases parts.len(),
{
    if parts.len() == 0 {
        Seq::empty()
    } else if parts.len() == 1 {
        parts[0]
    } else {
        joined(parts.drop_last(), sep) + sep + parts.last()
    }
}

/// Where part `i` begins in `concat(parts)`.
pub open spec fn concat_offset(parts: Seq<Seq<char>>, i: int) -> int {
    concat(parts.take(i)).len() as int
}

/// Where part `i` begins in `joined(parts, sep)`.
pub open spec fn joined_offset(parts: Seq<Seq<char>>, sep: Seq<char>, i: int) -> int {
    if i == 0 {
        0
    } else {
        (joined(parts.take(i), sep).len() + sep.len()) as int
    }
}

/// Taking one more part appends that part.
pub proof fn lemma_concat_step(parts: Seq<Seq<char>>, i: int)
    requires
        0 <= i < parts.len(),
    ensures
        concat(parts.take(i + 1)) == concat(parts.take(i)) + parts[i],
{
    assert(parts.take(i + 1).drop_last() == parts.take(i));
}

/// Taking one more part appends that part, after a separator unless it is
/// the first.
pub proof fn lemma_joined_step(parts: Seq<Seq<char>>, sep: Seq<char>, i: int)
    requires
        0 <= i < parts.len(),
    ensures
        joined(parts.take(i + 1), sep) == if i == 0 {
            parts[i]
        } else {
            joined(parts.take(i), sep) + sep + parts[i]
        },
{
    assert(parts.take(i + 1).drop_last() == parts.take(i));
}

/// The concatenation of two runs of parts is the concatenation of the first
/// run followed by that of the second.
pub proof fn lemma_concat_split(a: Seq<Seq<char>>, b: Seq<Seq<char>>)
    ensures
        concat(a + b) == concat(a) + concat(b),
    decreases b.len(),
{
    if b.len() == 0 {
        assert(a + b == a);
    } else {
        lemma_concat_split(a, b.drop_last());
        assert((a + b).drop_last() == a + b.drop_last());
    }
}

/// Every part stands in the concatenation unchanged, and the parts stand in
/// the order of the sequence: part `i` ends before part `j` begins whenever
/// `i` comes before `j`.
pub proof fn lemma_concat_order(parts: Seq<Seq<char>>, i: int, j: int)
    requires
        0 <= i <= j < parts.len(),
    ensures
        concat_offset(parts, j) + parts[j].len() <= concat(parts).len(),
        concat(parts).subrange(
            concat_offset(parts, j),
            concat_offset(parts, j) + parts[j].len(),
        ) == parts[j],
        i < j ==> concat_offset(parts, i) + parts[i].len() <= concat_offset(parts, j),
    decreases parts.len(),
{
    let n = parts.len() as int;
    let init = parts.drop_last();
    assert(parts.take(n) == parts);
    assert(parts.take(n - 1) == init);
    if j < n - 1 {
        lemma_concat_order(init, i, j);
        assert(init.take(j) == parts.take(j));
        assert(init.take(i) == parts.take(i));
        assert(concat(init).subrange(
            concat_offset(parts, j),
            concat_offset(parts, j) + parts[j].len(),
        ) == concat(parts).subrange(
            concat_offset(parts, j),
            concat_offset(parts, j) + parts[j].len(),
        ));
    } else {
        assert(concat(parts).subrange(concat(init).len() as int, concat(parts).len() as int)
            == parts[j]);
        if i < j {
            lemma_concat_order(init, i, i);
            assert(init.take(i) == parts.take(i));
        }
    }
}

/// Every part stands in the joined text unchanged, and the parts stand in
/// the order of the sequence, a separator apart.
pub proof fn lemma_joined_order(parts: Seq<Seq<char>>, sep: Seq<char>, i: int, j: int)
    requires
        0 <= i <= j < parts.len(),
    ensures
        joined_offset(parts, sep, j) + parts[j].len() <= joined(parts, sep).len(),
        joined(parts, sep).subrange(
            joined_offset(parts, sep, j),
            joined_offset(parts, sep, j) + parts[j].len(),
        ) == parts[j],
        i < j ==> joined_offset(parts, sep, i) + parts[i].len() + sep.len() <= joined_offset(
            parts,
            sep,
            j,
        ),
    decreases parts.len(),
{
    let n = parts.len() as int;
    let init = parts.drop_last();
    let whole = joined(parts, sep);
    let start = joined_offset(parts, sep, j);
    assert(parts.take(n) == parts);
    assert(parts.take(n - 1) == init);
    if j < n - 1 {
        lemma_joined_order(init, sep, i, j);
        assert(init.take(j) == parts.take(j));
        assert(init.take(i) == parts.take(i));
        assert(joined(init, sep).subrange(start, start + parts[j].len())
            == whole.subrange(start, start + parts[j].len()));
    } else {
        if n == 1 {
            assert(parts.take(0) == Seq::<Seq<char>>::empty());
            assert(whole.subrange(0, whole.len() as int) == parts[j]);
        } else {
            assert(whole.subrange(start, whole.len() as int) == parts[j]);
        }
        if i < j {
            lemma_joined_order(init, sep, i, i);
            assert(init.take(i) == parts.take(i));
        }
    }
}

} // verus!
