use vstd::prelude::*;
use crate::pair::{
    ParseField,
    is_first,
    is_space,
    pair_value,
    split_at_first,
    trim_end,
    trim_start,
    trimmed,
};

verus! {

/// Trimming the front leaves a suffix of the text.
proof fn lemma_trim_start_suffix(s: Seq<char>)
    ensures
        trim_start(s).len() <= s.len(),
        trim_start(s) =~= s.subrange(s.len() - trim_start(s).len(), s.len() as int),
    decreases s.len(),
{
    if s.len() > 0 && is_space(s[0]) {
        lemma_trim_start_suffix(s.drop_first());
    }
}

/// Trimming the back leaves a prefix of the text.
proof fn lemma_trim_end_prefix(s: Seq<char>)
    ensures
        trim_end(s).len() <= s.len(),
        trim_end(s) =~= s.subrange(0, trim_end(s).len() as int),
    decreases s.len(),
{
    if s.len() > 0 && is_space(s.last()) {
        lemma_trim_end_prefix(s.drop_last());
    }
}

/// Every character of the trimmed text occurs in the text.
proof fn lemma_trimmed_within(s: Seq<char>, i: int)
    requires
        0 <= i < trimmed(s).len(),
    ensures
        s.contains(trimmed(s)[i]),
{
    let a = trim_start(s);
    lemma_trim_start_suffix(s);
    lemma_trim_end_prefix(a);
    let k = s.len() - a.len() + i;
    assert(trimmed(s)[i] == a[i]);
    assert(s[k] == a[i]);
}

/// White space in front of the text is dropped by `trim_start`.
proof fn lemma_trim_start_spaces(pre: Seq<char>, x: Seq<char>)
    requires
        forall|i: int| 0 <= i < pre.len() ==> is_space(pre[i]),
    ensures
        trim_start(pre + x) == trim_start(x),
    decreases pre.len(),
{
    if pre.len() > 0 {
        assert((pre + x).drop_first() =~= pre.drop_first() + x);
        lemma_trim_start_spaces(pre.drop_first(), x);
    } else {
        assert(pre + x =~= x);
    }
}

/// White space behind the text is dropped by `trim_end`.
proof fn lemma_trim_end_spaces(x: Seq<char>, post: Seq<char>)
    requires
        forall|i: int| 0 <= i < post.len() ==> is_space(post[i]),
    ensures
        trim_end(x + post) == trim_end(x),
    decreases post.len(),
{
    if post.len() > 0 {
        assert((x + post).drop_last() =~= x + post.drop_last());
        lemma_trim_end_spaces(x, post.drop_last());
    } else {
        assert(x + post =~= x);
    }
}

/// Once `x` holds a character that is no white space, `trim_start` stops
/// inside it.
proof fn lemma_trim_start_stops(x: Seq<char>, y: Seq<char>, k: int)
    requires
        0 <= k < x.len(),
        !is_space(x[k]),
    ensures
        trim_start(x + y) == trim_start(x) + y,
    decreases x.len(),
{
    if is_space(x[0]) {
        assert((x + y).drop_first() =~= x.drop_first() + y);
        lemma_trim_start_stops(x.drop_first(), y, k - 1);
    }
}

/// The text holds no `sep`, so it is no pair.
pub proof fn lemma_missing_separator<T: ParseField>(s: Seq<char>, sep: char)
    requires
        !s.contains(sep),
    ensures
        pair_value::<T>(s, sep) is None,
{
    let t = trimmed(s);
    if exists|i: int| is_first(t, sep, i) {
        let i = choose|i: int| is_first(t, sep, i);
        lemma_trimmed_within(s, i);
    }
}

/// A field on either side of the first `sep` that is empty, or holds no
/// value, makes the text no pair.
pub proof fn lemma_bad_field<T: ParseField>(s: Seq<char>, sep: char)
    requires
        split_at_first(trimmed(s), sep) matches Some((left, right)) && (left.len() == 0
            || right.len() == 0 || T::field_value(left) is None || T::field_value(right) is None),
    ensures
        pair_value::<T>(s, sep) is None,
{
    T::lemma_empty_field();
    let (left, right) = split_at_first(trimmed(s), sep)->0;
    if left.len() == 0 {
        assert(left =~= Seq::empty());
    }
    if right.len() == 0 {
        assert(right =~= Seq::empty());
    }
}

/// `<left><sep><right>`, with no white space at its ends, no `sep` in
/// `left` and a value in each field, is read as the pair of those values.
pub proof fn lemma_well_formed<T: ParseField>(left: Seq<char>, right: Seq<char>, sep: char)
    requires
        !left.contains(sep),
        T::field_value(left) is Some,
        T::field_value(right) is Some,
        !is_space(left[0]),
        !is_space(right.last()),
    ensures
        pair_value::<T>(left + seq![sep] + right, sep) == Some(
            (T::field_value(left)->0, T::field_value(right)->0),
        ),
{
    T::lemma_empty_field();
    if left.len() == 0 {
        assert(left =~= Seq::empty());
    }
    if right.len() == 0 {
        assert(right =~= Seq::empty());
    }
    let s = left + seq![sep] + right;
    assert(s[0] == left[0]);
    assert(s.last() == right.last());
    assert(trim_start(s) == s);
    assert(trim_end(s) == s);
    let n = left.len() as int;
    assert forall|j: int| 0 <= j < n implies s[j] != sep by {
        assert(s[j] == left[j]);
    }
    assert(is_first(s, sep, n));
    let k = choose|k: int| is_first(s, sep, k);
    assert(k == n) by {
        if k < n {
            assert(s[k] != sep);
        } else if k > n {
            assert(s[n] != sep);
        }
    }
    assert(s.subrange(0, n) =~= left);
    assert(s.subrange(n + 1, s.len() as int) =~= right);
}

/// White space before and after the text does not change what is read.
pub proof fn lemma_outer_space<T: ParseField>(
    pre: Seq<char>,
    s: Seq<char>,
    post: Seq<char>,
    sep: char,
)
    requires
        forall|i: int| 0 <= i < pre.len() ==> is_space(pre[i]),
        forall|i: int| 0 <= i < post.len() ==> is_space(post[i]),
    ensures
        pair_value::<T>(pre + s + post, sep) == pair_value::<T>(s, sep),
{
    assert(pre + s + post =~= pre + (s + post));
    lemma_trim_start_spaces(pre, s + post);
    if exists|k: int| 0 <= k < s.len() && !is_space(s[k]) {
        let k = choose|k: int| 0 <= k < s.len() && !is_space(s[k]);
        lemma_trim_start_stops(s, post, k);
        lemma_trim_end_spaces(trim_start(s), post);
    } else {
        assert(s + post =~= s + post + Seq::empty());
        lemma_trim_start_spaces(s + post, Seq::empty());
        lemma_trim_start_spaces(s, Seq::empty());
        assert(s + Seq::<char>::empty() =~= s);
        assert(s + post + Seq::<char>::empty() =~= s + post);
        assert(trim_start(Seq::<char>::empty()) == Seq::<char>::empty());
    }
    assert(trimmed(pre + s + post) == trimmed(s));
}

} // verus!
