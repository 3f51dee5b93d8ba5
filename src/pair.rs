use vstd::prelude::*;

verus! {

/// The characters with the Unicode `White_Space` property.
pub open spec fn is_space(c: char) -> bool {
    let v = c as u32;
    (9 <= v && v <= 13) || v == 32 || v == 0x85 || v == 0xa0 || v == 0x1680 || (0x2000 <= v && v
        <= 0x200a) || v == 0x2028 || v == 0x2029 || v == 0x202f || v == 0x205f || v == 0x3000
}

/// `s` without its leading white space.
pub open spec fn trim_start(s: Seq<char>) -> Seq<char>
    decreases s.len(),
{
    if s.len() > 0 && is_space(s[0]) {
        trim_start(s.drop_first())
    } else {
        s
    }
}

/// `s` without its trailing white space.
pub open spec fn trim_end(s: Seq<char>) -> Seq<char>
    decreases s.len(),
{
    if s.len() > 0 && is_space(s.last()) {
        trim_end(s.drop_last())
    } else {
        s
    }
}

/// `s` without white space at either end.
pub open spec fn trimmed(s: Seq<char>) -> Seq<char> {
    trim_end(trim_start(s))
}

/// `i` is the position of the first `sep` in `s`.
pub open spec fn is_first(s: Seq<char>, sep: char, i: int) -> bool {
    0 <= i < s.len() && s[i] == sep && forall|j: int| 0 <= j < i ==> s[j] != sep
}

/// The text before and after the first `sep` in `s`, if `s` holds one.
pub open spec fn split_at_first(s: Seq<char>, sep: char) -> Option<(Seq<char>, Seq<char>)> {
    if exists|i: int| is_first(s, sep, i) {
        let i = choose|i: int| is_first(s, sep, i);
        Some((s.subrange(0, i), s.subrange(i + 1, s.len() as int)))
    } else {
        None
    }
}

/// Relies on `str::trim`: the input without leading and trailing white
/// space, as `char::is_whitespace` tells it.
#[verifier::external_body]
fn trim_text(s: &str) -> (r: &str)
    ensures
        r@ == trimmed(s@),
{
    s.trim()
}

/// Splits the trimmed text at the first `separator`: the fields on either
/// side of it, or `None` when the separator does not occur.
pub fn split_pair(s: &str, separator: char) -> (r: Option<(&str, &str)>)
    ensures
        r is Some <==> split_at_first(trimmed(s@), separator) is Some,
        r matches Some((a, b)) ==> split_at_first(trimmed(s@), separator) == Some((a@, b@)),
{
    let t = trim_text(s);
    let n = t.unicode_len();
    let mut i: usize = 0;
    while i < n
        invariant
            t@ == trimmed(s@),
            n == t@.len(),
            i <= n,
            forall|j: int| 0 <= j < i ==> t@[j] != separator,
        decreases n - i,
    {
        if t.get_char(i) == separator {
            proof {
                assert(is_first(t@, separator, i as int));
                assert(exists|k: int| is_first(t@, separator, k));
                let k = choose|k: int| is_first(t@, separator, k);
                assert(k == i as int) by {
                    if k < i {
                        assert(t@[k] != separator);
                    } else if k > i {
                        assert(t@[i as int] != separator);
                    }
                }
            }
            let left = t.substring_char(0, i);
            let right = t.substring_char(i + 1, n);
            assert(split_at_first(t@, separator) == Some(
                (t@.subrange(0, i as int), t@.subrange(i + 1, n as int)),
            ));
            return Some((left, right));
        }
        i = i + 1;
    }
    assert(!exists|k: int| is_first(t@, separator, k));
    None
}

/// `c` is an ASCII decimal digit.
pub open spec fn is_digit(c: char) -> bool {
    48 <= c as u32 && c as u32 <= 57
}

/// A non-empty run of decimal digits.
pub open spec fn is_digit_run(d: Seq<char>) -> bool {
    d.len() > 0 && forall|i: int| 0 <= i < d.len() ==> is_digit(d[i])
}

/// The number that a run of decimal digits denotes.
pub open spec fn digits_value(d: Seq<char>) -> int
    decreases d.len(),
{
    if d.len() == 0 {
        0
    } else {
        10 * digits_value(d.drop_last()) + (d.last() as u32 - 48)
    }
}

/// A decimal integer with an optional `+` or `-` sign.
pub open spec fn signed_decimal(s: Seq<char>) -> Option<int> {
    if s.len() > 0 && (s[0] == '+' || s[0] == '-') {
        if is_digit_run(s.drop_first()) {
            if s[0] == '-' {
                Some(-digits_value(s.drop_first()))
            } else {
                Some(digits_value(s.drop_first()))
            }
        } else {
            None
        }
    } else if is_digit_run(s) {
        Some(digits_value(s))
    } else {
        None
    }
}

/// A decimal natural with an optional `+` sign.
pub open spec fn unsigned_decimal(s: Seq<char>) -> Option<int> {
    if s.len() > 0 && s[0] == '+' {
        if is_digit_run(s.drop_first()) {
            Some(digits_value(s.drop_first()))
        } else {
            None
        }
    } else if is_digit_run(s) {
        Some(digits_value(s))
    } else {
        None
    }
}

/// A value that can be read from the text of one field. No value is read
/// from an empty field.
pub trait ParseField: Sized {
    /// The value that `text` denotes, if it denotes one.
    spec fn field_value(text: Seq<char>) -> Option<Self>;

    proof fn lemma_empty_field()
        ensures
            Self::field_value(Seq::empty()) is None,
    ;

    fn parse_field(text: &str) -> (r: Option<Self>)
        ensures
            r == Self::field_value(text@),
    ;
}

/// Relies on `i32`'s `FromStr`: an optional sign and decimal digits, the
/// value in range, nothing else.
#[verifier::external_body]
fn parse_i32(text: &str) -> (r: Option<i32>)
    ensures
        r == (match signed_decimal(text@) {
            Some(v) => if i32::MIN <= v <= i32::MAX {
                Some(v as i32)
            } else {
                None
            },
            None => None,
        }),
{
    text.parse::<i32>().ok()
}

/// Relies on `usize`'s `FromStr`: an optional `+` and decimal digits, the
/// value in range, nothing else.
#[verifier::external_body]
fn parse_usize(text: &str) -> (r: Option<usize>)
    ensures
        r == (match unsigned_decimal(text@) {
            Some(v) => if v <= usize::MAX {
                Some(v as usize)
            } else {
                None
            },
            None => None,
        }),
{
    text.parse::<usize>().ok()
}

impl ParseField for i32 {
    open spec fn field_value(text: Seq<char>) -> Option<i32> {
        match signed_decimal(text) {
            Some(v) => if i32::MIN <= v <= i32::MAX {
                Some(v as i32)
            } else {
                None
            },
            None => None,
        }
    }

    proof fn lemma_empty_field() {
    }

    fn parse_field(text: &str) -> (r: Option<i32>) {
        parse_i32(text)
    }
}

impl ParseField for usize {
    open spec fn field_value(text: Seq<char>) -> Option<usize> {
        match unsigned_decimal(text) {
            Some(v) => if v <= usize::MAX {
                Some(v as usize)
            } else {
                None
            },
            None => None,
        }
    }

    proof fn lemma_empty_field() {
    }

    fn parse_field(text: &str) -> (r: Option<usize>) {
        parse_usize(text)
    }
}

/// What `parse_pair` reads from `s`: both fields around the first `sep` of
/// the trimmed text, when each of them holds a value.
pub open spec fn pair_value<T: ParseField>(s: Seq<char>, sep: char) -> Option<(T, T)> {
    match split_at_first(trimmed(s), sep) {
        None => None,
        Some((left, right)) => match (T::field_value(left), T::field_value(right)) {
            (Some(a), Some(b)) => Some((a, b)),
            _ => None,
        },
    }
}

/// Parses `s` as a coordinate pair such as `600x400` or `-1,1`: the text,
/// trimmed, is split at the first `separator`, and each side is read as a
/// `T`. `None` when the separator is missing or either side is no `T`.
pub fn parse_pair<T: ParseField>(s: &str, separator: char) -> (r: Option<(T, T)>)
    ensures
        r == pair_value::<T>(s@, separator),
{
    match split_pair(s, separator) {
        None => None,
        Some((left, right)) => match (T::parse_field(left), T::parse_field(right)) {
            (Some(a), Some(b)) => Some((a, b)),
            _ => None,
        },
    }
}

} // verus!
