//! Character-level facts about strings, and the few string functions of std
//! that the crate calls.

use vstd::prelude::*;
use vstd::utf8::is_ascii_chars;

verus! {

/// The characters of each string of a list.
pub open spec fn texts(list: Seq<String>) -> Seq<Seq<char>> {
    list.map_values(|s: String| s@)
}

/// The characters of an optional string.
pub open spec fn opt_text(s: Option<String>) -> Option<Seq<char>> {
    match s {
        Some(t) => Some(t@),
        None => None,
    }
}

/// Unicode's `White_Space` property.
pub open spec fn is_white_space(c: char) -> bool {
    ||| '\u{9}' <= c <= '\u{d}'
    ||| c == '\u{20}'
    ||| c == '\u{85}'
    ||| c == '\u{a0}'
    ||| c == '\u{1680}'
    ||| '\u{2000}' <= c <= '\u{200a}'
    ||| c == '\u{2028}'
    ||| c == '\u{2029}'
    ||| c == '\u{202f}'
    ||| c == '\u{205f}'
    ||| c == '\u{3000}'
}

/// `s` without the white space at either end.
pub open spec fn trimmed(s: Seq<char>) -> Seq<char>
    decreases s.len(),
{
    if s.len() == 0 {
        s
    } else if is_white_space(s.first()) {
        trimmed(s.drop_first())
    } else if is_white_space(s.last()) {
        trimmed(s.drop_last())
    } else {
        s
    }
}

/// `s` is empty or white space throughout.
pub open spec fn is_blank(s: Seq<char>) -> bool {
    forall|i: int| 0 <= i < s.len() ==> is_white_space(#[trigger] s[i])
}

/// A string is blank exactly when nothing is left of it after trimming.
pub proof fn lemma_blank_trims_to_nothing(s: Seq<char>)
    ensures
        is_blank(s) <==> trimmed(s).len() == 0,
    decreases s.len(),
{
    if s.len() > 0 {
        if is_white_space(s.first()) {
            let rest = s.drop_first();
            lemma_blank_trims_to_nothing(rest);
            assert(forall|i: int| 0 <= i < rest.len() ==> rest[i] == s[i + 1]);
            assert(forall|i: int| 1 <= i < s.len() ==> #[trigger] s[i] == rest[i - 1]);
        } else {
            assert(!is_white_space(s[0]));
            if is_white_space(s.last()) {
                let rest = s.drop_last();
                lemma_blank_trims_to_nothing(rest);
                assert(rest[0] == s[0]);
            }
        }
    }
}

/// Trimming leaves a stretch of the string, from which no end can be trimmed
/// further.
pub proof fn lemma_trimmed_ends(s: Seq<char>)
    ensures
        trimmed(s).len() > 0 ==> !is_white_space(trimmed(s).first()) && !is_white_space(
            trimmed(s).last(),
        ),
        is_ascii_chars(s) ==> is_ascii_chars(trimmed(s)),
    decreases s.len(),
{
    if s.len() > 0 {
        if is_white_space(s.first()) {
            lemma_trimmed_ends(s.drop_first());
        } else if is_white_space(s.last()) {
            lemma_trimmed_ends(s.drop_last());
        }
    }
}

/// The ASCII lower case of a character; only `A` to `Z` change.
pub open spec fn ascii_lower(c: char) -> char {
    if 'A' <= c <= 'Z' {
        (c as u8 + 32) as char
    } else {
        c
    }
}

/// `s` with every ASCII letter in lower case.
pub open spec fn ascii_lowercase(s: Seq<char>) -> Seq<char> {
    s.map_values(|c: char| ascii_lower(c))
}

/// What [`str::to_lowercase`] makes of a string that is not all ASCII.
pub uninterp spec fn unicode_lowercase(s: Seq<char>) -> Seq<char>;

/// `s` in lower case.
pub open spec fn lowercase(s: Seq<char>) -> Seq<char> {
    if is_ascii_chars(s) {
        ascii_lowercase(s)
    } else {
        unicode_lowercase(s)
    }
}

/// [`str::trim`] drops the leading and trailing characters that have Unicode's
/// `White_Space` property, and nothing else.
pub assume_specification[ str::trim ](s: &str) -> (r: &str)
    ensures
        r@ == trimmed(s@),
;

/// [`str::to_ascii_lowercase`] maps the letters `A` to `Z` to `a` to `z` and
/// leaves every other character as it is.
pub assume_specification[ str::to_ascii_lowercase ](s: &str) -> (r: String)
    ensures
        r@ == ascii_lowercase(s@),
;

/// [`str::to_lowercase`] is a function of the characters alone. On ASCII text
/// it lower-cases letter by letter; for the rest it follows Unicode's case
/// mapping, which is only named here.
pub assume_specification[ str::to_lowercase ](s: &str) -> (r: String)
    ensures
        !is_ascii_chars(s@) ==> r@ == unicode_lowercase(s@),
        is_ascii_chars(s@) ==> r@ == ascii_lowercase(s@),
;

/// [`String::push`] appends one character.
pub assume_specification[ String::push ](s: &mut String, c: char)
    ensures
        final(s)@ == old(s)@.push(c),
;

/// Whether `s` is empty or white space throughout.
pub fn blank(s: &str) -> (r: bool)
    ensures
        r == is_blank(s@),
{
    proof {
        lemma_blank_trims_to_nothing(s@);
    }
    s.trim().is_empty()
}

/// `a` comes before `b` in lexicographic order of code points.
pub open spec fn precedes(a: Seq<char>, b: Seq<char>) -> bool {
    exists|n: int| #[trigger] splits_before(a, b, n)
}

/// `a` and `b` agree on their first `n` characters, and then `a` ends first or
/// goes on with the smaller character.
pub open spec fn splits_before(a: Seq<char>, b: Seq<char>, n: int) -> bool {
    &&& 0 <= n <= a.len()
    &&& n < b.len()
    &&& a.take(n) == b.take(n)
    &&& n == a.len() || a[n] < b[n]
}

/// Whether `a` comes before `b` in lexicographic order of code points, which
/// is the order that std gives to strings.
pub fn text_precedes(a: &str, b: &str) -> (r: bool)
    ensures
        r == precedes(a@, b@),
{
    let mut left = a.chars();
    let mut right = b.chars();
    let ghost mut n: int = 0;
    loop
        invariant
            0 <= n <= a@.len(),
            n <= b@.len(),
            a@.take(n) == b@.take(n),
            vstd::std_specs::iter::IteratorSpec::obeys_prophetic_iter_laws(&left),
            vstd::std_specs::iter::IteratorSpec::obeys_prophetic_iter_laws(&right),
            vstd::std_specs::iter::IteratorSpec::remaining(&left) == a@.skip(n),
            vstd::std_specs::iter::IteratorSpec::remaining(&right) == b@.skip(n),
        decreases a@.len() - n,
    {
        let x = left.next();
        let y = right.next();
        match (x, y) {
            (_, None) => {
                assert forall|k: int| !splits_before(a@, b@, k) by {
                    if splits_before(a@, b@, k) {
                        assert(a@[k] == a@.take(n)[k] && b@[k] == b@.take(n)[k]);
                    }
                }
                return false;
            },
            (None, Some(_)) => {
                assert(splits_before(a@, b@, n));
                return true;
            },
            (Some(c), Some(d)) => {
                assert(c == a@[n] && d == b@[n]);
                if c < d {
                    assert(splits_before(a@, b@, n));
                    return true;
                }
                if c != d {
                    assert forall|k: int| !splits_before(a@, b@, k) by {
                        if splits_before(a@, b@, k) {
                            if k < n {
                                assert(a@[k] == a@.take(n)[k] && b@[k] == b@.take(n)[k]);
                            } else if k > n {
                                assert(a@.take(k)[n] == b@.take(k)[n]);
                            }
                        }
                    }
                    return false;
                }
                proof {
                    assert(a@.take(n + 1) =~= a@.take(n).push(c));
                    assert(b@.take(n + 1) =~= b@.take(n).push(d));
                    assert(a@.skip(n).drop_first() =~= a@.skip(n + 1));
                    assert(b@.skip(n).drop_first() =~= b@.skip(n + 1));
                    n = n + 1;
                }
            },
        }
    }
}

} // verus!
