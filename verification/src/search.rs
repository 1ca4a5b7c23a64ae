//! Snippets of session text around a search query. Positions are UTF-8
//! byte offsets: the query is found in the lower-cased text, and that
//! offset then cuts the text as it was written.

use vstd::prelude::*;

use crate::platform::push_str;
use crate::text::{chars_of, find_chars, lowercase, occurs_at, opt_view, string_of_range, to_lowercase};

verus! {

/// The number of bytes a character takes in UTF-8.
pub open spec fn char_width(c: char) -> nat {
    let u = c as u32;
    if u < 0x80 {
        1
    } else if u < 0x800 {
        2
    } else if u < 0x10000 {
        3
    } else {
        4
    }
}

/// The number of bytes a text takes in UTF-8.
pub open spec fn utf8_len(s: Seq<char>) -> nat
    decreases s.len(),
{
    if s.len() == 0 {
        0
    } else {
        utf8_len(s.drop_last()) + char_width(s.last())
    }
}

/// The character position at which byte offset `b` of `s` falls between
/// two characters (`None` when it falls inside a character or past the
/// end).
pub open spec fn char_index_of_byte(s: Seq<char>, b: int) -> Option<int> {
    if exists|k: int| 0 <= k <= s.len() && #[trigger] utf8_len(s.take(k)) == b {
        Some(choose|k: int| 0 <= k <= s.len() && #[trigger] utf8_len(s.take(k)) == b)
    } else {
        None
    }
}

/// The first position at which `p` occurs in `s`.
pub open spec fn first_occurrence(s: Seq<char>, p: Seq<char>) -> Option<int> {
    if exists|i: int| #[trigger] occurs_at(s, p, i) {
        Some(choose|i: int| #[trigger] occurs_at(s, p, i) && forall|j: int| 0 <= j < i ==> !occurs_at(s, p, j))
    } else {
        None
    }
}

/// The snippet of `text` around the first match of `query`, both lower
/// cased: from `max_len / 2` bytes before the match to `max_len / 2` bytes
/// after the query's length, cut to the text, with `...` where text was
/// left out. Without a match, the first `max_len` characters. `None` where
/// the cut does not fall between characters of the text or does not fit in
/// a `usize`, on which the plain slicing panics.
pub open spec fn snippet(text: Seq<char>, query: Seq<char>, max_len: nat) -> Option<Seq<char>> {
    let lt = lowercase(text);
    match first_occurrence(lt, lowercase(query)) {
        None => Some(text.take(if max_len < text.len() { max_len as int } else { text.len() as int })),
        Some(i) => {
            let pos = utf8_len(lt.take(i)) as int;
            let half = (max_len / 2) as int;
            let start = if pos >= half { pos - half } else { 0 };
            let reach = pos + utf8_len(query) + half;
            let total = utf8_len(text) as int;
            let end = if reach < total { reach } else { total };
            if reach > usize::MAX || start > end {
                None
            } else {
                match (char_index_of_byte(text, start), char_index_of_byte(text, end)) {
                    (Some(a), Some(b)) => Some(
                        (if start > 0 { "..."@ } else { Seq::empty() }) + text.subrange(a, b) + (if end < total {
                            "..."@
                        } else {
                            Seq::empty()
                        }),
                    ),
                    _ => None,
                }
            }
        },
    }
}

/// Each character widens a text by one to four bytes.
proof fn lemma_take_step(s: Seq<char>, k: int)
    requires
        0 <= k < s.len(),
    ensures
        utf8_len(s.take(k + 1)) == utf8_len(s.take(k)) + char_width(s[k]),
        1 <= char_width(s[k]) <= 4,
{
    assert(s.take(k + 1).drop_last() =~= s.take(k));
}

/// Byte offsets grow strictly with the character position.
proof fn lemma_offsets_grow(s: Seq<char>, a: int, b: int)
    requires
        0 <= a < b <= s.len(),
    ensures
        utf8_len(s.take(a)) < utf8_len(s.take(b)),
    decreases b - a,
{
    lemma_take_step(s, b - 1);
    if a < b - 1 {
        lemma_offsets_grow(s, a, b - 1);
    }
}

/// The UTF-8 width of a character.
fn char_width_of(c: char) -> (w: u128)
    ensures
        w == char_width(c),
{
    let u = c as u32;
    if u < 0x80 {
        1
    } else if u < 0x800 {
        2
    } else if u < 0x10000 {
        3
    } else {
        4
    }
}

/// The UTF-8 length of the first `k` characters.
fn utf8_prefix_len(v: &[char], k: usize) -> (n: u128)
    requires
        k <= v@.len(),
    ensures
        n == utf8_len(v@.take(k as int)),
        n <= 4 * k,
{
    let mut n: u128 = 0;
    let mut i: usize = 0;
    assert(v@.take(0) =~= Seq::<char>::empty());
    while i < k
        invariant
            i <= k <= v@.len(),
            n == utf8_len(v@.take(i as int)),
            n <= 4 * i,
        decreases k - i,
    {
        proof {
            lemma_take_step(v@, i as int);
        }
        n = n + char_width_of(v[i]);
        i = i + 1;
    }
    n
}

/// The character position at byte offset `b`, if it falls between
/// characters.
fn index_of_byte(v: &[char], b: u128) -> (r: Option<usize>)
    ensures
        match r {
            Some(k) => char_index_of_byte(v@, b as int) == Some(k as int),
            None => char_index_of_byte(v@, b as int) is None,
        },
{
    let mut n: u128 = 0;
    let mut k: usize = 0;
    assert(v@.take(0) =~= Seq::<char>::empty());
    while k < v.len() && n < b
        invariant
            k <= v@.len(),
            n == utf8_len(v@.take(k as int)),
            n <= 4 * k,
            forall|j: int| 0 <= j < k ==> #[trigger] utf8_len(v@.take(j)) < b,
        decreases v.len() - k,
    {
        proof {
            lemma_take_step(v@, k as int);
        }
        n = n + char_width_of(v[k]);
        k = k + 1;
    }
    if n == b {
        proof {
            let c = choose|j: int| 0 <= j <= v@.len() && #[trigger] utf8_len(v@.take(j)) == b;
            if c < k {
                assert(utf8_len(v@.take(c)) < b);
            } else if c > k {
                lemma_offsets_grow(v@, k as int, c);
            }
        }
        Some(k)
    } else {
        proof {
            assert forall|j: int| 0 <= j <= v@.len() implies #[trigger] utf8_len(v@.take(j)) != b by {
                if j < k {
                } else if j > k {
                    lemma_offsets_grow(v@, k as int, j);
                }
            }
        }
        None
    }
}

/// The snippet of `text` around `query` (see `snippet`); `None` where the
/// cut does not fall between characters of the text.
pub fn extract_snippet(text: &str, query: &str, max_len: usize) -> (r: Option<String>)
    ensures
        opt_view(r) == snippet(text@, query@, max_len as nat),
{
    let tv = chars_of(text);
    let lt = to_lowercase(text);
    let lq = to_lowercase(query);
    let ltv = chars_of(lt.as_str());
    let lqv = chars_of(lq.as_str());
    match find_chars(ltv.as_slice(), lqv.as_slice(), 0) {
        None => {
            proof {
                assert forall|i: int| !#[trigger] occurs_at(lt@, lq@, i) by {
                    if i < 0 {
                    }
                }
            }
            let n = if max_len < tv.len() {
                max_len
            } else {
                tv.len()
            };
            let s = string_of_range(tv.as_slice(), 0, n);
            assert(tv@.subrange(0, n as int) =~= tv@.take(n as int));
            Some(s)
        },
        Some(i) => {
            proof {
                let c = choose|j: int|
                    #[trigger] occurs_at(lt@, lq@, j) && forall|m: int| 0 <= m < j ==> !occurs_at(lt@, lq@, m);
                assert(occurs_at(lt@, lq@, i as int));
                if c < i {
                    assert(!occurs_at(lt@, lq@, c));
                } else if c > i {
                    assert(!occurs_at(lt@, lq@, i as int));
                }
            }
            let pos = utf8_prefix_len(ltv.as_slice(), i);
            let half = (max_len / 2) as u128;
            let start: u128 = if pos >= half {
                pos - half
            } else {
                0
            };
            let qb = utf8_prefix_len(chars_of(query).as_slice(), query.unicode_len());
            let total = utf8_prefix_len(tv.as_slice(), tv.len());
            proof {
                assert(query@.take(query@.len() as int) =~= query@);
                assert(tv@.take(tv@.len() as int) =~= tv@);
            }
            let reach = pos + qb + half;
            let end = if reach < total {
                reach
            } else {
                total
            };
            if reach > usize::MAX as u128 || start > end {
                return None;
            }
            let a = match index_of_byte(tv.as_slice(), start) {
                Some(a) => a,
                None => return None,
            };
            let b = match index_of_byte(tv.as_slice(), end) {
                Some(b) => b,
                None => return None,
            };
            proof {
                if a > b {
                    lemma_offsets_grow(tv@, b as int, a as int);
                }
            }
            let mut out = String::new();
            if start > 0 {
                push_str(&mut out, "...");
            }
            let middle = string_of_range(tv.as_slice(), a, b);
            push_str(&mut out, middle.as_str());
            if end < total {
                push_str(&mut out, "...");
            }
            proof {
                reveal_strlit("...");
            }
            Some(out)
        },
    }
}

} // verus!
