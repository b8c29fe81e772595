//! Character-level helpers: splitting text at a separator and reading
//! unsigned integers written in a given radix.

use vstd::prelude::*;

verus! {

/// The pieces of `s` between occurrences of `sep`, in order; `n` separators
/// give `n + 1` pieces, some possibly empty.
pub open spec fn split_seq(s: Seq<char>, sep: char) -> Seq<Seq<char>>
    decreases s.len(),
{
    if s.len() == 0 {
        seq![Seq::empty()]
    } else {
        let init = split_seq(s.drop_last(), sep);
        if s.last() == sep {
            init.push(Seq::empty())
        } else {
            init.update(init.len() - 1, init.last().push(s.last()))
        }
    }
}

/// The views of a sequence of strings.
pub open spec fn views_of(v: Seq<String>) -> Seq<Seq<char>> {
    v.map_values(|p: String| p@)
}

/// The value of the digit `c` in `radix` (at most 16), if it is one; letters
/// count in either case.
pub open spec fn digit_value(c: char, radix: u32) -> Option<u32> {
    let d: int = if '0' <= c && c <= '9' {
        c as int - '0' as int
    } else if 'a' <= c && c <= 'f' {
        c as int - 'a' as int + 10
    } else if 'A' <= c && c <= 'F' {
        c as int - 'A' as int + 10
    } else {
        radix as int
    };
    if d < radix {
        Some(d as u32)
    } else {
        None
    }
}

/// Whether every character of `s` is a digit in `radix`.
pub open spec fn all_digits(s: Seq<char>, radix: u32) -> bool {
    forall|i: int| 0 <= i < s.len() ==> (#[trigger] digit_value(s[i], radix)) is Some
}

/// The number that the digits `s` write in `radix`, most significant first.
pub open spec fn digits_value(s: Seq<char>, radix: u32) -> int
    decreases s.len(),
{
    if s.len() == 0 {
        0
    } else {
        digits_value(s.drop_last(), radix) * radix + digit_value(s.last(), radix).unwrap() as int
    }
}

/// The number that `s` writes in `radix`, as the standard library reads an
/// unsigned integer: an optional `+`, then one or more digits, and a value
/// that is at most `max`.
pub open spec fn unsigned_value(s: Seq<char>, radix: u32, max: int) -> Option<int> {
    let body = if s.len() > 0 && s[0] == '+' {
        s.drop_first()
    } else {
        s
    };
    if body.len() > 0 && all_digits(body, radix) && digits_value(body, radix) <= max {
        Some(digits_value(body, radix))
    } else {
        None
    }
}

/// Splitting gives at least one piece.
pub proof fn lemma_split_nonempty(s: Seq<char>, sep: char)
    ensures
        split_seq(s, sep).len() >= 1,
    decreases s.len(),
{
    if s.len() > 0 {
        lemma_split_nonempty(s.drop_last(), sep);
    }
}

proof fn lemma_digits_prefix_bound(s: Seq<char>, radix: u32, k: int)
    requires
        0 <= k <= s.len(),
        1 <= radix,
        all_digits(s, radix),
    ensures
        digits_value(s, radix) >= digits_value(s.subrange(0, k), radix) >= 0,
    decreases s.len(),
{
    if s.len() > 0 {
        let init = s.drop_last();
        assert(all_digits(init, radix)) by {
            assert forall|i: int| 0 <= i < init.len() implies (#[trigger] digit_value(
                init[i],
                radix,
            )) is Some by {
                assert(digit_value(s[i], radix) is Some);
            }
        }
        assert(digit_value(s[s.len() - 1], radix) is Some);
        if k == s.len() {
            assert(s.subrange(0, k) =~= s);
            lemma_digits_prefix_bound(init, radix, init.len() as int);
            assert(init.subrange(0, init.len() as int) =~= init);
        } else {
            lemma_digits_prefix_bound(init, radix, k);
            assert(init.subrange(0, k) =~= s.subrange(0, k));
        }
        assert(digits_value(init, radix) * radix >= digits_value(init, radix)) by (nonlinear_arith)
            requires
                digits_value(init, radix) >= 0,
                radix >= 1,
        ;
    }
}

/// The characters of `s`, in order.
pub fn chars_of(s: &str) -> (r: Vec<char>)
    ensures
        r@ == s@,
{
    let mut v: Vec<char> = Vec::new();
    for c in it: s.chars()
        invariant
            v@ == it.seq().subrange(0, it.index() as int),
    {
        v.push(c);
    }
    assert(v@ =~= s@);
    v
}

/// The pieces of `s` between occurrences of `sep`.
pub fn split_at_char(s: &str, sep: char) -> (r: Vec<String>)
    ensures
        views_of(r@) == split_seq(s@, sep),
{
    let chars = chars_of(s);
    let n = chars.len();
    let mut pieces: Vec<String> = Vec::new();
    let mut start: usize = 0;
    let mut i: usize = 0;
    proof {
        assert(s@.subrange(0, 0) =~= Seq::<char>::empty());
        assert(views_of(pieces@).push(s@.subrange(0, 0)) =~= split_seq(s@.subrange(0, 0), sep));
    }
    while i < n
        invariant
            chars@ == s@,
            n == s@.len(),
            start <= i <= n,
            views_of(pieces@).push(s@.subrange(start as int, i as int)) == split_seq(
                s@.subrange(0, i as int),
                sep,
            ),
        decreases n - i,
    {
        let ghost prev = pieces@;
        proof {
            let t = s@.subrange(0, i + 1);
            assert(t.drop_last() =~= s@.subrange(0, i as int));
            assert(t.last() == s@[i as int]);
        }
        if chars[i] == sep {
            pieces.push(s.substring_char(start, i).to_owned());
            proof {
                assert(views_of(pieces@) =~= views_of(prev).push(s@.subrange(start as int, i as int)));
                assert(s@.subrange(i + 1, i + 1) =~= Seq::<char>::empty());
            }
            start = i + 1;
        } else {
            proof {
                assert(s@.subrange(start as int, i + 1) =~= s@.subrange(start as int, i as int).push(
                    s@[i as int],
                ));
                assert(views_of(prev).push(s@.subrange(start as int, i + 1)) =~= views_of(prev).push(
                    s@.subrange(start as int, i as int),
                ).update(views_of(prev).len() as int, s@.subrange(start as int, i + 1)));
            }
        }
        i = i + 1;
    }
    pieces.push(s.substring_char(start, n).to_owned());
    proof {
        assert(s@.subrange(0, n as int) =~= s@);
        assert(views_of(pieces@) =~= views_of(pieces@.drop_last()).push(
            s@.subrange(start as int, n as int),
        ));
    }
    pieces
}

/// Reads the unsigned integer that `s` writes in `radix`, if it is at most
/// `max`: an optional `+`, then one or more digits.
pub fn parse_unsigned(s: &str, radix: u32, max: u128) -> (r: Option<u128>)
    requires
        2 <= radix <= 16,
    ensures
        r matches Some(v) ==> unsigned_value(s@, radix, max as int) == Some(v as int),
        r is None ==> unsigned_value(s@, radix, max as int) is None,
{
    let chars = chars_of(s);
    let n = chars.len();
    let mut i: usize = 0;
    if n > 0 && chars[0] == '+' {
        i = 1;
    }
    let ghost first = i;
    let ghost body = s@.subrange(first as int, n as int);
    proof {
        if first == 1 {
            assert(body =~= s@.drop_first());
        } else {
            assert(body =~= s@);
        }
        assert(body == (if s@.len() > 0 && s@[0] == '+' {
            s@.drop_first()
        } else {
            s@
        }));
    }
    if i == n {
        return None;
    }
    let mut acc: u128 = 0;
    while i < n
        invariant
            chars@ == s@,
            n == s@.len(),
            first <= i <= n,
            first <= 1,
            body == s@.subrange(first as int, n as int),
            body == (if s@.len() > 0 && s@[0] == '+' {
                s@.drop_first()
            } else {
                s@
            }),
            2 <= radix <= 16,
            acc <= max,
            all_digits(s@.subrange(first as int, i as int), radix),
            acc == digits_value(s@.subrange(first as int, i as int), radix),
        decreases n - i,
    {
        let c = chars[i];
        let d: u32 = if '0' <= c && c <= '9' {
            (c as u32) - ('0' as u32)
        } else if 'a' <= c && c <= 'f' {
            (c as u32) - ('a' as u32) + 10
        } else if 'A' <= c && c <= 'F' {
            (c as u32) - ('A' as u32) + 10
        } else {
            radix
        };
        let ghost prefix = s@.subrange(first as int, i as int);
        let ghost next = s@.subrange(first as int, i + 1);
        proof {
            assert(next.drop_last() =~= prefix);
            assert(next.last() == c);
            assert(body[i - first] == c);
        }
        if d >= radix {
            proof {
                assert(digit_value(body[i - first], radix) is None);
                assert(!all_digits(body, radix));
            }
            return None;
        }
        assert(digit_value(c, radix) == Some(d));
        if d as u128 > max || acc > (max - d as u128) / (radix as u128) {
            proof {
                if d <= max {
                    assert(acc * radix + d > max) by (nonlinear_arith)
                        requires
                            acc > (max - d) / (radix as int),
                            radix >= 2,
                            d <= max,
                    ;
                } else {
                    assert(acc * radix >= 0) by (nonlinear_arith)
                        requires
                            acc >= 0,
                            radix >= 2,
                    ;
                }
                assert(all_digits(next, radix)) by {
                    assert forall|j: int| 0 <= j < next.len() implies (#[trigger] digit_value(
                        next[j],
                        radix,
                    )) is Some by {
                        if j < prefix.len() {
                            assert(digit_value(prefix[j], radix) is Some);
                        }
                    }
                }
                assert(digits_value(next, radix) == acc * radix + d);
                if all_digits(body, radix) {
                    lemma_digits_prefix_bound(body, radix, i + 1 - first);
                    assert(body.subrange(0, i + 1 - first) =~= next);
                }
            }
            return None;
        }
        assert(acc * radix + d <= max) by (nonlinear_arith)
            requires
                acc <= (max - d) / (radix as int),
                radix >= 2,
                d <= max,
        ;
        acc = acc * (radix as u128) + d as u128;
        proof {
            assert forall|j: int| 0 <= j < next.len() implies (#[trigger] digit_value(
                next[j],
                radix,
            )) is Some by {
                if j < prefix.len() {
                    assert(digit_value(prefix[j], radix) is Some);
                }
            }
        }
        i = i + 1;
    }
    Some(acc)
}

} // verus!
