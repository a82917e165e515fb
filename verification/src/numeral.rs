//! Decimal numerals: the canonical decimal text of a `u64`, and parsing of
//! digit runs, each pinned to a single spec-level representation so that
//! printing and parsing are provably inverse.

use vstd::prelude::*;

verus! {

/// Relies on String::push: appends exactly the one character, documented
/// behaviour of the standard library.
pub assume_specification[ String::push ](s: &mut String, c: char)
    ensures
        final(s)@ == old(s)@.push(c),
;

/// True of the ten ASCII digit characters.
pub open spec fn is_digit_char(c: char) -> bool {
    '0' <= c && c <= '9'
}

/// The numeric value of a digit character; zero on anything else.
pub open spec fn digit_val(c: char) -> nat {
    if is_digit_char(c) {
        (c as int - '0' as int) as nat
    } else {
        0
    }
}

/// The digit character for a value below ten.
pub open spec fn dec_digit(d: int) -> char {
    if d == 0 {
        '0'
    } else if d == 1 {
        '1'
    } else if d == 2 {
        '2'
    } else if d == 3 {
        '3'
    } else if d == 4 {
        '4'
    } else if d == 5 {
        '5'
    } else if d == 6 {
        '6'
    } else if d == 7 {
        '7'
    } else if d == 8 {
        '8'
    } else {
        '9'
    }
}

/// The canonical decimal text of a natural number: no sign, no leading zero.
pub open spec fn dec_rep(n: nat) -> Seq<char>
    decreases n,
{
    if n < 10 {
        seq![dec_digit(n as int)]
    } else {
        dec_rep(n / 10).push(dec_digit((n % 10) as int))
    }
}

/// True when every character of `s` is a digit.
pub open spec fn all_digits(s: Seq<char>) -> bool {
    forall|i: int| 0 <= i < s.len() ==> is_digit_char(#[trigger] s[i])
}

/// The value of a digit run read left to right on top of an accumulator.
pub open spec fn dva(s: Seq<char>, acc: nat) -> nat
    decreases s.len(),
{
    if s.len() == 0 {
        acc
    } else {
        dva(s.skip(1), acc * 10 + digit_val(s[0]))
    }
}

/// The value of a digit run.
pub open spec fn digits_val(s: Seq<char>) -> nat {
    dva(s, 0)
}

/// Reading a single digit multiplies the accumulator by ten and adds it.
pub proof fn lemma_dva_single(c: char, acc: nat)
    ensures
        dva(seq![c], acc) == acc * 10 + digit_val(c),
{
    reveal_with_fuel(dva, 2);
    assert(seq![c].skip(1) =~= Seq::<char>::empty());
}

/// Reading a concatenation is reading the first part, then the second.
pub proof fn lemma_dva_append(a: Seq<char>, b: Seq<char>, acc: nat)
    ensures
        dva(a + b, acc) == dva(b, dva(a, acc)),
    decreases a.len(),
{
    if a.len() == 0 {
        assert(a + b =~= b);
    } else {
        assert((a + b).skip(1) =~= a.skip(1) + b);
        assert((a + b)[0] == a[0]);
        lemma_dva_append(a.skip(1), b, acc * 10 + digit_val(a[0]));
    }
}

/// Reading digits never shrinks the accumulated value.
pub proof fn lemma_dva_lower(s: Seq<char>, acc: nat)
    ensures
        dva(s, acc) >= acc,
    decreases s.len(),
{
    if s.len() > 0 {
        lemma_dva_lower(s.skip(1), acc * 10 + digit_val(s[0]));
    }
}

/// A run whose first digit is not zero has a positive value.
pub proof fn lemma_dva_first_pos(s: Seq<char>)
    requires
        s.len() >= 1,
        is_digit_char(s[0]),
        s[0] != '0',
    ensures
        digits_val(s) >= 1,
{
    lemma_dva_lower(s.skip(1), digit_val(s[0]));
}

/// The canonical text of `n` is all digits, nonempty, has no leading zero,
/// and reads back as `n`.
pub proof fn lemma_dec_rep_digits(n: nat)
    ensures
        all_digits(dec_rep(n)),
        dec_rep(n).len() >= 1,
        n >= 10 ==> dec_rep(n).len() > 1,
        dec_rep(n).len() > 1 ==> dec_rep(n)[0] != '0',
        digits_val(dec_rep(n)) == n,
    decreases n,
{
    if n < 10 {
        assert(dec_rep(n) =~= seq![dec_digit(n as int)]);
        assert(is_digit_char(dec_digit(n as int)));
        lemma_dva_single(dec_digit(n as int), 0);
    } else {
        lemma_dec_rep_digits(n / 10);
        let head = dec_rep(n / 10);
        let d = dec_digit((n % 10) as int);
        assert(dec_rep(n) =~= head + seq![d]);
        lemma_dva_append(head, seq![d], 0);
        assert(digit_val(d) == n % 10);
        lemma_dva_single(d, n / 10);
        assert(dva(seq![d], n / 10) == (n / 10) * 10 + n % 10);
        assert((n / 10) * 10 + n % 10 == n) by (nonlinear_arith);
        assert(n / 10 >= 1);
        if n / 10 < 10 {
            assert(head =~= seq![dec_digit((n / 10) as int)]);
            assert(head[0] == dec_digit((n / 10) as int));
            assert(dec_rep(n)[0] != '0');
        } else {
            assert(head.len() > 1 && head[0] != '0');
            assert(dec_rep(n)[0] == head[0]);
        }
        assert forall|i: int| 0 <= i < dec_rep(n).len() implies is_digit_char(
            #[trigger] dec_rep(n)[i],
        ) by {
            if i < head.len() {
                assert(dec_rep(n)[i] == head[i]);
            } else {
                assert(dec_rep(n)[i] == d);
            }
        }
    }
}

/// A digit character survives the value/digit round trip.
pub proof fn lemma_digit_roundtrip(c: char)
    requires
        is_digit_char(c),
    ensures
        dec_digit(digit_val(c) as int) == c,
{
}

/// A nonempty all-digit run with no leading zero is the canonical text of
/// its own value.
pub proof fn lemma_canonical_digits(d: Seq<char>)
    requires
        d.len() >= 1,
        all_digits(d),
        d.len() > 1 ==> d[0] != '0',
    ensures
        dec_rep(digits_val(d)) == d,
    decreases d.len(),
{
    let c = d.last();
    assert(is_digit_char(c));
    lemma_digit_roundtrip(c);
    if d.len() == 1 {
        assert(d =~= seq![c]);
        assert(digits_val(d) == dva(d.skip(1), digit_val(c)));
        assert(dec_rep(digits_val(d)) =~= d);
    } else {
        let d0 = d.drop_last();
        assert(d =~= d0 + seq![c]);
        lemma_dva_append(d0, seq![c], 0);
        let v0 = digits_val(d0);
        let v = digits_val(d);
        lemma_dva_single(c, v0);
        assert(v == v0 * 10 + digit_val(c));
        assert(d0[0] == d[0]);
        lemma_dva_first_pos(d0);
        assert(v0 >= 1);
        assert(v >= 10) by (nonlinear_arith)
            requires
                v == v0 * 10 + digit_val(c),
                v0 >= 1,
        ;
        assert(v / 10 == v0 && v % 10 == digit_val(c)) by (nonlinear_arith)
            requires
                v == v0 * 10 + digit_val(c),
                digit_val(c) < 10,
        ;
        lemma_canonical_digits(d0);
        assert(dec_rep(v) =~= dec_rep(v0).push(dec_digit(digit_val(c) as int)));
        assert(dec_rep(v) =~= d);
    }
}

/// The digit character for a value below ten, as runtime code.
pub fn dec_digit_exec(d: u64) -> (c: char)
    requires
        d < 10,
    ensures
        c == dec_digit(d as int),
{
    if d == 0 {
        '0'
    } else if d == 1 {
        '1'
    } else if d == 2 {
        '2'
    } else if d == 3 {
        '3'
    } else if d == 4 {
        '4'
    } else if d == 5 {
        '5'
    } else if d == 6 {
        '6'
    } else if d == 7 {
        '7'
    } else if d == 8 {
        '8'
    } else {
        '9'
    }
}

/// Renders `n` as its canonical decimal text.
pub fn u64_to_string(n: u64) -> (s: String)
    ensures
        s@ == dec_rep(n as nat),
    decreases n,
{
    if n < 10 {
        let mut s = String::new();
        s.push(dec_digit_exec(n));
        assert(s@ =~= dec_rep(n as nat));
        s
    } else {
        let mut s = u64_to_string(n / 10);
        s.push(dec_digit_exec(n % 10));
        assert(s@ =~= dec_rep(n as nat));
        s
    }
}

/// Reads the digit run of `s` between `from` and `to` on top of `acc`,
/// refusing any non-digit and any value that overflows a `u64`.
pub fn parse_digits(s: &str, from: usize, to: usize, acc: u64) -> (r: Option<u64>)
    requires
        from <= to <= s@.len(),
    ensures
        match r {
            Some(v) => all_digits(s@.subrange(from as int, to as int)) && dva(
                s@.subrange(from as int, to as int),
                acc as nat,
            ) == v,
            None => !(all_digits(s@.subrange(from as int, to as int)) && dva(
                s@.subrange(from as int, to as int),
                acc as nat,
            ) <= u64::MAX),
        },
    decreases to - from,
{
    let ghost sub = s@.subrange(from as int, to as int);
    if from == to {
        assert(sub =~= Seq::<char>::empty());
        Some(acc)
    } else {
        let c = s.get_char(from);
        let code = c as u32;
        assert(sub[0] == c);
        assert(sub.skip(1) =~= s@.subrange(from + 1, to as int));
        if code < 48 || code > 57 {
            assert(!is_digit_char(c));
            None
        } else {
            assert(is_digit_char(c));
            let d = (code - 48) as u64;
            assert(digit_val(c) == d);
            if acc > (u64::MAX - d) / 10 {
                proof {
                    assert(acc * 10 + d > u64::MAX) by (nonlinear_arith)
                        requires
                            acc > (u64::MAX - d) / 10,
                            d <= 9,
                    ;
                    if all_digits(sub) {
                        lemma_dva_lower(sub.skip(1), (acc * 10 + d) as nat);
                        assert(dva(sub, acc as nat) > u64::MAX);
                    }
                }
                None
            } else {
                proof {
                    assert(acc * 10 + d <= u64::MAX) by (nonlinear_arith)
                        requires
                            acc <= (u64::MAX - d) / 10,
                            d <= 9,
                    ;
                }
                let r = parse_digits(s, from + 1, to, acc * 10 + d);
                proof {
                    if all_digits(sub.skip(1)) && is_digit_char(c) {
                        assert(all_digits(sub)) by {
                            assert forall|i: int| 0 <= i < sub.len() implies is_digit_char(
                                #[trigger] sub[i],
                            ) by {
                                if i > 0 {
                                    assert(sub[i] == sub.skip(1)[i - 1]);
                                }
                            }
                        }
                    }
                    if all_digits(sub) {
                        assert(all_digits(sub.skip(1))) by {
                            assert forall|i: int| 0 <= i < sub.skip(1).len() implies is_digit_char(
                                #[trigger] sub.skip(1)[i],
                            ) by {
                                assert(sub.skip(1)[i] == sub[i + 1]);
                            }
                        }
                    }
                }
                r
            }
        }
    }
}

/// The run that a decimal text denotes for `u64` parsing: an optional
/// leading plus sign, then at least one digit, with no overflow.
pub open spec fn parse_u64_spec(s: Seq<char>) -> Option<u64> {
    let body = if s.len() >= 1 && s[0] == '+' {
        s.skip(1)
    } else {
        s
    };
    if body.len() >= 1 && all_digits(body) && digits_val(body) <= u64::MAX {
        Some(digits_val(body) as u64)
    } else {
        None
    }
}

/// Parses a whole string as a decimal `u64`, accepting exactly an optional
/// leading plus sign followed by one or more digits whose value fits.
pub fn parse_u64(s: &str) -> (r: Option<u64>)
    ensures
        r == parse_u64_spec(s@),
{
    let len = s.unicode_len();
    let start: usize = if len >= 1 && s.get_char(0) == '+' {
        1
    } else {
        0
    };
    let ghost body = if s@.len() >= 1 && s@[0] == '+' {
        s@.skip(1)
    } else {
        s@
    };
    assert(body =~= s@.subrange(start as int, len as int));
    if start == len {
        None
    } else {
        parse_digits(s, start, len, 0)
    }
}

} // verus!
