//! Character-level helpers shared by the version parsers and formatters:
//! decimal digits, the `u8` grammar accepted by `u8::from_str`, and the
//! positions of a separator character in a string.
use vstd::prelude::*;

verus! {

/// An ASCII decimal digit.
pub open spec fn is_digit(c: char) -> bool {
    '0' <= c && c <= '9'
}

/// The numeric value of a digit character.
pub open spec fn digit_value(c: char) -> nat {
    (c as int - '0' as int) as nat
}

/// The character that writes the digit `d` (for `d < 10`).
pub open spec fn digit_char(d: nat) -> char {
    if d == 0 {
        '0'
    } else if d == 1 {
        '1'
    } else if d == 2 {
        '2'
    } else if d == 3 {
        '3'
    } else if d == 4 {
        '4'
    } else if d == 5 {
        '5'
    } else if d == 6 {
        '6'
    } else if d == 7 {
        '7'
    } else if d == 8 {
        '8'
    } else {
        '9'
    }
}

pub open spec fn all_digits(s: Seq<char>) -> bool {
    forall|i: int| 0 <= i < s.len() ==> #[trigger] is_digit(s[i])
}

/// The value of a string of decimal digits, most significant digit first.
pub open spec fn digits_value(s: Seq<char>) -> nat
    decreases s.len(),
{
    if s.len() == 0 {
        0
    } else {
        digits_value(s.drop_last()) * 10 + digit_value(s.last())
    }
}

/// The digits after an optional leading `+`, as `u8::from_str` reads them.
pub open spec fn unsigned_body(s: Seq<char>) -> Seq<char> {
    if s.len() > 0 && s[0] == '+' {
        s.drop_first()
    } else {
        s
    }
}

/// What `u8::from_str` returns: an optional `+` followed by at least one
/// decimal digit, whose value fits in a `u8`.
pub open spec fn parse_u8_spec(s: Seq<char>) -> Option<u8> {
    let body = unsigned_body(s);
    if body.len() > 0 && all_digits(body) && digits_value(body) <= 255 {
        Some(digits_value(body) as u8)
    } else {
        None
    }
}

/// The shortest decimal writing of `n`.
pub open spec fn dec_u8(n: u8) -> Seq<char> {
    if n < 10 {
        seq![digit_char(n as nat)]
    } else if n < 100 {
        seq![digit_char((n / 10) as nat), digit_char((n % 10) as nat)]
    } else {
        seq![
            digit_char((n / 100) as nat),
            digit_char(((n / 10) % 10) as nat),
            digit_char((n % 10) as nat),
        ]
    }
}

/// The decimal writing of `n`, without leading zeros.
pub open spec fn dec_nat(n: nat) -> Seq<char>
    decreases n,
{
    if n < 10 {
        seq![digit_char(n)]
    } else {
        dec_nat(n / 10).push(digit_char(n % 10))
    }
}

/// Indices (left to right) at which `c` occurs in `s`.
pub open spec fn positions_of(s: Seq<char>, c: char) -> Seq<int>
    decreases s.len(),
{
    if s.len() == 0 {
        Seq::empty()
    } else if s.last() == c {
        positions_of(s.drop_last(), c).push(s.len() - 1)
    } else {
        positions_of(s.drop_last(), c)
    }
}

pub proof fn lemma_digit_char(d: nat)
    requires
        d < 10,
    ensures
        is_digit(digit_char(d)),
        digit_value(digit_char(d)) == d,
{
}

pub proof fn lemma_dec_u8_digits(n: u8)
    ensures
        1 <= dec_u8(n).len() <= 3,
        all_digits(dec_u8(n)),
        digits_value(dec_u8(n)) == n,
        dec_u8(n)[0] != '+',
{
    let s = dec_u8(n);
    lemma_digit_char((n % 10) as nat);
    if n < 10 {
        assert(s.drop_last() =~= Seq::<char>::empty());
        assert(digits_value(s.drop_last()) == 0);
    } else if n < 100 {
        lemma_digit_char((n / 10) as nat);
        let a = s.drop_last();
        assert(a =~= seq![digit_char((n / 10) as nat)]);
        assert(a.drop_last() =~= Seq::<char>::empty());
        assert(digits_value(a.drop_last()) == 0);
        assert(digits_value(a) == n / 10);
        assert((n / 10) * 10 + n % 10 == n) by (nonlinear_arith);
    } else {
        lemma_digit_char(((n / 10) % 10) as nat);
        lemma_digit_char((n / 100) as nat);
        let a = s.drop_last();
        assert(a =~= seq![digit_char((n / 100) as nat), digit_char(((n / 10) % 10) as nat)]);
        assert(a.drop_last() =~= seq![digit_char((n / 100) as nat)]);
        assert(a.drop_last().drop_last() =~= Seq::<char>::empty());
        assert(digits_value(a.drop_last().drop_last()) == 0);
        assert(digits_value(a.drop_last()) == n / 100);
        assert(digits_value(a) == (n / 100) * 10 + (n / 10) % 10);
        assert((n / 100) * 10 + (n / 10) % 10 == n / 10) by (nonlinear_arith)
            requires
                n < 256,
        ;
        assert((n / 10) * 10 + n % 10 == n) by (nonlinear_arith);
    }
}

/// Reading back the decimal writing of a byte gives the byte.
pub proof fn lemma_parse_dec_u8(n: u8)
    ensures
        parse_u8_spec(dec_u8(n)) == Some(n),
{
    lemma_dec_u8_digits(n);
}

pub proof fn lemma_positions_in_range(s: Seq<char>, c: char)
    ensures
        forall|k: int|
            0 <= k < positions_of(s, c).len() ==> 0 <= #[trigger] positions_of(s, c)[k] < s.len()
                && s[positions_of(s, c)[k]] == c,
    decreases s.len(),
{
    if s.len() > 0 {
        let p = positions_of(s.drop_last(), c);
        lemma_positions_in_range(s.drop_last(), c);
        assert forall|k: int| 0 <= k < p.len() implies 0 <= #[trigger] p[k] < s.len() && s[p[k]] == c by {
            assert(s.drop_last()[p[k]] == s[p[k]]);
        }
    }
}

/// Every occurrence of `c` is among its positions.
pub proof fn lemma_positions_complete(s: Seq<char>, c: char, i: int)
    requires
        0 <= i < s.len(),
        s[i] == c,
    ensures
        positions_of(s, c).contains(i),
    decreases s.len(),
{
    if i < s.len() - 1 {
        lemma_positions_complete(s.drop_last(), c, i);
        let p = positions_of(s.drop_last(), c);
        let k = choose|k: int| 0 <= k < p.len() && p[k] == i;
        if s.last() == c {
            assert(positions_of(s, c)[k] == i);
        } else {
            assert(positions_of(s, c)[k] == i);
        }
    } else {
        assert(positions_of(s, c).last() == i);
    }
}

/// A string without `c` has no positions of `c`.
pub proof fn lemma_positions_none(s: Seq<char>, c: char)
    requires
        forall|i: int| 0 <= i < s.len() ==> s[i] != c,
    ensures
        positions_of(s, c) =~= Seq::<int>::empty(),
    decreases s.len(),
{
    if s.len() > 0 {
        lemma_positions_none(s.drop_last(), c);
    }
}

/// The positions of `c` in a concatenation are those of the left part
/// followed by those of the right part, shifted.
pub proof fn lemma_positions_concat(a: Seq<char>, b: Seq<char>, c: char)
    ensures
        positions_of(a + b, c) =~= positions_of(a, c) + positions_of(b, c).map_values(
            |p: int| p + a.len(),
        ),
    decreases b.len(),
{
    if b.len() == 0 {
        assert(a + b =~= a);
    } else {
        assert((a + b).drop_last() =~= a + b.drop_last());
        lemma_positions_concat(a, b.drop_last(), c);
    }
}

/// Appends a character to a string.
///
/// Calls `String::push`, which the standard library documents as appending
/// the given char to the end of the string.
#[verifier::external_body]
pub fn string_push(s: &mut String, c: char)
    ensures
        final(s)@ == old(s)@.push(c),
{
    s.push(c);
}

/// Reads a `u8` the way `u8::from_str` does: an optional `+`, then decimal
/// digits whose value is at most 255.
pub fn parse_u8_str(s: &str) -> (r: Option<u8>)
    ensures
        r == parse_u8_spec(s@),
{
    let len = s.unicode_len();
    let start: usize = if len > 0 && s.get_char(0) == '+' {
        1
    } else {
        0
    };
    let ghost body = unsigned_body(s@);
    assert(body =~= s@.subrange(start as int, len as int));
    if start == len {
        return None;
    }
    let mut acc: u32 = 0;
    let mut i: usize = start;
    while i < len
        invariant
            start <= i <= len,
            len == s@.len(),
            body =~= s@.subrange(start as int, len as int),
            body == unsigned_body(s@),
            forall|k: int| start <= k < i ==> #[trigger] is_digit(s@[k]),
            acc == (if digits_value(s@.subrange(start as int, i as int)) < 256 {
                digits_value(s@.subrange(start as int, i as int))
            } else {
                256
            }),
        decreases len - i,
    {
        let c = s.get_char(i);
        if !('0' <= c && c <= '9') {
            assert(body[i - start] == s@[i as int]);
            assert(!is_digit(body[i - start]));
            assert(!all_digits(body));
            return None;
        }
        let d: u32 = (c as u32) - ('0' as u32);
        let ghost prev = s@.subrange(start as int, i as int);
        let ghost next = s@.subrange(start as int, i + 1);
        assert(next.drop_last() =~= prev);
        assert(digits_value(next) == digits_value(prev) * 10 + d);
        if acc >= 256 {
            assert(digits_value(next) >= 256) by (nonlinear_arith)
                requires
                    digits_value(next) == digits_value(prev) * 10 + d,
                    digits_value(prev) >= 256,
            ;
            acc = 256;
        } else {
            let v = acc * 10 + d;
            acc = if v >= 256 {
                256
            } else {
                v
            };
        }
        i = i + 1;
    }
    assert(s@.subrange(start as int, len as int) =~= body);
    assert(all_digits(body)) by {
        assert forall|k: int| 0 <= k < body.len() implies #[trigger] is_digit(body[k]) by {
            assert(body[k] == s@[k + start]);
        }
    }
    if acc >= 256 {
        None
    } else {
        Some(acc as u8)
    }
}

/// Appends the shortest decimal writing of `n`.
pub fn push_dec_u8(out: &mut String, n: u8)
    ensures
        final(out)@ == old(out)@ + dec_u8(n),
{
    if n >= 100 {
        string_push(out, digit_to_char(n / 100));
    }
    if n >= 10 {
        string_push(out, digit_to_char((n / 10) % 10));
    }
    string_push(out, digit_to_char(n % 10));
    assert(final(out)@ =~= old(out)@ + dec_u8(n));
}

/// Appends the decimal writing of `n`.
pub fn push_dec_u128(out: &mut String, n: u128)
    ensures
        final(out)@ == old(out)@ + dec_nat(n as nat),
    decreases n,
{
    if n >= 10 {
        push_dec_u128(out, n / 10);
    }
    string_push(out, digit_to_char((n % 10) as u8));
    assert(final(out)@ =~= old(out)@ + dec_nat(n as nat));
}

/// The decimal writing of `n` as a new string.
pub fn dec_u8_string(n: u8) -> (r: String)
    ensures
        r@ == dec_u8(n),
{
    let mut out = String::new();
    push_dec_u8(&mut out, n);
    assert(out@ =~= dec_u8(n));
    out
}

fn digit_to_char(d: u8) -> (c: char)
    requires
        d < 10,
    ensures
        c == digit_char(d as nat),
{
    match d {
        0 => '0',
        1 => '1',
        2 => '2',
        3 => '3',
        4 => '4',
        5 => '5',
        6 => '6',
        7 => '7',
        8 => '8',
        _ => '9',
    }
}

/// The indices at which `c` occurs in `s`, left to right.
pub fn char_positions(s: &str, c: char) -> (r: Vec<usize>)
    ensures
        r@.map_values(|p: usize| p as int) =~= positions_of(s@, c),
{
    let len = s.unicode_len();
    let mut r: Vec<usize> = Vec::new();
    let mut i: usize = 0;
    while i < len
        invariant
            i <= len,
            len == s@.len(),
            r@.map_values(|p: usize| p as int) =~= positions_of(s@.take(i as int), c),
        decreases len - i,
    {
        let ghost before = r@;
        assert(s@.take(i + 1).drop_last() =~= s@.take(i as int));
        if s.get_char(i) == c {
            r.push(i);
            assert(r@.map_values(|p: usize| p as int) =~= before.map_values(|p: usize| p as int).push(
                i as int,
            ));
        }
        i = i + 1;
    }
    assert(s@.take(len as int) =~= s@);
    r
}

} // verus!
