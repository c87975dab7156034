use crate::text::push_char;
use vstd::prelude::*;

verus! {

// ---------------------------------------------------------------------------
// Rendering
// ---------------------------------------------------------------------------

/// The uppercase hexadecimal digit for `d < 16`.
pub open spec fn hex_char(d: nat) -> char {
    if d < 10 {
        (('0' as u8) + d) as char
    } else {
        (('A' as u8) + (d - 10)) as char
    }
}

/// The minimal uppercase hexadecimal rendering of `n` (`"0"` for zero).
pub open spec fn hex_upper(n: nat) -> Seq<char>
    decreases n,
{
    if n < 16 {
        seq![hex_char(n)]
    } else {
        hex_upper(n / 16).push(hex_char(n % 16))
    }
}

fn hex_digit_char(d: u32) -> (c: char)
    requires
        d < 16,
    ensures
        c == hex_char(d as nat),
{
    if d < 10 {
        ((48u8 + d as u8) as char)
    } else {
        ((65u8 + (d - 10) as u8) as char)
    }
}

/// Appends the minimal uppercase hexadecimal rendering of `n`.
pub fn push_hex_upper(s: &mut String, n: u32)
    ensures
        final(s)@ == old(s)@ + hex_upper(n as nat),
    decreases n,
{
    if n >= 16 {
        push_hex_upper(s, n / 16);
    }
    push_char(s, hex_digit_char(n % 16));
    assert(final(s)@ =~= old(s)@ + hex_upper(n as nat));
}

// ---------------------------------------------------------------------------
// Parsing, as `from_str_radix(_, 16)` does for unsigned integers
// ---------------------------------------------------------------------------

/// The value of a hexadecimal digit of either case.
pub open spec fn hex_digit_value(c: char) -> Option<nat> {
    if '0' <= c <= '9' {
        Some((c as u32 - '0' as u32) as nat)
    } else if 'a' <= c <= 'f' {
        Some((c as u32 - 'a' as u32 + 10) as nat)
    } else if 'A' <= c <= 'F' {
        Some((c as u32 - 'A' as u32 + 10) as nat)
    } else {
        None
    }
}

pub open spec fn all_hex(s: Seq<char>) -> bool {
    forall|i: int| 0 <= i < s.len() ==> (#[trigger] hex_digit_value(s[i])) is Some
}

/// The value of a sequence of hexadecimal digits, most significant first.
pub open spec fn hex_value(s: Seq<char>) -> nat
    decreases s.len(),
{
    if s.len() == 0 {
        0
    } else {
        hex_value(s.drop_last()) * 16 + hex_digit_value(s.last()).unwrap_or(0)
    }
}

/// The digits of an unsigned number: a single leading `+` is allowed.
pub open spec fn unsigned_digits(s: Seq<char>) -> Seq<char> {
    if s.len() > 0 && s[0] == '+' {
        s.drop_first()
    } else {
        s
    }
}

/// The number that `s` spells in hexadecimal, if it is one and at most `max`.
pub open spec fn parse_hex(s: Seq<char>, max: nat) -> Option<nat> {
    let d = unsigned_digits(s);
    if d.len() > 0 && all_hex(d) && hex_value(d) <= max {
        Some(hex_value(d))
    } else {
        None
    }
}

fn digit_value(c: char) -> (r: Option<u32>)
    ensures
        r matches Some(v) ==> v < 16 && hex_digit_value(c) == Some(v as nat),
        r is None ==> hex_digit_value(c) is None,
{
    if '0' <= c && c <= '9' {
        Some(c as u32 - '0' as u32)
    } else if 'a' <= c && c <= 'f' {
        Some(c as u32 - 'a' as u32 + 10)
    } else if 'A' <= c && c <= 'F' {
        Some(c as u32 - 'A' as u32 + 10)
    } else {
        None
    }
}

/// A longer run of digits never has a smaller value.
proof fn lemma_hex_value_prefix(s: Seq<char>, i: int)
    requires
        0 <= i <= s.len(),
        all_hex(s),
    ensures
        hex_value(s.subrange(0, i)) <= hex_value(s),
    decreases s.len(),
{
    if i < s.len() {
        assert(s.drop_last().subrange(0, i) =~= s.subrange(0, i));
        assert(all_hex(s.drop_last())) by {
            assert forall|j: int| 0 <= j < s.drop_last().len() implies (#[trigger] hex_digit_value(
                s.drop_last()[j],
            )) is Some by {
                assert(s.drop_last()[j] == s[j]);
            }
        }
        lemma_hex_value_prefix(s.drop_last(), i);
    } else {
        assert(s.subrange(0, i) =~= s);
    }
}

/// Parses the chars of `v` from `lo` up to `hi` as a hexadecimal number of at most `max`.
pub fn parse_hex_range(v: &Vec<char>, lo: usize, hi: usize, max: u32) -> (r: Option<u32>)
    requires
        lo <= hi <= v@.len(),
    ensures
        r matches Some(n) ==> parse_hex(v@.subrange(lo as int, hi as int), max as nat) == Some(
            n as nat,
        ),
        r is None ==> parse_hex(v@.subrange(lo as int, hi as int), max as nat) is None,
{
    let ghost s = v@.subrange(lo as int, hi as int);
    let mut start = lo;
    if lo < hi && v[lo] == '+' {
        start = lo + 1;
    }
    let ghost d = unsigned_digits(s);
    assert(d =~= v@.subrange(start as int, hi as int));
    if start == hi {
        return None;
    }
    let mut acc: u32 = 0;
    let mut i = start;
    while i < hi
        invariant
            lo <= start <= i <= hi <= v@.len(),
            d == v@.subrange(start as int, hi as int),
            d == unsigned_digits(s),
            s == v@.subrange(lo as int, hi as int),
            all_hex(d.subrange(0, i - start)),
            acc as nat == hex_value(d.subrange(0, i - start)),
            acc <= max,
        decreases hi - i,
    {
        let c = v[i];
        match digit_value(c) {
            None => {
                assert(d[i - start] == c);
                assert(hex_digit_value(d[i - start]) is None);
                assert(!all_hex(d));
                assert(parse_hex(s, max as nat) is None);
                return None;
            },
            Some(dv) => {
                let ghost pre = d.subrange(0, i - start);
                let ghost next = d.subrange(0, i - start + 1);
                assert(next.drop_last() =~= pre);
                assert(next.last() == c);
                assert(all_hex(next)) by {
                    assert forall|j: int| 0 <= j < next.len() implies (#[trigger] hex_digit_value(
                        next[j],
                    )) is Some by {
                        if j < pre.len() {
                            assert(next[j] == pre[j]);
                        }
                    }
                }
                assert(hex_value(next) == hex_value(pre) * 16 + dv);
                if dv > max || acc > (max - dv) / 16 {
                    proof {
                        assert(acc * 16 + dv > max) by (nonlinear_arith)
                            requires
                                dv > max || acc > (max - dv) / 16,
                        ;
                        assert(hex_value(next) > max as nat);
                        if all_hex(d) {
                            lemma_hex_value_prefix(d, i - start + 1);
                        }
                        assert(parse_hex(s, max as nat) is None);
                    }
                    return None;
                }
                assert(acc * 16 + dv <= max) by (nonlinear_arith)
                    requires
                        dv <= max,
                        acc <= (max - dv) / 16,
                ;
                acc = acc * 16 + dv;
                i = i + 1;
            },
        }
    }
    assert(d.subrange(0, i - start) =~= d);
    Some(acc)
}

/// Rendering a number and parsing it back gives the number.
pub proof fn lemma_parse_hex_upper(n: nat, max: nat)
    requires
        n <= max,
    ensures
        parse_hex(hex_upper(n), max) == Some(n),
{
    lemma_hex_upper_digits(n);
}

proof fn lemma_hex_char_value(d: nat)
    requires
        d < 16,
    ensures
        hex_digit_value(hex_char(d)) == Some(d),
        '0' <= hex_char(d) <= '9' || 'A' <= hex_char(d) <= 'F',
{
}

/// Each char of a rendering is a digit or an uppercase letter up to `F`.
pub proof fn lemma_hex_upper_chars(n: nat, i: int)
    requires
        0 <= i < hex_upper(n).len(),
    ensures
        '0' <= hex_upper(n)[i] <= '9' || 'A' <= hex_upper(n)[i] <= 'F',
{
    lemma_hex_upper_digits(n);
}

proof fn lemma_hex_upper_digits(n: nat)
    ensures
        hex_upper(n).len() > 0,
        hex_upper(n)[0] != '+',
        all_hex(hex_upper(n)),
        hex_value(hex_upper(n)) == n,
        forall|i: int|
            0 <= i < hex_upper(n).len() ==> ('0' <= #[trigger] hex_upper(n)[i] <= '9' || 'A'
                <= hex_upper(n)[i] <= 'F'),
    decreases n,
{
    lemma_hex_char_value(n % 16);
    if n < 16 {
        assert(hex_upper(n).drop_last() =~= Seq::<char>::empty());
        assert(hex_value(Seq::<char>::empty()) == 0);
    } else {
        lemma_hex_upper_digits(n / 16);
        let s = hex_upper(n);
        assert(s.drop_last() =~= hex_upper(n / 16));
        assert forall|i: int| 0 <= i < s.len() implies (#[trigger] hex_digit_value(s[i])) is Some
            && ('0' <= s[i] <= '9' || 'A' <= s[i] <= 'F') by {
            if i < s.len() - 1 {
                assert(s[i] == hex_upper(n / 16)[i]);
            }
        }
    }
}

} // verus!
