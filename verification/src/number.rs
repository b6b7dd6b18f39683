//! Decimal numbers: reading them from text and writing them.

use vstd::prelude::*;

verus! {

/// Whether `c` is one of `0` to `9`.
pub open spec fn is_digit(c: char) -> bool {
    '0' <= c && c <= '9'
}

/// The value of a decimal digit.
pub open spec fn digit_value(c: char) -> int {
    c as int - '0' as int
}

/// The digit that stands for `d`, for `d` below ten.
pub open spec fn digit_char(d: int) -> char {
    ('0' as int + d) as char
}

/// Whether every character of `s` is a decimal digit.
pub open spec fn all_digits(s: Seq<char>) -> bool {
    forall|i: int| 0 <= i < s.len() ==> is_digit(#[trigger] s[i])
}

/// The number that a sequence of digits denotes.
pub open spec fn digits_value(s: Seq<char>) -> int
    decreases s.len(),
{
    if s.len() == 0 {
        0
    } else {
        digits_value(s.drop_last()) * 10 + digit_value(s.last())
    }
}

/// The number that an unsigned numeral denotes: an optional `+`, then at least
/// one digit and nothing else.
pub open spec fn unsigned_number(s: Seq<char>) -> Option<int> {
    let digits = if s.len() > 0 && s[0] == '+' {
        s.skip(1)
    } else {
        s
    };
    if digits.len() > 0 && all_digits(digits) {
        Some(digits_value(digits))
    } else {
        None
    }
}

/// The number that a signed numeral denotes: an optional `+` or `-`, then at
/// least one digit and nothing else.
pub open spec fn signed_number(s: Seq<char>) -> Option<int> {
    if s.len() > 0 && s[0] == '-' {
        let digits = s.skip(1);
        if digits.len() > 0 && all_digits(digits) {
            Some(-digits_value(digits))
        } else {
            None
        }
    } else {
        unsigned_number(s)
    }
}

/// `v` where it lies between `lo` and `hi`.
pub open spec fn within(v: Option<int>, lo: int, hi: int) -> Option<int> {
    match v {
        Some(n) => if lo <= n <= hi {
            Some(n)
        } else {
            None
        },
        None => None,
    }
}

/// Digits never denote a negative number, and a longer run of digits never
/// denotes a smaller one.
pub proof fn digits_grow(s: Seq<char>, i: int)
    requires
        all_digits(s),
        0 <= i <= s.len(),
    ensures
        0 <= digits_value(s.take(i)) <= digits_value(s),
    decreases s.len(),
{
    if i == s.len() {
        assert(s.take(i) =~= s);
        if s.len() > 0 {
            assert(all_digits(s.drop_last()));
            digits_grow(s.drop_last(), s.len() - 1);
            assert(s.drop_last().take(s.len() - 1) =~= s.drop_last());
            assert(is_digit(s[s.len() - 1]));
        }
    } else {
        assert(all_digits(s.drop_last()));
        digits_grow(s.drop_last(), i);
        assert(s.drop_last().take(i) =~= s.take(i));
        assert(is_digit(s[s.len() - 1]));
    }
}

/// The value of the digits `cs[from..]`, where there is at least one, all are
/// digits and the value is at most `max`.
pub fn parse_digits(cs: &Vec<char>, from: usize, max: u64) -> (r: Option<u64>)
    requires
        from <= cs@.len(),
    ensures
        match r {
            Some(v) => {
                &&& from < cs@.len()
                &&& all_digits(cs@.skip(from as int))
                &&& v == digits_value(cs@.skip(from as int))
                &&& v <= max
            },
            None => from == cs@.len() || !all_digits(cs@.skip(from as int)) || digits_value(
                cs@.skip(from as int),
            ) > max,
        },
{
    let n: usize = cs.len();
    if from == n {
        return None;
    }
    let ghost digits = cs@.skip(from as int);
    let mut acc: u64 = 0;
    let mut i: usize = from;
    assert(digits.take(0) =~= Seq::<char>::empty());
    while i < n
        invariant
            n == cs@.len(),
            from <= i <= n,
            digits == cs@.skip(from as int),
            forall|j: int| 0 <= j < i - from ==> is_digit(#[trigger] digits[j]),
            acc == digits_value(digits.take(i - from)),
            acc <= max,
        decreases n - i,
    {
        let c: char = cs[i];
        assert(digits[i - from] == c);
        if !('0' <= c && c <= '9') {
            assert(!is_digit(digits[i - from]));
            return None;
        }
        let d: u64 = (c as u32 - '0' as u32) as u64;
        let next: u128 = acc as u128 * 10 + d as u128;
        proof {
            assert(digits.take(i - from + 1).drop_last() =~= digits.take(i - from));
            assert(digits.take(i - from + 1).last() == c);
            assert(next == digits_value(digits.take(i - from + 1)));
        }
        if next > max as u128 {
            proof {
                if all_digits(digits) {
                    digits_grow(digits, i - from + 1);
                }
            }
            return None;
        }
        acc = next as u64;
        i = i + 1;
    }
    assert(digits.take(n - from) =~= digits);
    Some(acc)
}

/// Reads an `i64` numeral, as `str::parse` does.
pub fn parse_i64(cs: &Vec<char>) -> (r: Option<i64>)
    ensures
        match r {
            Some(v) => within(signed_number(cs@), i64::MIN as int, i64::MAX as int) == Some(
                v as int,
            ),
            None => within(signed_number(cs@), i64::MIN as int, i64::MAX as int) is None,
        },
{
    if cs.len() == 0 {
        return None;
    }
    let c: char = cs[0];
    assert(cs@.skip(0) =~= cs@);
    if c == '-' {
        let m: Option<u64> = parse_digits(cs, 1, 0x8000_0000_0000_0000);
        proof {
            if all_digits(cs@.skip(1)) {
                digits_grow(cs@.skip(1), 0);
            }
        }
        match m {
            Some(v) => if v == 0x8000_0000_0000_0000 {
                Some(i64::MIN)
            } else {
                Some(-(v as i64))
            },
            None => None,
        }
    } else {
        let from: usize = if c == '+' {
            1
        } else {
            0
        };
        let m: Option<u64> = parse_digits(cs, from, 0x7fff_ffff_ffff_ffff);
        match m {
            Some(v) => Some(v as i64),
            None => {
                proof {
                    if all_digits(cs@.skip(from as int)) {
                        digits_grow(cs@.skip(from as int), 0);
                    }
                }
                None
            },
        }
    }
}

/// Reads a `u32` numeral, as `str::parse` does.
pub fn parse_u32(cs: &Vec<char>) -> (r: Option<u32>)
    ensures
        match r {
            Some(v) => within(unsigned_number(cs@), 0, u32::MAX as int) == Some(v as int),
            None => within(unsigned_number(cs@), 0, u32::MAX as int) is None,
        },
{
    if cs.len() == 0 {
        return None;
    }
    assert(cs@.skip(0) =~= cs@);
    let from: usize = if cs[0] == '+' {
        1
    } else {
        0
    };
    let m: Option<u64> = parse_digits(cs, from, 0xffff_ffff);
    proof {
        if all_digits(cs@.skip(from as int)) {
            digits_grow(cs@.skip(from as int), 0);
        }
    }
    match m {
        Some(v) => Some(v as u32),
        None => None,
    }
}

/// The decimal numeral of `n`, without leading zeros.
pub open spec fn decimal_text(n: int) -> Seq<char>
    decreases n,
{
    if n < 10 {
        seq![digit_char(n)]
    } else {
        decimal_text(n / 10).push(digit_char(n % 10))
    }
}

/// The decimal numeral of an integer, with a leading `-` where it is negative.
pub open spec fn integer_text(n: int) -> Seq<char> {
    if n < 0 {
        seq!['-'] + decimal_text(-n)
    } else {
        decimal_text(n)
    }
}

/// `s` behind as many zeros as bring it to `width` characters.
pub open spec fn zero_padded(s: Seq<char>, width: int) -> Seq<char>
    decreases width - s.len(),
{
    if s.len() >= width {
        s
    } else {
        zero_padded(seq!['0'] + s, width)
    }
}

/// The decimal numeral of `n`.
pub fn decimal(n: u64) -> (r: String)
    ensures
        r@ == decimal_text(n as int),
    decreases n,
{
    let d: u8 = (n % 10) as u8;
    let c: char = (48 + d) as char;
    assert(c == digit_char(n as int % 10));
    if n < 10 {
        let mut out = String::new();
        out.push(c);
        assert(out@ =~= decimal_text(n as int));
        out
    } else {
        let mut out = decimal(n / 10);
        out.push(c);
        out
    }
}

/// The decimal numeral of an integer.
pub fn integer(n: i64) -> (r: String)
    ensures
        r@ == integer_text(n as int),
{
    if n >= 0 {
        decimal(n as u64)
    } else {
        let m: u64 = if n == i64::MIN {
            0x8000_0000_0000_0000
        } else {
            (-n) as u64
        };
        proof {
            reveal_strlit("-");
            assert("-"@ =~= seq!['-']);
        }
        crate::text::join2("-", decimal(m).as_str())
    }
}

/// The decimal numeral of `n` behind zeros, to at least `width` characters.
pub fn padded(n: u64, width: usize) -> (r: String)
    ensures
        r@ == zero_padded(decimal_text(n as int), width as int),
{
    let digits = decimal(n);
    let mut cs = crate::text::chars_of(digits.as_str());
    while cs.len() < width
        invariant
            zero_padded(cs@, width as int) == zero_padded(decimal_text(n as int), width as int),
        decreases width - cs@.len(),
    {
        let ghost before = cs@;
        cs.insert(0, '0');
        assert(cs@ =~= seq!['0'] + before);
    }
    crate::text::string_of(&cs)
}

// ---------------------------------------------------------------------------
// Reading back what was written
// ---------------------------------------------------------------------------

/// A decimal numeral is made of digits, and they denote the number it was made
/// from.
pub proof fn decimal_reads_back(n: int)
    requires
        n >= 0,
    ensures
        all_digits(decimal_text(n)),
        decimal_text(n).len() >= 1,
        digits_value(decimal_text(n)) == n,
    decreases n,
{
    if n >= 10 {
        decimal_reads_back(n / 10);
        assert(decimal_text(n).drop_last() =~= decimal_text(n / 10));
        assert(digits_value(decimal_text(n)) == n);
    } else {
        let one = seq![digit_char(n)];
        assert(one.drop_last() =~= Seq::<char>::empty());
        assert(digits_value(one.drop_last()) == 0);
    }
}

/// Distinct numbers have distinct decimal numerals.
pub proof fn decimal_injective(a: int, b: int)
    requires
        a >= 0,
        b >= 0,
        decimal_text(a) == decimal_text(b),
    ensures
        a == b,
{
    decimal_reads_back(a);
    decimal_reads_back(b);
}

/// Leading zeros change neither what the digits denote nor that they are
/// digits.
pub proof fn zero_padded_reads_back(s: Seq<char>, width: int)
    requires
        all_digits(s),
    ensures
        all_digits(zero_padded(s, width)),
        digits_value(zero_padded(s, width)) == digits_value(s),
        zero_padded(s, width).len() == if s.len() >= width {
            s.len() as int
        } else {
            width
        },
    decreases width - s.len(),
{
    if s.len() < width {
        let t = seq!['0'] + s;
        leading_zero(s);
        assert(all_digits(t));
        zero_padded_reads_back(t, width);
    }
}

/// One leading zero does not change what the digits denote.
pub proof fn leading_zero(s: Seq<char>)
    ensures
        digits_value(seq!['0'] + s) == digits_value(s),
    decreases s.len(),
{
    let t = seq!['0'] + s;
    if s.len() == 0 {
        assert(t.drop_last() =~= Seq::<char>::empty());
        assert(digits_value(t.drop_last()) == 0);
    } else {
        leading_zero(s.drop_last());
        assert(t.drop_last() =~= seq!['0'] + s.drop_last());
    }
}

/// Numerals read back: what is written for an integer is read as that integer,
/// and a non-negative one may be read with a plus sign in front.
pub proof fn integers_read_back(n: int)
    ensures
        signed_number(integer_text(n)) == Some(n),
        n >= 0 ==> unsigned_number(integer_text(n)) == Some(n),
        n >= 0 ==> signed_number(seq!['+'] + integer_text(n)) == Some(n),
        n >= 0 ==> unsigned_number(seq!['+'] + integer_text(n)) == Some(n),
{
    let a = if n < 0 {
        -n
    } else {
        n
    };
    let t = decimal_text(a);
    decimal_reads_back(a);
    assert(is_digit(t[0]));
    assert((seq!['+'] + t).skip(1) =~= t);
    assert((seq!['-'] + t).skip(1) =~= t);
}

/// Only numerals are read: a text that is read as a number is a sign or none, then
/// at least one digit and nothing but digits; an unsigned numeral has no minus and
/// denotes no negative number.
pub proof fn only_numerals_are_read(s: Seq<char>)
    ensures
        signed_number(s) is Some ==> s.len() > 0 && (is_digit(s[0]) || ((s[0] == '+' || s[0] == '-')
            && s.len() > 1)),
        signed_number(s) is Some ==> forall|i: int| 0 < i < s.len() ==> is_digit(#[trigger] s[i]),
        unsigned_number(s) is Some ==> s.len() > 0 && s[0] != '-' && signed_number(s)
            == unsigned_number(s) && unsigned_number(s)->0 >= 0,
        s.len() > 0 && all_digits(s) ==> unsigned_number(s) is Some,
{
    if signed_number(s) is Some {
        let digits = s.skip(1);
        if s[0] == '+' || s[0] == '-' {
            assert forall|i: int| 0 < i < s.len() implies is_digit(#[trigger] s[i]) by {
                assert(is_digit(digits[i - 1]));
            }
        }
    }
    if unsigned_number(s) is Some {
        let digits = if s[0] == '+' {
            s.skip(1)
        } else {
            s
        };
        digits_grow(digits, 0);
        if s[0] == '-' {
            assert(is_digit(s[0]));
        }
    }
    if s.len() > 0 && all_digits(s) {
        assert(is_digit(s[0]));
    }
}

/// Digits have their places: one more digit behind a numeral makes ten times the
/// number and the digit, each digit counts from `0`, and a minus negates.
pub proof fn digits_have_places(s: Seq<char>, c: char)
    requires
        s.len() > 0,
        all_digits(s),
        '0' <= c <= '9',
    ensures
        signed_number(s.push(c)) == Some(10 * signed_number(s)->0 + (c as int - 48)),
        signed_number(seq![c]) == Some(c as int - 48),
        signed_number(seq!['-'] + s) == Some(-signed_number(s)->0),
        unsigned_number(s) == signed_number(s),
{
    let t = s.push(c);
    assert(t.drop_last() =~= s);
    assert(is_digit(s[0]));
    assert(is_digit(t[0]));
    assert(all_digits(t));
    assert(all_digits(seq![c]));
    assert(seq![c].drop_last() =~= Seq::<char>::empty());
    assert(digits_value(seq![c].drop_last()) == 0);
    assert((seq!['-'] + s).skip(1) =~= s);
}

/// A bound keeps the numbers that it admits, both ends included, and no others.
pub proof fn bounds_are_inclusive(n: int, lo: int, hi: int)
    ensures
        lo <= n && n <= hi ==> within(Some(n), lo, hi) == Some(n),
        n < lo || hi < n ==> within(Some(n), lo, hi) is None,
        within(None, lo, hi) is None,
{
}

/// A numeral has no leading zero but that of zero itself, and a minus exactly if
/// the number is negative.
pub proof fn numerals_are_shortest(n: int)
    ensures
        n > 0 ==> integer_text(n)[0] != '0',
        n == 0 ==> integer_text(n) == seq!['0'],
        n < 0 ==> integer_text(n)[0] == '-' && integer_text(n)[1] != '0',
        n >= 0 ==> integer_text(n) == decimal_text(n),
{
    if n > 0 {
        positive_numerals(n);
    } else if n < 0 {
        positive_numerals(-n);
        assert(integer_text(n)[1] == decimal_text(-n)[0]);
    } else {
        assert(integer_text(0) =~= seq!['0']);
    }
}

proof fn positive_numerals(n: int)
    requires
        n > 0,
    ensures
        decimal_text(n).len() > 0,
        decimal_text(n)[0] != '0',
    decreases n,
{
    if n >= 10 {
        positive_numerals(n / 10);
    }
}

/// Padding puts zeros in front of a text and nothing else, and only where the text
/// is too short.
pub proof fn padding_puts_zeros_in_front(s: Seq<char>, width: int, i: int)
    ensures
        ({
            let p = zero_padded(s, width);
            &&& s.len() >= width ==> p == s
            &&& s.len() < width ==> p.len() == width
            &&& p.len() >= s.len()
            &&& p.skip(p.len() - s.len()) == s
            &&& 0 <= i < p.len() - s.len() ==> p[i] == '0'
        }),
    decreases width - s.len(),
{
    if s.len() < width {
        let t = seq!['0'] + s;
        padding_puts_zeros_in_front(t, width, i);
        let p = zero_padded(s, width);
        assert(p.skip(p.len() - t.len()) == t);
        assert(p.skip(p.len() - s.len()) =~= t.skip(1));
        assert(t.skip(1) =~= s);
        if i == p.len() - t.len() {
            assert(p.skip(p.len() - t.len())[0] == t[0]);
        }
    } else {
        assert(s.skip(0) =~= s);
    }
}

} // verus!
