//! Numbers as text: decimal and hexadecimal digits, read and written.
use vstd::arithmetic::div_mod;
use vstd::prelude::*;

verus! {

/// Whether `c` is one of the ten decimal digits.
pub open spec fn is_digit(c: char) -> bool {
    '0' <= c <= '9'
}

/// The number that the decimal digits of `s` stand for.
pub open spec fn digits_value(s: Seq<char>) -> nat
    decreases s.len(),
{
    if s.len() == 0 {
        0
    } else {
        digits_value(s.drop_last()) * 10 + (s.last() as u32 - '0' as u32) as nat
    }
}

/// The number that `s` writes with one or more decimal digits and nothing else.
pub open spec fn unsigned(s: Seq<char>) -> Option<nat> {
    if s.len() > 0 && forall|i: int| 0 <= i < s.len() ==> is_digit(#[trigger] s[i]) {
        Some(digits_value(s))
    } else {
        None
    }
}

/// As [`unsigned`], where the number is at most `max`.
pub open spec fn unsigned_within(s: Seq<char>, max: nat) -> Option<nat> {
    match unsigned(s) {
        Some(n) => if n <= max {
            Some(n)
        } else {
            None
        },
        None => None,
    }
}

/// Leading digits stand for no more than all of them.
proof fn lemma_digits_value_grows(s: Seq<char>, i: int)
    requires
        0 <= i <= s.len(),
    ensures
        digits_value(s.take(i)) <= digits_value(s),
    decreases s.len() - i,
{
    if i == s.len() {
        assert(s.take(i) == s);
    } else {
        lemma_digits_value_grows(s, i + 1);
        assert(s.take(i + 1).drop_last() == s.take(i));
    }
}

/// Reads [`unsigned_within`] from the characters of `v`.
pub fn read_unsigned(v: &Vec<char>, max: u64) -> (r: Option<u64>)
    ensures
        match r {
            Some(n) => unsigned_within(v@, max as nat) == Some(n as nat),
            None => unsigned_within(v@, max as nat) is None,
        },
{
    let n: usize = v.len();
    if n == 0 {
        return None;
    }
    let mut value: u64 = 0;
    let mut over: bool = false;
    let mut i: usize = 0;
    while i < n
        invariant
            i <= n == v@.len(),
            forall|j: int| 0 <= j < i ==> is_digit(#[trigger] v@[j]),
            over ==> digits_value(v@) > max,
            !over ==> value == digits_value(v@.take(i as int)) <= max,
        decreases n - i,
    {
        let c: char = v[i];
        if !('0' <= c && c <= '9') {
            assert(!is_digit(v@[i as int]));
            return None;
        }
        assert(v@.take(i + 1).drop_last() == v@.take(i as int));
        if !over {
            let digit: u64 = c as u64 - '0' as u64;
            let next: u128 = value as u128 * 10 + digit as u128;
            proof {
                lemma_digits_value_grows(v@, i + 1);
            }
            if next > max as u128 {
                over = true;
            } else {
                value = next as u64;
            }
        }
        i = i + 1;
    }
    assert(v@.take(n as int) == v@);
    if over {
        None
    } else {
        Some(value)
    }
}

/// The digit that stands for `d`, in lower case from ten on.
pub open spec fn digit_char(d: nat) -> char {
    if d < 10 {
        (48 + d) as char
    } else {
        (87 + d) as char
    }
}

/// `n` written in the given base, without leading zeros.
pub open spec fn numeral(n: nat, base: nat) -> Seq<char>
    decreases n,
{
    if n < base || base < 2 {
        seq![digit_char(n)]
    } else {
        proof {
            div_mod::lemma_div_decreases(n as int, base as int);
        }
        numeral(n / base, base).push(digit_char(n % base))
    }
}

/// `n` in decimal, with a leading minus sign where it is negative.
pub open spec fn decimal(n: int) -> Seq<char> {
    if n < 0 {
        seq!['-'] + numeral((-n) as nat, 10)
    } else {
        numeral(n as nat, 10)
    }
}

/// Writes `n` in the given base.
pub fn write_numeral(n: u64, base: u64) -> (r: String)
    requires
        2 <= base <= 16,
    ensures
        r@ == numeral(n as nat, base as nat),
    decreases n,
{
    proof {
        div_mod::lemma_mod_bound(n as int, base as int);
        if n < base {
            div_mod::lemma_small_mod(n as nat, base as nat);
        } else {
            div_mod::lemma_div_decreases(n as int, base as int);
        }
    }
    let mut r = if n < base {
        String::new()
    } else {
        write_numeral(n / base, base)
    };
    let d: u8 = (n % base) as u8;
    let c: char = if d < 10 {
        (48 + d) as char
    } else {
        (87 + d) as char
    };
    r.push(c);
    r
}

/// Writes `n` in decimal.
pub fn write_unsigned(n: u64) -> (r: String)
    ensures
        r@ == decimal(n as int),
{
    write_numeral(n, 10)
}

/// Writes `n` in decimal.
pub fn write_signed(n: i64) -> (r: String)
    ensures
        r@ == decimal(n as int),
{
    if n < 0 {
        let magnitude: u64 = (-(n as i128)) as u64;
        let mut r = String::new();
        r.push('-');
        r.append(write_numeral(magnitude, 10).as_str());
        r
    } else {
        write_numeral(n as u64, 10)
    }
}

/// What is written in decimal is read back as the same number.
pub proof fn law_decimal_round_trip(n: nat)
    ensures
        unsigned(decimal(n as int)) == Some(n),
    decreases n,
{
    if n >= 10 {
        law_decimal_round_trip(n / 10);
        let s = numeral(n, 10);
        assert(s.drop_last() == numeral(n / 10, 10));
    } else {
        let s = numeral(n, 10);
        assert(s.drop_last() == Seq::<char>::empty());
        assert(digits_value(s.drop_last()) == 0);
    }
}

/// How a number is written in hexadecimal: digit by digit, from ten on with the letters from a to f.
pub proof fn law_hexadecimal_digits(n: nat, d: nat)
    requires
        d < 16,
    ensures
        n > 0 ==> numeral(16 * n + d, 16) == numeral(n, 16) + numeral(d, 16),
        d < 10 ==> numeral(d, 16) == numeral(d, 10),
        numeral(10, 16) == "a"@,
        numeral(11, 16) == "b"@,
        numeral(12, 16) == "c"@,
        numeral(13, 16) == "d"@,
        numeral(14, 16) == "e"@,
        numeral(15, 16) == "f"@,
{
    reveal_strlit("a");
    reveal_strlit("b");
    reveal_strlit("c");
    reveal_strlit("d");
    reveal_strlit("e");
    reveal_strlit("f");
    assert(numeral(10, 16) =~= "a"@);
    assert(numeral(11, 16) =~= "b"@);
    assert(numeral(12, 16) =~= "c"@);
    assert(numeral(13, 16) =~= "d"@);
    assert(numeral(14, 16) =~= "e"@);
    assert(numeral(15, 16) =~= "f"@);
    if n > 0 {
        let m = 16 * n + d;
        assert(m / 16 == n && m % 16 == d);
        assert(numeral(m, 16) =~= numeral(n, 16) + numeral(d, 16));
    }
}

/// How a number is written in decimal: digit by digit, without leading zeros, and behind a minus sign where
/// it is negative.
pub proof fn law_decimal_digits(n: nat, d: nat)
    requires
        d < 10,
    ensures
        n > 0 ==> decimal((10 * n + d) as int) == decimal(n as int) + decimal(d as int),
        n > 0 ==> decimal(-(n as int)) == "-"@ + decimal(n as int),
        decimal(0) == "0"@,
        decimal(1) == "1"@,
        decimal(2) == "2"@,
        decimal(3) == "3"@,
        decimal(4) == "4"@,
        decimal(5) == "5"@,
        decimal(6) == "6"@,
        decimal(7) == "7"@,
        decimal(8) == "8"@,
        decimal(9) == "9"@,
{
    reveal_strlit("-");
    reveal_strlit("0");
    reveal_strlit("1");
    reveal_strlit("2");
    reveal_strlit("3");
    reveal_strlit("4");
    reveal_strlit("5");
    reveal_strlit("6");
    reveal_strlit("7");
    reveal_strlit("8");
    reveal_strlit("9");
    assert(decimal(0) =~= "0"@);
    assert(decimal(1) =~= "1"@);
    assert(decimal(2) =~= "2"@);
    assert(decimal(3) =~= "3"@);
    assert(decimal(4) =~= "4"@);
    assert(decimal(5) =~= "5"@);
    assert(decimal(6) =~= "6"@);
    assert(decimal(7) =~= "7"@);
    assert(decimal(8) =~= "8"@);
    assert(decimal(9) =~= "9"@);
    if n > 0 {
        let m = 10 * n + d;
        assert(m / 10 == n && m % 10 == d);
        assert(decimal(m as int) =~= decimal(n as int) + decimal(d as int));
        assert(decimal(-(n as int)) =~= "-"@ + decimal(n as int));
    }
}

} // verus!
