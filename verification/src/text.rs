use vstd::prelude::*;

verus! {

/// The decimal digit `d` (0..=9) as a character.
pub open spec fn digit_char(d: int) -> char {
    if d == 0 {
        '0'
    } else if d == 1 {
        '1'
    } else if d == 2 {
        '2'
    } else if d == 3 {
        '3'
    } else if d == 4 {
        '4'
    } else if d == 5 {
        '5'
    } else if d == 6 {
        '6'
    } else if d == 7 {
        '7'
    } else if d == 8 {
        '8'
    } else {
        '9'
    }
}

/// Decimal digits of a natural number, most significant first, no leading zeros.
pub open spec fn decimal(n: nat) -> Seq<char>
    decreases n,
{
    if n < 10 {
        seq![digit_char(n as int)]
    } else {
        decimal(n / 10).push(digit_char((n % 10) as int))
    }
}

/// Text of an integer as Rust's `Display` writes it: a minus sign for negatives.
pub open spec fn int_text(v: int) -> Seq<char> {
    if v < 0 {
        seq!['-'] + decimal((-v) as nat)
    } else {
        decimal(v as nat)
    }
}

fn digit_str(d: u128) -> (s: &'static str)
    requires
        d < 10,
    ensures
        s@ == seq![digit_char(d as int)],
{
    if d == 0 {
        proof { reveal_strlit("0"); }
        "0"
    } else if d == 1 {
        proof { reveal_strlit("1"); }
        "1"
    } else if d == 2 {
        proof { reveal_strlit("2"); }
        "2"
    } else if d == 3 {
        proof { reveal_strlit("3"); }
        "3"
    } else if d == 4 {
        proof { reveal_strlit("4"); }
        "4"
    } else if d == 5 {
        proof { reveal_strlit("5"); }
        "5"
    } else if d == 6 {
        proof { reveal_strlit("6"); }
        "6"
    } else if d == 7 {
        proof { reveal_strlit("7"); }
        "7"
    } else if d == 8 {
        proof { reveal_strlit("8"); }
        "8"
    } else {
        proof { reveal_strlit("9"); }
        "9"
    }
}

/// Appends the decimal digits of `n` to `out`.
pub fn push_decimal(out: &mut String, n: u128)
    ensures
        final(out)@ == old(out)@ + decimal(n as nat),
    decreases n,
{
    if n >= 10 {
        push_decimal(out, n / 10);
    }
    out.append(digit_str(n % 10));
    proof {
        if n >= 10 {
            assert(decimal(n as nat) == decimal((n / 10) as nat).push(digit_char((n % 10) as int)));
        }
    }
}

/// The decimal text of a natural number.
pub fn decimal_text(n: u128) -> (s: String)
    ensures
        s@ == decimal(n as nat),
{
    let mut s = String::new();
    push_decimal(&mut s, n);
    s
}

/// The text of an `i32` as `Display` writes it.
pub fn i32_text(v: i32) -> (s: String)
    ensures
        s@ == int_text(v as int),
{
    if v < 0 {
        let mut s = String::from_str("-");
        proof { reveal_strlit("-"); }
        let magnitude: i64 = -(v as i64);
        push_decimal(&mut s, magnitude as u128);
        s
    } else {
        decimal_text(v as u128)
    }
}

// ---------------------------------------------------------------------------
// Reading decimal text back

/// The value of a decimal digit character, if it is one.
pub open spec fn digit_value(c: char) -> Option<int> {
    if c == '0' {
        Some(0)
    } else if c == '1' {
        Some(1)
    } else if c == '2' {
        Some(2)
    } else if c == '3' {
        Some(3)
    } else if c == '4' {
        Some(4)
    } else if c == '5' {
        Some(5)
    } else if c == '6' {
        Some(6)
    } else if c == '7' {
        Some(7)
    } else if c == '8' {
        Some(8)
    } else if c == '9' {
        Some(9)
    } else {
        None
    }
}

/// The number a string of decimal digits reads as; `None` for the empty
/// string or one with a non-digit.
pub open spec fn read_decimal(s: Seq<char>) -> Option<int>
    decreases s.len(),
{
    if s.len() == 0 {
        None
    } else {
        match digit_value(s.last()) {
            None => None,
            Some(d) => if s.len() == 1 {
                Some(d)
            } else {
                match read_decimal(s.drop_last()) {
                    Some(v) => Some(10 * v + d),
                    None => None,
                }
            },
        }
    }
}

/// The integer a text reads as, the way `str::parse` reads a plain decimal
/// integer: an optional leading `-`, then decimal digits.
pub open spec fn read_int(s: Seq<char>) -> Option<int> {
    if s.len() > 0 && s[0] == '-' {
        match read_decimal(s.drop_first()) {
            Some(v) => Some(-v),
            None => None,
        }
    } else {
        read_decimal(s)
    }
}

/// The decimal text of a number reads back as that number, has no leading
/// zero (but for zero itself) and does not start with a sign.
pub proof fn lemma_decimal_round_trip(n: nat)
    ensures
        read_decimal(decimal(n)) == Some(n as int),
        decimal(n).len() > 0,
        decimal(n)[0] != '-',
        decimal(n)[0] == '0' ==> n == 0,
    decreases n,
{
    if n >= 10 {
        lemma_decimal_round_trip(n / 10);
        let s = decimal(n);
        assert(s.drop_last() =~= decimal(n / 10));
        assert(s[0] == decimal(n / 10)[0]);
    }
}

/// The text of an integer reads back as that integer: plain decimal digits,
/// a `-` exactly for negatives, nothing else.
pub proof fn lemma_int_text_round_trip(v: int)
    ensures
        read_int(int_text(v)) == Some(v),
{
    if v < 0 {
        lemma_decimal_round_trip((-v) as nat);
        assert((seq!['-'] + decimal((-v) as nat)).drop_first() =~= decimal((-v) as nat));
    } else {
        lemma_decimal_round_trip(v as nat);
    }
}

/// Different integers have different texts.
pub proof fn lemma_int_text_injective(a: int, b: int)
    requires
        int_text(a) == int_text(b),
    ensures
        a == b,
{
    lemma_int_text_round_trip(a);
    lemma_int_text_round_trip(b);
}

} // verus!
