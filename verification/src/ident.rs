//! Position identifiers: a fixed prefix followed by the creation time in
//! milliseconds, written in decimal.

use vstd::prelude::*;
use vstd::string::*;

verus! {

/// The character that stands for the digit `d`.
pub open spec fn digit_char(d: int) -> char
    recommends
        0 <= d < 10,
{
    if d == 0 {
        '0'
    } else if d == 1 {
        '1'
    } else if d == 2 {
        '2'
    } else if d == 3 {
        '3'
    } else if d == 4 {
        '4'
    } else if d == 5 {
        '5'
    } else if d == 6 {
        '6'
    } else if d == 7 {
        '7'
    } else if d == 8 {
        '8'
    } else {
        '9'
    }
}

/// The decimal digits of `n`, most significant first, without leading zeros.
pub open spec fn decimal(n: nat) -> Seq<char>
    decreases n,
{
    if n < 10 {
        seq![digit_char(n as int)]
    } else {
        decimal(n / 10).push(digit_char((n % 10) as int))
    }
}

/// The decimal form of an integer, with a minus sign in front of a negative
/// one.
pub open spec fn signed_decimal(i: int) -> Seq<char> {
    if i < 0 {
        seq!['-'] + decimal((-i) as nat)
    } else {
        decimal(i as nat)
    }
}

/// What every position identifier starts with.
pub open spec fn id_prefix() -> Seq<char> {
    seq!['p', 'o', 's', '-']
}

/// The identifier of the position created at `millis`.
pub open spec fn position_id_of(millis: int) -> Seq<char> {
    id_prefix() + signed_decimal(millis)
}

/// The digit that a character stands for.
pub open spec fn digit_value(c: char) -> int {
    if c == '1' {
        1
    } else if c == '2' {
        2
    } else if c == '3' {
        3
    } else if c == '4' {
        4
    } else if c == '5' {
        5
    } else if c == '6' {
        6
    } else if c == '7' {
        7
    } else if c == '8' {
        8
    } else if c == '9' {
        9
    } else {
        0
    }
}

/// The number that a sequence of digits stands for.
pub open spec fn decimal_value(digits: Seq<char>) -> int
    decreases digits.len(),
{
    if digits.len() == 0 {
        0
    } else {
        decimal_value(digits.drop_last()) * 10 + digit_value(digits.last())
    }
}

/// The decimal form of a number is not empty, starts with a digit and reads
/// back as the number.
pub proof fn lemma_decimal_reads_back(n: nat)
    ensures
        decimal(n).len() >= 1,
        decimal(n)[0] != '-',
        decimal_value(decimal(n)) == n,
    decreases n,
{
    let digits = decimal(n);
    if n < 10 {
        assert(digits.drop_last() =~= Seq::<char>::empty());
        assert(decimal_value(digits.drop_last()) == 0);
        assert(digits.last() == digit_char(n as int));
    } else {
        lemma_decimal_reads_back(n / 10);
        assert(digits.drop_last() =~= decimal(n / 10));
        assert(digits.last() == digit_char((n % 10) as int));
        assert(digits[0] == decimal(n / 10)[0]);
    }
    assert(decimal_value(digits) == decimal_value(digits.drop_last()) * 10 + digit_value(
        digits.last(),
    ));
}

/// Two integers with the same decimal form are the same.
pub proof fn lemma_signed_decimal_injective(a: int, b: int)
    requires
        signed_decimal(a) == signed_decimal(b),
    ensures
        a == b,
{
    if a < 0 {
        lemma_decimal_reads_back((-a) as nat);
        assert(signed_decimal(a).skip(1) =~= decimal((-a) as nat));
    } else {
        lemma_decimal_reads_back(a as nat);
    }
    if b < 0 {
        lemma_decimal_reads_back((-b) as nat);
        assert(signed_decimal(b).skip(1) =~= decimal((-b) as nat));
    } else {
        lemma_decimal_reads_back(b as nat);
    }
}

/// Positions created at different times have different identifiers.
pub proof fn lemma_position_id_injective(a: int, b: int)
    requires
        position_id_of(a) == position_id_of(b),
    ensures
        a == b,
{
    assert(position_id_of(a).skip(4) =~= signed_decimal(a));
    assert(position_id_of(b).skip(4) =~= signed_decimal(b));
    lemma_signed_decimal_injective(a, b);
}

fn digit_text(d: u64) -> (text: &'static str)
    requires
        d < 10,
    ensures
        text@ == seq![digit_char(d as int)],
{
    proof {
        reveal_strlit("0");
        reveal_strlit("1");
        reveal_strlit("2");
        reveal_strlit("3");
        reveal_strlit("4");
        reveal_strlit("5");
        reveal_strlit("6");
        reveal_strlit("7");
        reveal_strlit("8");
        reveal_strlit("9");
    }
    let text = if d == 0 {
        "0"
    } else if d == 1 {
        "1"
    } else if d == 2 {
        "2"
    } else if d == 3 {
        "3"
    } else if d == 4 {
        "4"
    } else if d == 5 {
        "5"
    } else if d == 6 {
        "6"
    } else if d == 7 {
        "7"
    } else if d == 8 {
        "8"
    } else {
        "9"
    };
    assert(text@ =~= seq![digit_char(d as int)]);
    text
}

fn append_decimal(out: &mut String, n: u64)
    ensures
        final(out)@ == old(out)@ + decimal(n as nat),
    decreases n,
{
    if n >= 10 {
        append_decimal(out, n / 10);
    }
    out.append(digit_text(n % 10));
    assert(out@ =~= old(out)@ + decimal(n as nat));
}

/// Builds the identifier of the position created at `now_millis`.
pub fn position_id(now_millis: i64) -> (id: String)
    ensures
        id@ == position_id_of(now_millis as int),
{
    proof {
        reveal_strlit("pos-");
        reveal_strlit("-");
    }
    let mut id = String::from_str("pos-");
    assert(id@ =~= id_prefix());
    let magnitude: u64 = if now_millis >= 0 {
        now_millis as u64
    } else {
        id.append("-");
        if now_millis == i64::MIN {
            0x8000_0000_0000_0000
        } else {
            (-now_millis) as u64
        }
    };
    append_decimal(&mut id, magnitude);
    assert(id@ =~= position_id_of(now_millis as int));
    id
}

} // verus!
