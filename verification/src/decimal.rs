//! Decimal text of unsigned integers, as `Display` writes them.
use vstd::prelude::*;

verus! {

/// The character of the decimal digit `d` (`0 <= d < 10`).
pub open spec fn digit_char(d: int) -> char {
    seq!['0', '1', '2', '3', '4', '5', '6', '7', '8', '9'][d]
}

/// The decimal text of `n`: no sign, no leading zero, `"0"` for zero.
pub open spec fn decimal(n: nat) -> Seq<char>
    decreases n,
{
    if n < 10 {
        seq![digit_char(n as int)]
    } else {
        decimal(n / 10).push(digit_char((n % 10) as int))
    }
}

/// The value of a decimal digit character.
pub open spec fn digit_value(c: char) -> int {
    (c as int) - ('0' as int)
}

/// The number that a text of decimal digits denotes, most significant digit
/// first.
pub open spec fn decimal_value(t: Seq<char>) -> int
    decreases t.len(),
{
    if t.len() == 0 {
        0
    } else {
        decimal_value(t.drop_last()) * 10 + digit_value(t.last())
    }
}

/// Every character of the decimal text is one of `0` to `9`.
pub open spec fn all_decimal_digits(t: Seq<char>) -> bool {
    forall|i: int| 0 <= i < t.len() ==> '0' <= #[trigger] t[i] && t[i] <= '9'
}

proof fn lemma_digit_char(d: int)
    requires
        0 <= d < 10,
    ensures
        digit_value(digit_char(d)) == d,
        '0' <= digit_char(d) && digit_char(d) <= '9',
{
    assert(('0' as int) == 48);
    assert(('9' as int) == 57);
    if d == 0 {
        assert(('0' as int) == 48);
    } else if d == 1 {
        assert(('1' as int) == 49);
    } else if d == 2 {
        assert(('2' as int) == 50);
    } else if d == 3 {
        assert(('3' as int) == 51);
    } else if d == 4 {
        assert(('4' as int) == 52);
    } else if d == 5 {
        assert(('5' as int) == 53);
    } else if d == 6 {
        assert(('6' as int) == 54);
    } else if d == 7 {
        assert(('7' as int) == 55);
    } else if d == 8 {
        assert(('8' as int) == 56);
    } else {
        assert(('9' as int) == 57);
    }
}

/// The decimal text of `n` is made of decimal digits, starts with a non-zero
/// digit unless `n` is zero, and reads back as `n`.
pub proof fn lemma_decimal_reads_back(n: nat)
    ensures
        decimal_value(decimal(n)) == n,
        all_decimal_digits(decimal(n)),
        decimal(n).len() >= 1,
        n > 0 ==> decimal(n)[0] != '0',
    decreases n,
{
    if n < 10 {
        lemma_digit_char(n as int);
        let t = decimal(n);
        assert(t.drop_last() =~= Seq::<char>::empty());
        assert(decimal_value(Seq::<char>::empty()) == 0);
        assert(decimal_value(t) == decimal_value(t.drop_last()) * 10 + digit_value(t.last()));
        assert(t.last() == digit_char(n as int));
        if n > 0 {
            assert(digit_value(t[0]) == n);
        }
    } else {
        lemma_decimal_reads_back(n / 10);
        lemma_digit_char((n % 10) as int);
        let t = decimal(n);
        assert(t.drop_last() =~= decimal(n / 10));
        assert(t.last() == digit_char((n % 10) as int));
        assert((n / 10) * 10 + n % 10 == n) by (nonlinear_arith);
        assert(decimal_value(t) == decimal_value(t.drop_last()) * 10 + digit_value(t.last()));
        assert(t[0] == decimal(n / 10)[0]);
        assert forall|i: int| 0 <= i < t.len() implies '0' <= #[trigger] t[i] && t[i] <= '9' by {
            if i < t.len() - 1 {
                assert(t[i] == decimal(n / 10)[i]);
            }
        }
    }
}

fn digit_text(d: u64) -> (r: &'static str)
    requires
        d < 10,
    ensures
        r@ == seq![digit_char(d as int)],
{
    proof {
        reveal_strlit("0");
        reveal_strlit("1");
        reveal_strlit("2");
        reveal_strlit("3");
        reveal_strlit("4");
        reveal_strlit("5");
        reveal_strlit("6");
        reveal_strlit("7");
        reveal_strlit("8");
        reveal_strlit("9");
    }
    match d {
        0 => "0",
        1 => "1",
        2 => "2",
        3 => "3",
        4 => "4",
        5 => "5",
        6 => "6",
        7 => "7",
        8 => "8",
        _ => "9",
    }
}

/// Appends the decimal text of `n` to `text`.
pub fn push_decimal(text: &mut String, n: u64)
    ensures
        final(text)@ == old(text)@ + decimal(n as nat),
{
    // digits from the least significant one; `n` has at most twenty
    let mut digits: Vec<u64> = Vec::new();
    let mut m: u64 = n;
    // decimal(n) == decimal(m) + the digits already taken off, most significant first
    while m >= 10
        invariant
            n as nat >= m as nat,
            decimal(n as nat) == decimal(m as nat) + Seq::new(
                digits.len() as nat,
                |i: int| digit_char(digits[digits.len() - 1 - i] as int),
            ),
            forall|i: int| 0 <= i < digits.len() ==> digits[i] < 10,
        decreases m,
    {
        let d = m % 10;
        let ghost old_tail = Seq::new(
            digits.len() as nat,
            |i: int| digit_char(digits[digits.len() - 1 - i] as int),
        );
        proof {
            assert(decimal(m as nat) == decimal((m / 10) as nat).push(digit_char(d as int)));
        }
        digits.push(d);
        proof {
            let new_tail = Seq::new(
                digits.len() as nat,
                |i: int| digit_char(digits[digits.len() - 1 - i] as int),
            );
            assert(new_tail =~= seq![digit_char(d as int)] + old_tail);
            assert(decimal((m / 10) as nat).push(digit_char(d as int)) + old_tail =~= decimal(
                (m / 10) as nat,
            ) + new_tail);
        }
        m = m / 10;
    }
    let mut out = text.clone();
    out.append(digit_text(m));
    let mut k = digits.len();
    let ghost tail = Seq::new(
        digits.len() as nat,
        |i: int| digit_char(digits[digits.len() - 1 - i] as int),
    );
    assert(decimal(m as nat) =~= seq![digit_char(m as int)]);
    while k > 0
        invariant
            k <= digits.len(),
            forall|i: int| 0 <= i < digits.len() ==> digits[i] < 10,
            tail.len() == digits.len(),
            forall|i: int|
                0 <= i < tail.len() ==> #[trigger] tail[i] == digit_char(
                    digits[digits.len() - 1 - i] as int,
                ),
            out@ == old(text)@ + decimal(m as nat) + tail.take(digits.len() - k),
        decreases k,
    {
        k = k - 1;
        let ghost prev = out@;
        out.append(digit_text(digits[k]));
        assert(tail.take(digits.len() - k) =~= tail.take(digits.len() - k - 1).push(
            tail[digits.len() - k - 1],
        ));
        assert(out@ =~= old(text)@ + decimal(m as nat) + tail.take(digits.len() - k));
    }
    assert(tail.take(digits.len() as int) =~= tail);
    assert(out@ =~= old(text)@ + decimal(n as nat));
    *text = out;
}

/// The decimal text of `n`.
pub fn to_decimal(n: u64) -> (r: String)
    ensures
        r@ == decimal(n as nat),
{
    let mut s = String::new();
    push_decimal(&mut s, n);
    assert(s@ =~= decimal(n as nat));
    s
}

} // verus!
