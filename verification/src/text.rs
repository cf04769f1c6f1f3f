//! Text as the messages need it: numbers in decimal and runs of one character.
use vstd::prelude::*;

verus! {

/// The character for a digit below ten.
pub open spec fn digit_char(digit: nat) -> char
    recommends
        digit < 10,
{
    (48 + digit) as char
}

/// `n` in decimal, without leading zeros.
pub open spec fn decimal(n: nat) -> Seq<char>
    decreases n,
{
    if n < 10 {
        seq![digit_char(n)]
    } else {
        decimal(n / 10).push(digit_char(n % 10))
    }
}

/// The number that a row of decimal digits stands for.
pub open spec fn decimal_value(digits: Seq<char>) -> nat
    decreases digits.len(),
{
    if digits.len() == 0 {
        0
    } else {
        10 * decimal_value(digits.drop_last()) + (digits.last() as nat - 48) as nat
    }
}

/// `count` times the character `unit`.
pub open spec fn run_of(unit: char, count: nat) -> Seq<char> {
    Seq::new(count, |i: int| unit)
}

/// A digit as text.
fn digit_text(digit: u8) -> (text: &'static str)
    requires
        digit < 10,
    ensures
        text@ == seq![digit_char(digit as nat)],
{
    let texts: [&'static str; 10] = ["0", "1", "2", "3", "4", "5", "6", "7", "8", "9"];
    proof {
        reveal_strlit("0");
        reveal_strlit("1");
        reveal_strlit("2");
        reveal_strlit("3");
        reveal_strlit("4");
        reveal_strlit("5");
        reveal_strlit("6");
        reveal_strlit("7");
        reveal_strlit("8");
        reveal_strlit("9");
    }
    let text = texts[digit as usize];
    assert(text@ =~= seq![digit_char(digit as nat)]);
    text
}

/// Appends `n` in decimal.
pub fn push_decimal(out: &mut String, n: u128)
    ensures
        final(out)@ == old(out)@ + decimal(n as nat),
    decreases n,
{
    if n < 10 {
        out.append(digit_text(n as u8));
    } else {
        push_decimal(out, n / 10);
        out.append(digit_text((n % 10) as u8));
        assert(out@ =~= old(out)@ + decimal(n as nat));
    }
}

/// A text of `count` times the one character of `unit`.
pub fn repeat(unit: &str, count: usize) -> (text: String)
    requires
        unit@.len() == 1,
        count <= isize::MAX,
    ensures
        text@ == run_of(unit@[0], count as nat),
        text@.len() == count,
        forall|i: int| 0 <= i < count ==> #[trigger] text@[i] == unit@[0],
{
    let mut text = String::new();
    let mut done: usize = 0;
    while done < count
        invariant
            unit@.len() == 1,
            done <= count,
            text@ == run_of(unit@[0], done as nat),
        decreases count - done,
    {
        text.append(unit);
        done = done + 1;
        assert(text@ =~= run_of(unit@[0], done as nat));
    }
    text
}

/// Reading a number's decimal digits gives back the number, so two numbers that are written alike
/// are the same number.
pub proof fn law_decimal_reads_back(n: nat)
    ensures
        decimal_value(decimal(n)) == n,
    decreases n,
{
    if n < 10 {
        let digits = decimal(n);
        assert(digits.drop_last() =~= Seq::<char>::empty());
        assert(decimal_value(digits.drop_last()) == 0);
    } else {
        law_decimal_reads_back(n / 10);
        assert(decimal(n).drop_last() =~= decimal(n / 10));
    }
}

/// Decimal text is plain ASCII, and below the given power of ten it has at most that many digits.
pub proof fn lemma_decimal_shape(n: nat, places: nat)
    requires
        places > 0,
        n < vstd::arithmetic::power::pow(10, places),
    ensures
        1 <= decimal(n).len() <= places,
        vstd::utf8::is_ascii_chars(decimal(n)),
    decreases places,
{
    reveal(vstd::arithmetic::power::pow);
    if n >= 10 {
        if places == 1 {
            assert(vstd::arithmetic::power::pow(10, 0) == 1);
            assert(vstd::arithmetic::power::pow(10, 1) == 10);
        } else {
            assert(vstd::arithmetic::power::pow(10, places) == 10 * vstd::arithmetic::power::pow(
                10,
                (places - 1) as nat,
            ));
            lemma_decimal_shape(n / 10, (places - 1) as nat);
        }
    }
}

} // verus!
