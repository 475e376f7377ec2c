//! Text helpers: comparison, decimal numerals and the reading of numbers.

use vstd::prelude::*;

verus! {

/// Why a text does not read as an unsigned decimal number.
#[derive(Clone, Copy, Debug, PartialEq, Eq, Structural)]
pub enum NumberError {
    /// The text is empty.
    Empty,
    /// The text holds a character that is not a digit (or only a sign).
    InvalidDigit,
    /// The number is larger than the largest one wanted.
    PosOverflow,
}

/// The digit character for a value below ten.
pub open spec fn digit_char(d: int) -> char {
    if d == 0 {
        '0'
    } else if d == 1 {
        '1'
    } else if d == 2 {
        '2'
    } else if d == 3 {
        '3'
    } else if d == 4 {
        '4'
    } else if d == 5 {
        '5'
    } else if d == 6 {
        '6'
    } else if d == 7 {
        '7'
    } else if d == 8 {
        '8'
    } else {
        '9'
    }
}

/// The decimal numeral of `n`, without leading zeros.
pub open spec fn decimal(n: nat) -> Seq<char>
    decreases n,
{
    if n < 10 {
        seq![digit_char(n as int)]
    } else {
        decimal(n / 10).push(digit_char((n % 10) as int))
    }
}

/// Whether `c` is one of the ten ASCII digits.
pub open spec fn is_digit(c: char) -> bool {
    '0' <= c && c <= '9'
}

/// The value of a digit character.
pub open spec fn digit_value(c: char) -> nat {
    (c as int - '0' as int) as nat
}

/// Reads `digits` behind the value `acc`: the first character that is no digit, or that makes the
/// number exceed `max`, decides the error.
pub open spec fn read_digits(acc: nat, digits: Seq<char>, max: nat) -> Result<nat, NumberError>
    decreases digits.len(),
{
    if digits.len() == 0 {
        Ok(acc)
    } else if !is_digit(digits[0]) {
        Err(NumberError::InvalidDigit)
    } else if acc * 10 + digit_value(digits[0]) > max {
        Err(NumberError::PosOverflow)
    } else {
        read_digits(acc * 10 + digit_value(digits[0]), digits.drop_first(), max)
    }
}

/// An unsigned decimal number of at most `max`: an optional plus sign, then digits only.
pub open spec fn read_number(text: Seq<char>, max: nat) -> Result<nat, NumberError> {
    if text.len() == 0 {
        Err(NumberError::Empty)
    } else if text[0] == '+' {
        if text.len() == 1 {
            Err(NumberError::InvalidDigit)
        } else {
            read_digits(0, text.drop_first(), max)
        }
    } else {
        read_digits(0, text, max)
    }
}

/// Whether two texts are the same.
pub fn same_text(a: &str, b: &str) -> (same: bool)
    ensures
        same == (a@ == b@),
{
    a.to_owned() == b.to_owned()
}

/// Reads an unsigned decimal number of at most `max`.
pub fn parse_number(text: &str, max: u64) -> (number: Result<u64, NumberError>)
    ensures
        match number {
            Ok(n) => read_number(text@, max as nat) == Ok::<nat, NumberError>(n as nat) && n <= max,
            Err(e) => read_number(text@, max as nat) == Err::<nat, NumberError>(e),
        },
{
    let len: usize = text.unicode_len();
    if len == 0 {
        return Err(NumberError::Empty);
    }
    let mut i: usize = 0;
    if text.get_char(0) == '+' {
        if len == 1 {
            return Err(NumberError::InvalidDigit);
        }
        i = 1;
    }
    let mut acc: u64 = 0;
    assert(text@.skip(0) =~= text@);
    assert(text@.skip(1) =~= text@.drop_first());
    while i < len
        invariant
            len == text@.len(),
            0 <= i <= len,
            acc <= max,
            read_number(text@, max as nat) == read_digits(acc as nat, text@.skip(i as int), max as nat),
        decreases len - i,
    {
        let c: char = text.get_char(i);
        assert(text@.skip(i as int)[0] == c);
        assert(text@.skip(i as int).drop_first() =~= text@.skip(i + 1));
        if !(c >= '0' && c <= '9') {
            return Err(NumberError::InvalidDigit);
        }
        let d: u64 = (c as u64) - ('0' as u64);
        if acc > max / 10 || (acc == max / 10 && d > max % 10) {
            return Err(NumberError::PosOverflow);
        }
        acc = acc * 10 + d;
        i = i + 1;
    }
    Ok(acc)
}

/// The one-character numeral of a value below ten.
fn digit_text(d: u128) -> (text: &'static str)
    requires
        d < 10,
    ensures
        text@ == seq![digit_char(d as int)],
{
    proof {
        reveal_strlit("0");
        reveal_strlit("1");
        reveal_strlit("2");
        reveal_strlit("3");
        reveal_strlit("4");
        reveal_strlit("5");
        reveal_strlit("6");
        reveal_strlit("7");
        reveal_strlit("8");
        reveal_strlit("9");
    }
    let text: &'static str = if d == 0 {
        "0"
    } else if d == 1 {
        "1"
    } else if d == 2 {
        "2"
    } else if d == 3 {
        "3"
    } else if d == 4 {
        "4"
    } else if d == 5 {
        "5"
    } else if d == 6 {
        "6"
    } else if d == 7 {
        "7"
    } else if d == 8 {
        "8"
    } else {
        "9"
    };
    assert(text@ =~= seq![digit_char(d as int)]);
    text
}

/// Writes a number as a decimal numeral.
pub fn decimal_text(n: u128) -> (text: String)
    ensures
        text@ == decimal(n as nat),
    decreases n,
{
    if n < 10 {
        digit_text(n).to_owned()
    } else {
        let mut text: String = decimal_text(n / 10);
        text.append(digit_text(n % 10));
        assert(text@ =~= decimal(n as nat));
        text
    }
}

/// The numerals of `numbers`, separated by a comma and a space.
pub open spec fn joined(numbers: Seq<usize>) -> Seq<char>
    decreases numbers.len(),
{
    if numbers.len() == 0 {
        Seq::empty()
    } else if numbers.len() == 1 {
        decimal(numbers[0] as nat)
    } else {
        joined(numbers.drop_last()) + ", "@ + decimal(numbers.last() as nat)
    }
}

/// A list of numbers, in square brackets.
pub open spec fn listed(numbers: Seq<usize>) -> Seq<char> {
    "["@ + joined(numbers) + "]"@
}

/// Writes numbers as a list in square brackets.
pub fn list_text(numbers: &Vec<usize>) -> (text: String)
    ensures
        text@ == listed(numbers@),
{
    let mut text: String = "[".to_owned();
    let mut i: usize = 0;
    assert(numbers@.take(0) =~= Seq::<usize>::empty());
    assert(text@ =~= "["@ + joined(numbers@.take(0)));
    while i < numbers.len()
        invariant
            i <= numbers@.len(),
            text@ == "["@ + joined(numbers@.take(i as int)),
        decreases numbers@.len() - i,
    {
        let ghost before = text@;
        if i > 0 {
            text.append(", ");
        }
        text.append(decimal_text(numbers[i] as u128).as_str());
        proof {
            let next = numbers@.take(i + 1);
            assert(next.drop_last() =~= numbers@.take(i as int));
            assert(text@ =~= "["@ + joined(next));
        }
        i = i + 1;
    }
    assert(numbers@.take(i as int) =~= numbers@);
    text.append("]");
    text
}

/// `read_digits` reads a concatenation in two steps.
proof fn lemma_read_digits_push(acc: nat, digits: Seq<char>, c: char, max: nat)
    requires
        is_digit(c),
    ensures
        read_digits(acc, digits.push(c), max) == match read_digits(acc, digits, max) {
            Ok(v) => if v * 10 + digit_value(c) > max {
                Err(NumberError::PosOverflow)
            } else {
                Ok::<nat, NumberError>(v * 10 + digit_value(c))
            },
            Err(e) => Err(e),
        },
    decreases digits.len(),
{
    if digits.len() == 0 {
        assert(digits.push(c).drop_first() =~= Seq::<char>::empty());
        reveal_with_fuel(read_digits, 2);
    } else {
        assert(digits.push(c).drop_first() =~= digits.drop_first().push(c));
        assert(digits.push(c)[0] == digits[0]);
        if is_digit(digits[0]) && acc * 10 + digit_value(digits[0]) <= max {
            lemma_read_digits_push(
                acc * 10 + digit_value(digits[0]),
                digits.drop_first(),
                c,
                max,
            );
        }
    }
}

/// A numeral is not empty and consists of digits only.
pub proof fn lemma_decimal_digits(n: nat)
    ensures
        decimal(n).len() > 0,
        forall|i: int| 0 <= i < decimal(n).len() ==> is_digit(#[trigger] decimal(n)[i]),
    decreases n,
{
    if n >= 10 {
        lemma_decimal_digits(n / 10);
    }
}

/// Reading a numeral gives back the number it was written for.
pub proof fn read_number_of_decimal(n: nat, max: nat)
    requires
        n <= max,
    ensures
        read_number(decimal(n), max) == Ok::<nat, NumberError>(n),
{
    lemma_decimal_digits(n);
    assert(decimal(n)[0] != '+');
    lemma_read_decimal(n, max);
}

proof fn lemma_read_decimal(n: nat, max: nat)
    requires
        n <= max,
    ensures
        read_digits(0, decimal(n), max) == Ok::<nat, NumberError>(n),
    decreases n,
{
    if n < 10 {
        assert(decimal(n).drop_first() =~= Seq::<char>::empty());
        reveal_with_fuel(read_digits, 2);
    } else {
        lemma_read_decimal(n / 10, max);
        lemma_read_digits_push(0, decimal(n / 10), digit_char((n % 10) as int), max);
    }
}

/// The number that a row of digits stands for in the decimal system.
pub open spec fn numeral_value(digits: Seq<char>) -> int
    decreases digits.len(),
{
    if digits.len() == 0 {
        0
    } else {
        10 * numeral_value(digits.drop_last()) + (digits.last() as int - 48)
    }
}

/// Whether all characters are ASCII digits.
pub open spec fn only_digits(text: Seq<char>) -> bool {
    forall|i: int| 0 <= i < text.len() ==> 48 <= (#[trigger] text[i]) as int <= 57
}

/// The text behind the sign, where there is one.
pub open spec fn unsigned(text: Seq<char>) -> Seq<char> {
    if text.len() > 0 && text[0] == '+' {
        text.skip(1)
    } else {
        text
    }
}

proof fn lemma_value_grows(digits: Seq<char>, k: int)
    requires
        only_digits(digits),
        0 <= k <= digits.len(),
    ensures
        0 <= numeral_value(digits.take(k)) <= numeral_value(digits),
    decreases digits.len(),
{
    if k == digits.len() {
        assert(digits.take(k) =~= digits);
        if digits.len() > 0 {
            lemma_value_grows(digits.drop_last(), digits.len() - 1);
        }
    } else {
        assert(digits.drop_last().take(k) =~= digits.take(k));
        lemma_value_grows(digits.drop_last(), k);
    }
}

proof fn lemma_read_digits(head: Seq<char>, rest: Seq<char>, max: nat)
    requires
        only_digits(head),
        numeral_value(head) <= max,
    ensures
        ({
            let read = read_digits(numeral_value(head) as nat, rest, max);
            let whole = head + rest;
            &&& read is Ok <==> only_digits(whole) && numeral_value(whole) <= max
            &&& read is Ok ==> read->Ok_0 == numeral_value(whole)
            &&& read is Err ==> read->Err_0 != NumberError::Empty
            &&& read == Err::<nat, NumberError>(NumberError::PosOverflow) <==> exists|k: int|
                0 <= k <= whole.len() && only_digits(whole.take(k)) && numeral_value(
                    #[trigger] whole.take(k),
                ) > max
        }),
    decreases rest.len(),
{
    let whole = head + rest;
    lemma_value_grows(head, head.len() as int);
    if rest.len() == 0 {
        assert(whole =~= head);
        assert forall|k: int| 0 <= k <= whole.len() && only_digits(whole.take(k)) implies
            numeral_value(#[trigger] whole.take(k)) <= max by {
            lemma_value_grows(head, k);
        }
    } else {
        let c = rest[0];
        let next = head.push(c);
        assert(next.drop_last() =~= head);
        assert(whole =~= next + rest.drop_first());
        assert(whole[head.len() as int] == c);
        assert(whole.take((head.len() + 1) as int) =~= next);
        assert forall|k: int| 0 <= k <= head.len() implies numeral_value(
            #[trigger] whole.take(k),
        ) <= max by {
            assert(whole.take(k) =~= head.take(k));
            lemma_value_grows(head, k);
        }
        if !is_digit(c) {
            assert(!only_digits(whole));
            assert forall|k: int| head.len() < k <= whole.len() implies !only_digits(
                #[trigger] whole.take(k),
            ) by {
                assert(whole.take(k)[head.len() as int] == c);
            }
        } else if numeral_value(next) > max {
            assert(only_digits(next));
            assert(numeral_value(whole.take((head.len() + 1) as int)) > max);
            if only_digits(whole) {
                lemma_value_grows(whole, (head.len() + 1) as int);
            }
        } else {
            assert(only_digits(next));
            lemma_read_digits(next, rest.drop_first(), max);
        }
    }
}

/// What reads as a number: digits, with a plus sign before them or none, that stand for a number of
/// at most `max`. The empty text is told apart from others, and a number that is too large from a
/// text with other characters: it is too large where digits at its start already are.
pub proof fn numbers_are_read_in_decimal(text: Seq<char>, max: nat)
    ensures
        ({
            let digits = unsigned(text);
            let read = read_number(text, max);
            &&& read is Ok <==> digits.len() > 0 && only_digits(digits) && numeral_value(digits)
                <= max
            &&& read is Ok ==> read->Ok_0 == numeral_value(digits)
            &&& read == Err::<nat, NumberError>(NumberError::Empty) <==> text.len() == 0
            &&& read == Err::<nat, NumberError>(NumberError::PosOverflow) <==> exists|k: int|
                0 <= k <= digits.len() && only_digits(digits.take(k)) && numeral_value(
                    #[trigger] digits.take(k),
                ) > max
        }),
{
    let digits = unsigned(text);
    let none = Seq::<char>::empty();
    assert(none + digits =~= digits);
    assert(text.len() > 0 ==> text.skip(1) =~= text.drop_first());
    lemma_read_digits(none, digits, max);
    if digits.len() == 0 {
        assert(digits.take(0) =~= none);
    }
}

/// A numeral stands for its number, in ASCII digits, and starts with a zero only where it is zero.
pub proof fn numerals_are_decimal(n: nat)
    ensures
        decimal(n).len() > 0,
        only_digits(decimal(n)),
        numeral_value(decimal(n)) == n,
        decimal(n)[0] == '0' ==> n == 0 && decimal(n).len() == 1,
    decreases n,
{
    if n < 10 {
        reveal_with_fuel(numeral_value, 2);
        assert(decimal(n).drop_last() =~= Seq::empty());
    } else {
        numerals_are_decimal(n / 10);
        assert(decimal(n).drop_last() =~= decimal(n / 10));
        assert(decimal(n)[0] == decimal(n / 10)[0]);
    }
}

/// A list of numbers holds their numerals in order, each but the first behind a comma and a space.
pub proof fn lists_hold_their_numbers(numbers: Seq<usize>, last: usize)
    ensures
        listed(Seq::empty()) == "["@ + "]"@,
        listed(seq![last]) == "["@ + decimal(last as nat) + "]"@,
        numbers.len() > 0 ==> listed(numbers.push(last)) == listed(numbers).drop_last() + ", "@
            + decimal(last as nat) + "]"@,
{
    reveal_strlit("]");
    reveal_strlit("[");
    assert(listed(Seq::empty()) =~= "["@ + "]"@);
    assert(numbers.push(last).drop_last() =~= numbers);
    if numbers.len() > 0 {
        assert(listed(numbers).drop_last() =~= "["@ + joined(numbers));
        assert(listed(numbers.push(last)) =~= listed(numbers).drop_last() + ", "@ + decimal(
            last as nat,
        ) + "]"@);
    }
}

} // verus!
