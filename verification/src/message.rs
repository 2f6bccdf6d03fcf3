use vstd::prelude::*;

verus! {

/// The character that writes a digit.
pub open spec fn digit_char(digit: nat) -> char {
    (0x30 + digit) as char
}

/// A number in decimal.
pub open spec fn decimal(n: nat) -> Seq<char>
    decreases n,
{
    if n < 10 {
        seq![digit_char(n)]
    } else {
        decimal(n / 10).push(digit_char(n % 10))
    }
}

/// The message about a system call that failed.
pub open spec fn last_error_text(context: Seq<char>, code: u32) -> Seq<char> {
    context + ", GetLastError="@ + decimal(code as nat)
}

/// The number that digits write.
pub open spec fn decimal_value(digits: Seq<char>) -> int
    decreases digits.len(),
{
    if digits.len() == 0 {
        0
    } else {
        10 * decimal_value(digits.drop_last()) + (digits.last() as int - 0x30)
    }
}

/// A number in decimal.
pub fn decimal_text(n: u32) -> (r: String)
    ensures
        r@ == decimal(n as nat),
    decreases n,
{
    let digit: char = (0x30 + (n % 10) as u8) as char;
    let mut text = if n < 10 {
        String::new()
    } else {
        decimal_text(n / 10)
    };
    text.push(digit);
    text
}

/// The message about a system call that failed: what failed, and the system's error code.
pub fn last_error(context: &str, code: u32) -> (r: String)
    ensures
        r@ == last_error_text(context@, code),
{
    let mut text = context.to_owned();
    text.append(", GetLastError=");
    text.append(decimal_text(code).as_str());
    text
}

/// A number in decimal reads back as the number, and only zero begins with the digit zero.
pub proof fn law_decimal_reads_back(n: nat)
    ensures
        decimal_value(decimal(n)) == n,
        decimal(n).len() > 0,
        n > 0 ==> decimal(n)[0] != '0',
    decreases n,
{
    reveal_with_fuel(decimal_value, 2);
    if n < 10 {
        assert(decimal(n).drop_last() =~= seq![]);
        assert(decimal(n)[0] == digit_char(n));
    } else {
        law_decimal_reads_back(n / 10);
        assert(decimal(n).drop_last() =~= decimal(n / 10));
        assert(decimal(n).last() == digit_char(n % 10));
        assert(decimal(n)[0] == decimal(n / 10)[0]);
    }
}

/// A digit is written as itself, and a longer number as what its upper digits write and its last
/// digit behind them.
pub proof fn law_decimal_by_digit(n: nat, digit: nat)
    requires
        digit < 10,
    ensures
        decimal(digit) == seq!["0123456789"@[digit as int]],
        n > 0 ==> decimal(10 * n + digit) == decimal(n).push("0123456789"@[digit as int]),
{
    reveal_strlit("0123456789");
    assert("0123456789"@[digit as int] == digit_char(digit)) by {
        assert(digit == 0 || digit == 1 || digit == 2 || digit == 3 || digit == 4 || digit == 5
            || digit == 6 || digit == 7 || digit == 8 || digit == 9);
    }
    if n > 0 {
        assert((10 * n + digit) / 10 == n);
        assert((10 * n + digit) % 10 == digit);
    }
}

/// The message begins with what failed, goes on with `, GetLastError=` and ends with the code in
/// decimal.
pub proof fn law_error_message_shows_code(context: Seq<char>, code: u32)
    ensures
        ({
            let text = last_error_text(context, code);
            let head = context + ", GetLastError="@;
            let digits = text.skip(head.len() as int);
            &&& text == head + digits
            &&& decimal_value(digits) == code
            &&& digits.len() > 0
            &&& code > 0 ==> digits[0] != '0'
            &&& digits == decimal(code as nat)
        }),
{
    let head = context + ", GetLastError="@;
    law_decimal_reads_back(code as nat);
    assert(last_error_text(context, code).skip(head.len() as int) =~= decimal(code as nat));
}

} // verus!
