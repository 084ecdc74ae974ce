//! Text pieces: decimal numbers, generated names, socket paths.

use vstd::prelude::*;
use vstd::string::*;

verus! {

/// `String::push` appends the character to the end of the string.
pub assume_specification[ String::push ](s: &mut String, c: char)
    ensures
        final(s)@ == old(s)@.push(c),
;

/// The character of a decimal digit.
pub open spec fn digit(d: nat) -> char {
    (48 + d) as char
}

/// A number in decimal, without leading zeros.
pub open spec fn decimal(n: nat) -> Seq<char>
    decreases n,
{
    if n < 10 {
        seq![digit(n)]
    } else {
        decimal(n / 10).push(digit(n % 10))
    }
}

/// Appends a number in decimal.
pub fn push_decimal(out: &mut String, n: u64)
    ensures
        final(out)@ == old(out)@ + decimal(n as nat),
    decreases n,
{
    if n >= 10 {
        push_decimal(out, n / 10);
    }
    let d: u8 = (n % 10) as u8;
    out.push((48 + d) as char);
}

/// A text followed by a character in single quotes.
pub open spec fn quoted(text: Seq<char>, byte: u8) -> Seq<char> {
    text + "'"@ + seq![byte as char] + "'"@
}

/// A text followed by the character of a message type in single quotes.
pub fn quote(text: &str, byte: u8) -> (r: String)
    ensures
        r@ == quoted(text@, byte),
{
    let mut out = String::from_str(text);
    out.append("'");
    out.push(byte as char);
    out.append("'");
    assert(out@ =~= quoted(text@, byte));
    out
}

/// Two numbers with the same decimal form are equal.
pub proof fn decimal_injective(a: nat, b: nat)
    requires
        decimal(a) == decimal(b),
    ensures
        a == b,
    decreases a,
{
    let da = decimal(a);
    let db = decimal(b);
    assert(da.last() == db.last());
    assert(da.last() == digit(a % 10));
    assert(db.last() == digit(b % 10));
    assert(digit(a % 10) as int == 48 + a % 10);
    assert(digit(b % 10) as int == 48 + b % 10);
    if a < 10 {
        assert(db.len() == 1);
        if b >= 10 {
            decimal_nonempty(b / 10);
        }
    } else {
        decimal_nonempty(a / 10);
        if b >= 10 {
            assert(da.drop_last() == decimal(a / 10));
            assert(db.drop_last() == decimal(b / 10));
            decimal_injective(a / 10, b / 10);
        }
    }
}

proof fn decimal_nonempty(n: nat)
    ensures
        decimal(n).len() >= 1,
{
    reveal_with_fuel(decimal, 2);
}

/// The number that decimal digits stand for.
pub open spec fn number_in(digits: Seq<char>) -> nat
    decreases digits.len(),
{
    if digits.len() == 0 {
        0
    } else {
        number_in(digits.drop_last()) * 10 + (digits.last() as u32 - 48) as nat
    }
}

/// All characters are decimal digits.
pub open spec fn all_digits(text: Seq<char>) -> bool {
    forall|i: int| 0 <= i < text.len() ==> '0' <= #[trigger] text[i] <= '9'
}

/// A number in decimal reads back as the number: it is made of digits only, and the first one is
/// not a zero, but for the number 0.
pub proof fn decimal_reads_back(n: nat)
    ensures
        decimal(n).len() > 0,
        all_digits(decimal(n)),
        number_in(decimal(n)) == n,
        decimal(n)[0] == '0' ==> decimal(n).len() == 1,
    decreases n,
{
    let d = n % 10;
    assert(digit(d) as u32 == 48 + d);
    if n < 10 {
        reveal_with_fuel(number_in, 2);
        assert(decimal(n).drop_last() =~= Seq::empty());
    } else {
        decimal_reads_back(n / 10);
        let front = decimal(n / 10);
        assert(decimal(n).drop_last() =~= front);
        assert(decimal(n)[0] == front[0]);
        assert(n / 10 > 0);
        if front[0] == '0' {
            assert(front.drop_last() =~= Seq::empty());
            reveal_with_fuel(number_in, 2);
            assert(number_in(front) == 0);
        }
    }
}

/// [`push_decimal`] leaves the text as it is and appends digits that stand for the number.
pub proof fn push_decimal_appends(out: &mut String, n: u64)
    requires
        call_ensures(push_decimal, (out, n), ()),
    ensures
        ({
            let k = old(out)@.len() as int;
            &&& final(out)@.len() > k
            &&& final(out)@.take(k) == old(out)@
            &&& all_digits(final(out)@.skip(k))
            &&& number_in(final(out)@.skip(k)) == n
        }),
{
    decimal_reads_back(n as nat);
    assert(final(out)@.take(old(out)@.len() as int) =~= old(out)@);
    assert(final(out)@.skip(old(out)@.len() as int) =~= decimal(n as nat));
}

/// [`quote`] puts the character of the byte between quotes behind the text.
pub proof fn quote_appends(text: &str, byte: u8, r: String)
    requires
        call_ensures(quote, (text, byte), r),
    ensures
        ({
            let k = text@.len() as int;
            &&& r@.len() == k + 3
            &&& r@.take(k) == text@
            &&& r@[k] == '\''
            &&& r@[k + 1] as u32 == byte
            &&& r@[k + 2] == '\''
        }),
{
    reveal_strlit("'");
    assert(r@.take(text@.len() as int) =~= text@);
}

} // verus!
