//! Personal invite codes: the first three characters of the username in upper
//! case, then two random numbers, joined by hyphens (`ALI-4821-63017`).

use vstd::prelude::*;
use vstd::string::*;
use rand::Rng;

verus! {

/// Lower bound (inclusive) of the first random part of an invite code.
pub const FIRST_PART_MIN: u32 = 1000;
/// Upper bound (exclusive) of the first random part of an invite code.
pub const FIRST_PART_END: u32 = 10000;
/// Lower bound (inclusive) of the second random part of an invite code.
pub const SECOND_PART_MIN: u32 = 10000;
/// Upper bound (exclusive) of the second random part of an invite code.
pub const SECOND_PART_END: u32 = 100000;

/// What `str::to_uppercase` returns for a string: its Unicode upper-case mapping.
pub uninterp spec fn uppercase(s: Seq<char>) -> Seq<char>;

/// The decimal digit character for `d < 10`.
pub open spec fn digit_char(d: nat) -> char {
    ((d + 48) as u32) as char
}

/// The decimal representation of `n`, without sign or leading zeros.
pub open spec fn decimal(n: nat) -> Seq<char>
    decreases n,
{
    if n < 10 {
        seq![digit_char(n)]
    } else {
        decimal(n / 10).push(digit_char(n % 10))
    }
}

/// The first three characters of `s`, or all of `s` when it is shorter.
pub open spec fn first_three(s: Seq<char>) -> Seq<char> {
    if s.len() <= 3 {
        s
    } else {
        s.take(3)
    }
}

/// An invite code from its (already upper-cased) prefix and its two numbers.
pub open spec fn joined_code(prefix: Seq<char>, first: nat, second: nat) -> Seq<char> {
    prefix + seq!['-'] + decimal(first) + seq!['-'] + decimal(second)
}

/// How many characters of a username go into its invite code: three, or all of
/// them when the username is shorter.
pub open spec fn prefix_len(s: Seq<char>) -> int {
    if s.len() < 3 {
        s.len() as int
    } else {
        3
    }
}

/// The invite code built from a username and the two numbers drawn for it.
pub open spec fn invite_code(username: Seq<char>, first: nat, second: nat) -> Seq<char> {
    joined_code(uppercase(first_three(username)), first, second)
}

/// Calls `str::to_uppercase`; the result is named by [`uppercase`].
#[verifier::external_body]
fn to_uppercase(s: &str) -> (r: String)
    ensures
        r@ == uppercase(s@),
{
    s.to_uppercase()
}

/// Calls `String::push`, which appends one character at the end of the string.
#[verifier::external_body]
fn push_char(s: &mut String, c: char)
    ensures
        final(s)@ == old(s)@.push(c),
{
    s.push(c)
}

/// Calls `rand::thread_rng().gen_range(low..high)`: a number drawn from the
/// thread-local generator, which is at least `low` and below `high`.  Which
/// number comes back is up to chance, so nothing more is stated of it.
#[verifier::external_body]
fn random_in_range(low: u32, high: u32) -> (r: u32)
    requires
        low < high,
    ensures
        low <= r < high,
{
    rand::thread_rng().gen_range(low..high)
}

fn digit(d: u32) -> (c: char)
    requires
        d < 10,
    ensures
        c == digit_char(d as nat),
{
    let b: u8 = (d as u8) + 48;
    b as char
}

/// Appends the decimal representation of `n` to `out`.
pub fn push_decimal(out: &mut String, n: u32)
    ensures
        final(out)@ == old(out)@ + decimal(n as nat),
    decreases n,
{
    if n >= 10 {
        push_decimal(out, n / 10);
    }
    push_char(out, digit(n % 10));
    proof {
        if n >= 10 {
            assert(decimal(n as nat) == decimal((n / 10) as nat).push(digit_char((n % 10) as nat)));
            assert(old(out)@ + decimal((n / 10) as nat) + seq![digit_char((n % 10) as nat)]
                =~= old(out)@ + decimal(n as nat));
        }
    }
}

/// Builds the invite code for `username` from the two numbers drawn for it.
pub fn format_invite_code(username: &str, first: u32, second: u32) -> (code: String)
    ensures
        code@ == invite_code(username@, first as nat, second as nat),
        code@ == uppercase(username@.take(prefix_len(username@))) + seq!['-'] + decimal(first as nat)
            + seq!['-'] + decimal(second as nat),
{
    let len = username.unicode_len();
    let take: usize = if len <= 3 { len } else { 3 };
    let prefix = username.substring_char(0, take);
    assert(prefix@ =~= username@.take(prefix_len(username@)));
    assert(prefix@ == first_three(username@)) by {
        if username@.len() <= 3 {
            assert(username@.subrange(0, take as int) =~= username@);
        }
    }
    join_invite_code(to_uppercase(prefix), first, second)
}

/// Joins an upper-cased prefix and the two numbers of an invite code with hyphens.
pub fn join_invite_code(prefix: String, first: u32, second: u32) -> (code: String)
    ensures
        code@ == joined_code(prefix@, first as nat, second as nat),
        code@ == prefix@ + seq!['-'] + decimal(first as nat) + seq!['-'] + decimal(second as nat),
{
    let mut code = prefix;
    push_char(&mut code, '-');
    push_decimal(&mut code, first);
    push_char(&mut code, '-');
    push_decimal(&mut code, second);
    assert(code@ =~= joined_code(prefix@, first as nat, second as nat));
    code
}

/// Draws the two random parts and builds a fresh invite code for `username`:
/// the upper-cased first three characters of the name, then a first number in
/// `1000..10000` and a second one in `10000..100000`, joined by hyphens.
///
/// The two numbers come from the thread-local random generator, one fresh draw
/// each per call.  Which numbers come out is up to chance, and any pair in the
/// ranges (a fixed pair included) is a possible outcome of the draws, so the
/// contract says what holds of every outcome and no more: it does not state
/// that two calls draw independently.
pub fn generate_invite_code(username: &str) -> (code: String)
    ensures
        exists|first: u32, second: u32|
            FIRST_PART_MIN <= first < FIRST_PART_END && SECOND_PART_MIN <= second
                < SECOND_PART_END && code@ == #[trigger] invite_code(
                username@,
                first as nat,
                second as nat,
            ) && code@ == uppercase(username@.take(prefix_len(username@))) + seq!['-'] + decimal(
                first as nat,
            ) + seq!['-'] + decimal(second as nat),
{
    let first = random_in_range(FIRST_PART_MIN, FIRST_PART_END);
    let second = random_in_range(SECOND_PART_MIN, SECOND_PART_END);
    format_invite_code(username, first, second)
}


/// `first_three` keeps exactly the first `min(len, 3)` characters of a string,
/// in order.
pub proof fn lemma_first_three(s: Seq<char>)
    ensures
        first_three(s).len() == prefix_len(s),
        first_three(s).len() <= 3,
        s.len() >= 3 ==> first_three(s).len() == 3,
        forall|i: int| 0 <= i < first_three(s).len() ==> #[trigger] first_three(s)[i] == s[i],
        first_three(s) == s.take(prefix_len(s)),
{
    assert(first_three(s) =~= s.take(prefix_len(s)));
}

proof fn lemma_digit_char_value(d: nat)
    requires
        d < 10,
    ensures
        digit_char(d) as int == d + 48,
{
    let x: u32 = (d + 48) as u32;
    assert(x == d + 48);
    assert((x as char) as u32 == x);
}

/// The number written by a string of decimal digits, most significant first.
pub open spec fn digits_value(s: Seq<char>) -> int
    decreases s.len(),
{
    if s.len() == 0 {
        0
    } else {
        digits_value(s.drop_last()) * 10 + ((s.last() as int) - 48)
    }
}

/// `decimal(n)` is the usual way of writing `n`: it is made of digits only, it
/// has no leading zero (unless `n` is zero, written `0`), and read back as a
/// number it gives `n`.
pub proof fn lemma_decimal_reads_back(n: nat)
    ensures
        decimal(n).len() >= 1,
        forall|i: int| 0 <= i < decimal(n).len() ==> #[trigger] is_digit(decimal(n)[i]),
        n > 0 ==> decimal(n)[0] != '0',
        n == 0 ==> decimal(n) == seq!['0'],
        digits_value(decimal(n)) == n,
    decreases n,
{
    lemma_decimal_digits(n);
    lemma_digit_char_value(n % 10);
    if n < 10 {
        assert(n % 10 == n);
        assert(decimal(n).drop_last() =~= Seq::<char>::empty());
        assert(digits_value(Seq::<char>::empty()) == 0);
        assert(decimal(n).last() == digit_char(n));
    } else {
        lemma_decimal_reads_back(n / 10);
        assert(decimal(n).drop_last() =~= decimal(n / 10));
        assert(decimal(n).last() == digit_char(n % 10));
        assert(decimal(n)[0] == decimal(n / 10)[0]);
        assert((n / 10) * 10 + n % 10 == n) by (nonlinear_arith);
    }
}

/// `c` is one of the characters `0`..`9`.
pub open spec fn is_digit(c: char) -> bool {
    '0' <= c <= '9'
}

proof fn lemma_decimal_digits(n: nat)
    ensures
        forall|i: int| 0 <= i < decimal(n).len() ==> #[trigger] is_digit(decimal(n)[i]),
    decreases n,
{
    if n >= 10 {
        lemma_decimal_digits(n / 10);
        assert forall|i: int| 0 <= i < decimal(n).len() implies #[trigger] is_digit(decimal(n)[i]) by {
            if i < decimal(n / 10).len() {
                assert(decimal(n)[i] == decimal(n / 10)[i]);
            }
        }
    }
}

proof fn lemma_decimal_len(n: nat)
    ensures
        1000 <= n < 10000 ==> decimal(n).len() == 4,
        10000 <= n < 100000 ==> decimal(n).len() == 5,
{
    reveal_with_fuel(decimal, 6);
    assert(n / 10 / 10 / 10 / 10 == n / 10000);
}

/// Every invite code has the shape `P-dddd-ddddd`: the upper-cased first
/// characters of the username, a hyphen, the four digits of the first number,
/// a hyphen and the five digits of the second number.
pub proof fn lemma_invite_code_shape(username: Seq<char>, first: nat, second: nat)
    requires
        FIRST_PART_MIN <= first < FIRST_PART_END,
        SECOND_PART_MIN <= second < SECOND_PART_END,
    ensures
        ({
            let p = uppercase(first_three(username)).len() as int;
            let code = invite_code(username, first, second);
            &&& code.len() == p + 11
            &&& code.subrange(0, p) == uppercase(first_three(username))
            &&& code[p] == '-'
            &&& code[p + 5] == '-'
            &&& code.subrange(p + 1, p + 5) == decimal(first)
            &&& code.subrange(p + 6, p + 11) == decimal(second)
            &&& forall|i: int| p < i < p + 11 && i != p + 5 ==> #[trigger] is_digit(code[i])
        }),
{
    lemma_decimal_len(first);
    lemma_decimal_len(second);
    lemma_decimal_digits(first);
    lemma_decimal_digits(second);
    let pre = uppercase(first_three(username));
    let p = pre.len() as int;
    let code = invite_code(username, first, second);
    assert(code =~= pre + seq!['-'] + decimal(first) + seq!['-'] + decimal(second));
    assert(code.subrange(0, p) =~= pre);
    assert(code.subrange(p + 1, p + 5) =~= decimal(first));
    assert(code.subrange(p + 6, p + 11) =~= decimal(second));
    assert forall|i: int| p < i < p + 11 && i != p + 5 implies #[trigger] is_digit(code[i]) by {
        if i < p + 5 {
            assert(code[i] == decimal(first)[i - p - 1]);
        } else {
            assert(code[i] == decimal(second)[i - p - 6]);
        }
    }
}

} // verus!
