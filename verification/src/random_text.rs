//! Texts with a random part: the digits of pi, with a tiny chance of one
//! digit being wrong, and a random IPv4 address.

use rand::{Rng, SeedableRng};
use vstd::prelude::*;
use vstd::string::*;
use crate::decimal::{
    all_digits, is_digit, parse_of_decimal, parse_unsigned, decimal, digit_char, digit_text, digits_value, lemma_decimal_digits,
    lemma_decimal_shape, push_decimal,
};

verus! {

/// The thread-local generator of `rand`.
#[verifier::external_type_specification]
#[verifier::external_body]
pub struct ExThreadRng(rand::rngs::ThreadRng);

/// The standard seedable generator of `rand`.
#[verifier::external_type_specification]
#[verifier::external_body]
pub struct ExStdRng(rand::rngs::StdRng);

/// Calls `rand::rng`, a handle to the thread-local generator. Nothing is
/// claimed of it; `rand` panics here only when the operating system gives no
/// entropy.
#[verifier::external_body]
fn thread_generator() -> rand::rngs::ThreadRng {
    rand::rng()
}

/// Calls `Rng::random_range` with `low..high` on the thread-local generator.
/// Claimed: the draw lies in the range. Which value comes is chance.
#[verifier::external_body]
fn thread_draw(rng: &mut rand::rngs::ThreadRng, low: u64, high: u64) -> (res: u64)
    requires
        low < high,
    ensures
        low <= res < high,
{
    rng.random_range(low..high)
}

/// Calls `SeedableRng::from_os_rng` for `StdRng`, seeded by the operating
/// system. Nothing is claimed of it; `rand` panics here only when the
/// operating system gives no entropy.
#[verifier::external_body]
fn os_seeded_generator() -> rand::rngs::StdRng {
    rand::rngs::StdRng::from_os_rng()
}

/// Calls `Rng::random_range` with `low..=high` on a seeded generator.
/// Claimed: the draw lies in the range. Which value comes is chance.
#[verifier::external_body]
fn seeded_draw(rng: &mut rand::rngs::StdRng, low: u8, high: u8) -> (res: u8)
    requires
        low <= high,
    ensures
        low <= res <= high,
{
    rng.random_range(low..=high)
}

/// Pi to fifteen decimal places, as `format!("{:.15}", std::f64::consts::PI)` writes it.
pub open spec fn pi_digits() -> Seq<char> {
    seq!['3', '.', '1', '4', '1', '5', '9', '2', '6', '5', '3', '5', '8', '9', '7', '9', '3']
}

/// The chance that a digit of pi gets replaced, counted in draws out of
/// `MUTATION_SCALE`: 1454 in 10^14, that is 0.000000001454 percent.
pub const MUTATION_DRAWS: u64 = 1454;

/// The number of equally likely draws that `MUTATION_DRAWS` counts against.
pub const MUTATION_SCALE: u64 = 100_000_000_000_000;

/// Whether `text` is pi to fifteen places with at most one digit after the
/// decimal point replaced by a decimal digit.
pub open spec fn is_pi_or_one_digit_off(text: Seq<char>) -> bool {
    ||| text == pi_digits()
    ||| exists|i: int, d: nat|
        2 <= i < pi_digits().len() && d < 10 && text == #[trigger] pi_digits().update(i, digit_char(d))
}

/// `text` with the character at `idx` replaced by the digit `digit`.
pub fn replace_with_digit(text: &str, idx: usize, digit: u64) -> (res: String)
    requires
        idx < text@.len(),
        digit < 10,
    ensures
        res@ == text@.update(idx as int, digit_char(digit as nat)),
{
    let len = text.unicode_len();
    let mut res = String::from_str(text.substring_char(0, idx));
    res.append(digit_text(digit));
    res.append(text.substring_char(idx + 1, len));
    assert(res@ =~= text@.update(idx as int, digit_char(digit as nat)));
    res
}

/// What the pi command shows for its draws: pi to fifteen places, or, when
/// the chance draw falls below `MUTATION_DRAWS`, pi with the character at
/// `idx` replaced by the digit `digit`.
pub open spec fn pi_for_draws(chance: u64, idx: int, digit: nat) -> Seq<char> {
    if chance < MUTATION_DRAWS {
        pi_digits().update(idx, digit_char(digit))
    } else {
        pi_digits()
    }
}

/// Pi to fifteen decimal places for given draws: `chance` decides whether a
/// digit is replaced (below `MUTATION_DRAWS` out of `MUTATION_SCALE`), `idx`
/// which character after the decimal point, and `digit` by what.
pub fn pi_from_draws(chance: u64, idx: usize, digit: u64) -> (res: String)
    requires
        2 <= idx < 17,
        digit < 10,
    ensures
        res@ == pi_for_draws(chance, idx as int, digit as nat),
{
    proof {
        reveal_strlit("3.141592653589793");
    }
    let digits = "3.141592653589793";
    assert(digits@ =~= pi_digits());
    if chance < MUTATION_DRAWS {
        replace_with_digit(digits, idx, digit)
    } else {
        String::from_str(digits)
    }
}

/// Pi to fifteen decimal places. With a chance of 1454 in 10^14 one digit
/// after the decimal point, picked at random, is replaced by a random digit.
/// The position and the digit are drawn only when a digit is replaced.
pub fn pi() -> (res: String)
    ensures
        exists|chance: u64, idx: int, digit: nat|
            2 <= idx < 17 && digit < 10 && res@ == #[trigger] pi_for_draws(chance, idx, digit),
        is_pi_or_one_digit_off(res@),
{
    let mut rng = thread_generator();
    let chance = thread_draw(&mut rng, 0, MUTATION_SCALE);
    let (idx, digit) = if chance < MUTATION_DRAWS {
        let idx = thread_draw(&mut rng, 2, 17) as usize;
        let digit = thread_draw(&mut rng, 0, 10);
        (idx, digit)
    } else {
        (2, 0)
    };
    let res = pi_from_draws(chance, idx, digit);
    assert(pi_for_draws(chance, idx as int, digit as nat) == res@);
    proof {
        if chance < MUTATION_DRAWS {
            assert(pi_digits().update(idx as int, digit_char(digit as nat)) == res@);
        }
    }
    res
}

/// The dotted-decimal text of an IPv4 address.
pub open spec fn ipv4_text(a: u8, b: u8, c: u8, d: u8) -> Seq<char> {
    decimal(a as nat) + seq!['.'] + decimal(b as nat) + seq!['.'] + decimal(c as nat) + seq!['.']
        + decimal(d as nat)
}

/// The dotted-decimal text of the address with octets `a.b.c.d`.
pub fn format_ipv4(a: u8, b: u8, c: u8, d: u8) -> (res: String)
    ensures
        res@ == ipv4_text(a, b, c, d),
{
    proof {
        reveal_strlit(".");
    }
    let mut s = String::new();
    push_decimal(&mut s, a as u64);
    s.append(".");
    push_decimal(&mut s, b as u64);
    s.append(".");
    push_decimal(&mut s, c as u64);
    s.append(".");
    push_decimal(&mut s, d as u64);
    s
}

/// A random IPv4 address in dotted-decimal text, each octet drawn from a
/// generator seeded by the operating system. It is always a valid address.
pub fn get_random_ipv4() -> (res: String)
    ensures
        exists|a: u8, b: u8, c: u8, d: u8| res@ == ipv4_text(a, b, c, d),
        is_dotted_quad(res@),
{
    let mut rng = os_seeded_generator();
    let a = seeded_draw(&mut rng, 0, 255);
    let b = seeded_draw(&mut rng, 0, 255);
    let c = seeded_draw(&mut rng, 0, 255);
    let d = seeded_draw(&mut rng, 0, 255);
    proof {
        ipv4_text_is_dotted_quad(a, b, c, d);
    }
    format_ipv4(a, b, c, d)
}


/// Whether `t` is one octet of a dotted-decimal address: one to three digits,
/// worth at most 255, without a leading zero.
pub open spec fn is_octet_text(t: Seq<char>) -> bool {
    &&& 1 <= t.len() <= 3
    &&& all_digits(t)
    &&& digits_value(t) <= 255
    &&& t.len() > 1 ==> t[0] != '0'
}

/// Whether `s` is a valid IPv4 address in dotted-decimal notation: four
/// octets joined by dots.
pub open spec fn is_dotted_quad(s: Seq<char>) -> bool {
    exists|p: Seq<char>, q: Seq<char>, r: Seq<char>, t: Seq<char>|
        is_octet_text(p) && is_octet_text(q) && is_octet_text(r) && is_octet_text(t) && s == p
            + seq!['.'] + q + seq!['.'] + r + seq!['.'] + t
}

/// The decimal text of a byte is a valid octet.
proof fn lemma_octet(n: u8)
    ensures
        is_octet_text(decimal(n as nat)),
{
    lemma_decimal_digits(n as nat);
    lemma_decimal_shape(n as nat);
}

/// Every address text made from four bytes is a valid dotted quad.
pub proof fn ipv4_text_is_dotted_quad(a: u8, b: u8, c: u8, d: u8)
    ensures
        is_dotted_quad(ipv4_text(a, b, c, d)),
{
    lemma_octet(a);
    lemma_octet(b);
    lemma_octet(c);
    lemma_octet(d);
    let p = decimal(a as nat);
    let q = decimal(b as nat);
    let r = decimal(c as nat);
    let t = decimal(d as nat);
    assert(ipv4_text(a, b, c, d) == p + seq!['.'] + q + seq!['.'] + r + seq!['.'] + t);
}


/// Pi for given draws: a draw at or above `MUTATION_DRAWS` leaves pi exact;
/// a draw below it changes nothing but the character at `idx`, which becomes
/// the drawn digit, so the text is still seventeen characters with `3.` in front.
pub proof fn pi_draws_change_at_most_one_digit(chance: u64, idx: int, digit: nat)
    requires
        2 <= idx < 17,
        digit < 10,
    ensures
        chance >= MUTATION_DRAWS ==> pi_for_draws(chance, idx, digit) == pi_digits(),
        chance < MUTATION_DRAWS ==> pi_for_draws(chance, idx, digit)[idx] == digit_char(digit),
        forall|j: int|
            0 <= j < 17 && j != idx ==> #[trigger] pi_for_draws(chance, idx, digit)[j]
                == pi_digits()[j],
        pi_for_draws(chance, idx, digit).len() == 17,
        pi_for_draws(chance, idx, digit)[0] == '3' && pi_for_draws(chance, idx, digit)[1] == '.',
{
}

/// The address text is the four octets in order, each reading back as its
/// byte, separated by dots.
pub proof fn ipv4_text_reads_back(a: u8, b: u8, c: u8, d: u8)
    ensures
        exists|p: Seq<char>, q: Seq<char>, r: Seq<char>, t: Seq<char>|
            #[trigger] ipv4_text(a, b, c, d) == p + seq!['.'] + q + seq!['.'] + r + seq!['.'] + t
                && parse_unsigned(p, 255) == Some(a as nat) && parse_unsigned(q, 255) == Some(
                b as nat,
            ) && parse_unsigned(r, 255) == Some(c as nat) && parse_unsigned(t, 255) == Some(
                d as nat,
            ) && !p.contains('.') && !q.contains('.') && !r.contains('.') && !t.contains('.'),
{
    parse_of_decimal(a as nat, 255);
    parse_of_decimal(b as nat, 255);
    parse_of_decimal(c as nat, 255);
    parse_of_decimal(d as nat, 255);
    lemma_decimal_digits(a as nat);
    lemma_decimal_digits(b as nat);
    lemma_decimal_digits(c as nat);
    lemma_decimal_digits(d as nat);
    let p = decimal(a as nat);
    let q = decimal(b as nat);
    let r = decimal(c as nat);
    let t = decimal(d as nat);
    assert(!p.contains('.')) by {
        if p.contains('.') {
            let i = choose|i: int| 0 <= i < p.len() && p[i] == '.';
            assert(is_digit(p[i]));
        }
    }
    assert(!q.contains('.')) by {
        if q.contains('.') {
            let i = choose|i: int| 0 <= i < q.len() && q[i] == '.';
            assert(is_digit(q[i]));
        }
    }
    assert(!r.contains('.')) by {
        if r.contains('.') {
            let i = choose|i: int| 0 <= i < r.len() && r[i] == '.';
            assert(is_digit(r[i]));
        }
    }
    assert(!t.contains('.')) by {
        if t.contains('.') {
            let i = choose|i: int| 0 <= i < t.len() && t[i] == '.';
            assert(is_digit(t[i]));
        }
    }
    assert(ipv4_text(a, b, c, d) == p + seq!['.'] + q + seq!['.'] + r + seq!['.'] + t);
}

} // verus!
