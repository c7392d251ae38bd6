//! The dice command: a roll of a twenty-sided die.
use rand::Rng;
use vstd::prelude::*;
use vstd::string::*;
use crate::text::{all_digits, decimal, decimal_value, law_decimal_reads_back, push_decimal};

verus! {

/// What comes before the rolled number.
pub const DICE_PREFIX: &'static str = "Your number is: ";

/// Calls `rand::thread_rng().gen_range(1..21)`. Claimed: the result lies in
/// `1..=20`, as `Rng::gen_range` documents for a half-open range; which
/// number comes is chance and is not stated.
#[verifier::external_body]
fn roll_d20() -> (n: u32)
    ensures
        1 <= n <= 20,
{
    rand::thread_rng().gen_range(1..21)
}

/// The answer for a roll of `n`.
pub open spec fn dice_text(n: nat) -> Seq<char> {
    DICE_PREFIX@ + decimal(n)
}

/// The answer for a roll of `n`.
pub fn dice_reply(n: u32) -> (r: String)
    ensures
        r@ == dice_text(n as nat),
{
    let mut r = String::from_str(DICE_PREFIX);
    push_decimal(&mut r, n as u64);
    r
}

/// Rolls a D20: the number drawn, and the answer that says it.
pub fn roll() -> (r: (u32, String))
    ensures
        1 <= r.0 <= 20,
        r.1@ == dice_text(r.0 as nat),
{
    let n = roll_d20();
    (n, dice_reply(n))
}

/// Rolls a D20 and says the number.
pub fn dice() -> (r: String)
    ensures
        exists|n: nat| 1 <= n <= 20 && r@ == #[trigger] dice_text(n),
{
    let (_n, reply) = roll();
    reply
}

/// The answer names exactly one number, the one rolled: it starts with
/// `DICE_PREFIX`, the rest is the number's digits and reads back as the
/// number, so different rolls give different answers.
pub proof fn law_dice_text_names_the_roll(n: nat, m: nat)
    ensures
        dice_text(n).subrange(0, DICE_PREFIX@.len() as int) == DICE_PREFIX@,
        all_digits(dice_text(n).subrange(DICE_PREFIX@.len() as int, dice_text(n).len() as int)),
        decimal_value(dice_text(n).subrange(DICE_PREFIX@.len() as int, dice_text(n).len() as int))
            == n,
        dice_text(n) == dice_text(m) ==> n == m,
{
    let k = DICE_PREFIX@.len() as int;
    law_decimal_reads_back(n);
    law_decimal_reads_back(m);
    assert(dice_text(n).subrange(0, k) =~= DICE_PREFIX@);
    assert(dice_text(n).subrange(k, dice_text(n).len() as int) =~= decimal(n));
    assert(dice_text(m).subrange(k, dice_text(m).len() as int) =~= decimal(m));
}

} // verus!
