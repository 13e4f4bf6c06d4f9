use serenity::all::{Mentionable, UserId};
use vstd::prelude::*;

verus! {

/// The character of a decimal digit.
pub open spec fn digit_char(d: nat) -> char {
    (48 + d) as char
}

/// The decimal digits of `n`, most significant first: how `u64`'s `Display`
/// writes a number.
pub open spec fn decimal(n: nat) -> Seq<char>
    decreases n,
{
    if n < 10 {
        seq![digit_char(n)]
    } else {
        decimal(n / 10).push(digit_char(n % 10))
    }
}

/// The text that mentions a user in a Discord message: `<@`, the user's id
/// in decimal, `>`.
pub open spec fn mention_text(user_id: u64) -> Seq<char> {
    "<@"@ + decimal(user_id as nat) + ">"@
}

/// Calls serenity's `UserId::new` and `Mentionable::mention`, and formats
/// the `Mention` with its `Display`, which serenity writes as `<@{id}>` with
/// the id in decimal. `UserId::new` panics on 0, which is why 0 is left out.
#[verifier::external_body]
pub(crate) fn user_mention(user_id: u64) -> (text: String)
    requires
        user_id != 0,
    ensures
        text@ == mention_text(user_id),
{
    UserId::new(user_id).mention().to_string()
}

} // verus!
