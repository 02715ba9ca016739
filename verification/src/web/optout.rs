//! The codes by which users opt out.

use crate::app::App;
use rand::distr::Alphanumeric;
use rand::Rng;
use vstd::prelude::*;

verus! {

/// The number of characters of a code.
pub const CODE_LENGTH: usize = 5;

/// For how many seconds a code holds.
pub const CODE_LIFETIME: u64 = 60;

/// Whether a character is an ASCII letter or digit.
pub open spec fn is_alphanumeric(c: char) -> bool {
    'a' <= c <= 'z' || 'A' <= c <= 'Z' || '0' <= c <= '9'
}

/// Whether a text has the form of a code.
pub open spec fn is_code(text: Seq<char>) -> bool {
    text.len() == CODE_LENGTH && forall|i: int|
        0 <= i < text.len() ==> is_alphanumeric(#[trigger] text[i])
}

/// `Rng::sample` of the generator of the thread (`rand::rng`) with `Alphanumeric`: an ASCII
/// letter or digit, about which nothing else is claimed. Where the system gives no randomness to
/// seed that generator, the call does not return.
#[verifier::external_body]
fn sample_alphanumeric() -> (byte: u8)
    ensures
        is_alphanumeric(byte as char),
{
    rand::rng().sample(Alphanumeric)
}

/// `String::push`: the text with one character more.
pub assume_specification[ String::push ](text: &mut String, c: char)
    ensures
        final(text)@ == old(text)@.push(c),
;

/// A code that was given out.
pub struct IssuedCode {
    pub code: String,
    /// For how many seconds it holds.
    pub lifetime: u64,
}

/// The code of drawn characters: each of them, in the order in which they were drawn.
pub fn code_of(samples: &Vec<u8>) -> (code: String)
    ensures
        code@ == samples@.map_values(|sample: u8| sample as char),
{
    let mut code = String::new();
    for i in 0..samples.len()
        invariant
            code@ =~= samples@.take(i as int).map_values(|sample: u8| sample as char),
    {
        code.push(samples[i] as char);
    }
    assert(samples@.take(samples@.len() as int) =~= samples@);
    code
}

fn random_code() -> (code: String)
    ensures
        is_code(code@),
{
    let mut samples: Vec<u8> = Vec::new();
    for i in 0..CODE_LENGTH
        invariant
            samples@.len() == i,
            forall|j: int| 0 <= j < samples@.len() ==> is_alphanumeric(
                #[trigger] samples@[j] as char,
            ),
    {
        samples.push(sample_alphanumeric());
    }
    code_of(&samples)
}

/// Gives out the given code.
pub fn issue_code(app: &mut App, code: String) -> (issued: IssuedCode)
    ensures
        issued.code == code,
        issued.lifetime == CODE_LIFETIME,
        final(app).codes() == old(app).codes().insert(code@),
        final(app).users == old(app).users,
        final(app).channels == old(app).channels,
        final(app).optout_users == old(app).optout_users,
{
    app.optout_codes.insert(code.clone());
    IssuedCode { code, lifetime: CODE_LIFETIME }
}

/// Gives out a code taken at random.
pub fn optout(app: &mut App) -> (issued: IssuedCode)
    ensures
        is_code(issued.code@),
        issued.lifetime == CODE_LIFETIME,
        final(app).codes() == old(app).codes().insert(issued.code@),
        final(app).users == old(app).users,
        final(app).channels == old(app).channels,
        final(app).optout_users == old(app).optout_users,
{
    let code = random_code();
    issue_code(app, code)
}

/// Lets a code whose time is over hold no longer, and tells whether it still did.
pub fn expire_code(app: &mut App, code: &str) -> (held: bool)
    ensures
        held == old(app).codes().contains(code@),
        final(app).codes() == old(app).codes().remove(code@),
        final(app).users == old(app).users,
        final(app).channels == old(app).channels,
        final(app).optout_users == old(app).optout_users,
{
    app.optout_codes.remove(code).is_some()
}

/// A code holds once it is given out, and no longer when its time is over; no other code is
/// touched.
pub proof fn law_codes_hold_until_they_expire(
    codes: Set<Seq<char>>,
    code: Seq<char>,
    other: Seq<char>,
)
    ensures
        codes.insert(code).contains(code),
        !codes.insert(code).remove(code).contains(code),
        other != code ==> codes.insert(code).remove(code).contains(other) == codes.contains(other),
{
}

/// A code is five ASCII letters or digits, and holds for a minute.
pub proof fn law_codes_have_their_form(text: Seq<char>)
    ensures
        is_code(text) <==> text.len() == 5 && forall|i: int|
            0 <= i < text.len() ==> ('a' <= #[trigger] text[i] <= 'z' || 'A' <= text[i] <= 'Z'
                || '0' <= text[i] <= '9'),
        CODE_LIFETIME == 60,
{
    assert forall|i: int|
        0 <= i < text.len() implies #[trigger] is_alphanumeric(text[i]) == ('a' <= text[i] <= 'z'
        || 'A' <= text[i] <= 'Z' || '0' <= text[i] <= '9') by {}
    if is_code(text) {
        assert forall|i: int| 0 <= i < text.len() implies ('a' <= #[trigger] text[i] <= 'z' || 'A'
            <= text[i] <= 'Z' || '0' <= text[i] <= '9') by {
            assert(is_alphanumeric(text[i]));
        }
    }
}

} // verus!
