use vstd::prelude::*;
use vstd::string::StringSliceAdditionalSpecFns;
use rand::Rng;

verus! {

// The subscription flow's verifiable pieces: the confirmation token a new
// subscriber is mailed, and the link it is embedded in. Storing the token
// and sending the mail happen outside; the token rows themselves live in the
// business store.

/// The characters a confirmation token is drawn from.
pub open spec fn is_alphanumeric_char(c: char) -> bool {
    ('0' <= c && c <= '9') || ('a' <= c && c <= 'z') || ('A' <= c && c <= 'Z')
}

/// Relies on `rand::distributions::Alphanumeric` sampled from
/// `rand::thread_rng`: every drawn character is one of the 62 ASCII
/// alphanumerics, and `take` yields exactly the asked-for count. Which
/// characters come is chance, and nothing more is stated.
#[verifier::external_body]
fn sample_alphanumeric(len: usize) -> (r: String)
    ensures
        r@.len() == len,
        forall|i: int| 0 <= i < r@.len() ==> is_alphanumeric_char(#[trigger] r@[i]),
{
    let mut rng = rand::thread_rng();
    std::iter::repeat_with(|| rng.sample(rand::distributions::Alphanumeric))
        .map(char::from)
        .take(len)
        .collect()
}

/// A fresh confirmation token: 25 alphanumeric characters, drawn at random.
pub fn generate_subscription_token() -> (r: String)
    ensures
        r@.len() == 25,
        forall|i: int| 0 <= i < r@.len() ==> is_alphanumeric_char(#[trigger] r@[i]),
{
    sample_alphanumeric(25)
}

/// The confirmation link mailed to a new subscriber.
pub fn confirmation_link(base_url: &str, subscription_token: &str) -> (r: String)
    ensures
        r@ == base_url@ + "/subscriptions/confirm?subscription_token="@ + subscription_token@,
{
    String::from_str(base_url).concat("/subscriptions/confirm?subscription_token=").concat(
        subscription_token,
    )
}

} // verus!
