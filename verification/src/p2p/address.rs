use vstd::prelude::*;

verus! {

/// A network address, as the `multiaddr` crate represents it.
#[verifier::external_type_specification]
#[verifier::external_body]
pub struct ExMultiaddr(multiaddr::Multiaddr);

/// The network address that `multiaddr` parses `text` into, or `None` where it does not
/// accept the text.
pub uninterp spec fn multiaddr_of(text: Seq<char>) -> Option<multiaddr::Multiaddr>;

/// Parses `text` as a network address with `multiaddr`'s `FromStr` implementation.
///
/// Trusted: the result is named by `multiaddr_of`, a function of the text alone; which
/// texts are addresses, and what the address holds, are not stated.
#[verifier::external_body]
pub(crate) fn parse_multiaddr(text: &str) -> (r: Option<multiaddr::Multiaddr>)
    ensures
        r == multiaddr_of(text@),
{
    text.parse::<multiaddr::Multiaddr>().ok()
}

} // verus!
