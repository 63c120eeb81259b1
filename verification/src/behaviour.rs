//! The gossip behaviour that the node hands to `libp2p`'s swarm: messages
//! are signed with the node's key, and a message whose signature does not
//! verify is never accepted.

use vstd::prelude::*;
use libp2p::gossipsub::AllowAllSubscriptionFilter;
use libp2p::gossipsub::Behaviour;
use libp2p::gossipsub::ConfigBuilder;
use libp2p::gossipsub::IdentityTransform;
use libp2p::gossipsub::MessageAuthenticity;
use libp2p::gossipsub::ValidationMode;
use libp2p::identity::Keypair;

verus! {

/// `libp2p`'s key pair.
#[verifier::external_type_specification]
#[verifier::external_body]
pub struct ExKeypair(Keypair);

/// `libp2p`'s transform that leaves a message's data as it is.
#[verifier::external_type_specification]
#[verifier::external_body]
pub struct ExIdentityTransform(IdentityTransform);

/// `libp2p`'s filter that lets every subscription pass.
#[verifier::external_type_specification]
#[verifier::external_body]
pub struct ExAllowAllSubscriptionFilter(AllowAllSubscriptionFilter);

/// `libp2p`'s gossip behaviour.
#[verifier::external_type_specification]
#[verifier::external_body]
#[verifier::reject_recursive_types(D)]
#[verifier::reject_recursive_types(F)]
pub struct ExBehaviour<D, F>(Behaviour<D, F>);

/// Builds the behaviour with `ConfigBuilder::build` and `Behaviour::new`:
/// strict validation, and messages signed with `local_key`. The contract
/// claims that a behaviour always comes back: `build` refuses none of its
/// defaults, and `new` refuses signing under strict validation for no key.
/// Nothing is claimed of the behaviour itself: the library cannot look into
/// it. `new` reads the system's clock for its first sequence number, and
/// ends the process on a clock that is set before 1970.
#[verifier::external_body]
pub fn init_gossipsub(local_key: Keypair) -> (behaviour: Option<
    Behaviour<IdentityTransform, AllowAllSubscriptionFilter>,
>)
    ensures
        behaviour is Some,
{
    match ConfigBuilder::default().validation_mode(ValidationMode::Strict).build() {
        Ok(config) => Behaviour::new(MessageAuthenticity::Signed(local_key), config).ok(),
        Err(_) => None,
    }
}

} // verus!
