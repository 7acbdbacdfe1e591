//! The publisher canister: principals subscribe to a topic.
use vstd::prelude::*;
use crate::principal::PrincipalId;
use crate::principal_map::PrincipalMap;

verus! {

/// A subscription: the topic a subscriber follows.
pub struct Subscriber {
    pub topic: String,
}

impl View for Subscriber {
    type V = Seq<char>;

    open spec fn view(&self) -> Seq<char> {
        self.topic@
    }
}

impl Clone for Subscriber {
    fn clone(&self) -> (s: Self)
        ensures
            s@ == self@,
    {
        Subscriber { topic: self.topic.clone() }
    }
}

/// The subscriptions, by subscribing principal.
pub type SubscriberStore = PrincipalMap<Subscriber>;

/// `caller` subscribes with `subscriber`, replacing an earlier subscription.
pub fn subscribe(subscribers: &mut SubscriberStore, caller: PrincipalId, subscriber: Subscriber)
    ensures
        final(subscribers)@ == old(subscribers)@.insert(caller@, subscriber@),
{
    subscribers.insert(caller, subscriber);
}

} // verus!
