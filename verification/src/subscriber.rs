//! Subscriptions to the newsletter. Whether an address is on the list, and
//! putting it there, is the store's work; what to ask of the store, and
//! what to make of its answers, is decided here.

use vstd::prelude::*;

verus! {

/// A subscriber, as the store keeps one.
#[derive(Debug, Clone, PartialEq, Eq)]
pub struct Subscriber {
    pub email: String,
}

/// The form by which a reader subscribes.
#[derive(Debug, Clone, PartialEq, Eq)]
pub struct Subscribe {
    pub email: String,
}

/// How a subscription ended.
#[derive(Debug, Clone, Copy, PartialEq, Eq, Structural)]
pub enum Subscription {
    /// The address was on the list already; nothing was written.
    AlreadySubscribed,
    /// The address was put on the list.
    Created,
    /// The store took the request and put nothing on the list.
    NotCreated,
    /// The store failed.
    StoreFailure,
}

/// Where a subscription stands.
#[derive(Debug, Clone, Copy, PartialEq, Eq, Structural)]
pub enum SubscribeState {
    /// The store is asked whether it knows the address.
    Checking,
    /// The store is asked to add the address.
    Inserting,
    /// Nothing is left to do.
    Done(Subscription),
}

/// What the caller reports back.
#[derive(Debug, Clone, Copy, PartialEq, Eq, Structural)]
pub enum SubscribeEvent {
    /// The store said whether it knows the address.
    Known(bool),
    /// The store ran the insertion; so many rows were written.
    Inserted(u64),
    /// The store failed.
    Failed,
}

/// What the caller is to do next.
#[derive(Debug, Clone, Copy, PartialEq, Eq, Structural)]
pub enum SubscribeAction {
    /// Ask the store whether it knows the address, and report `Known`.
    Check,
    /// Ask the store to add the address, and report `Inserted`.
    Insert,
    /// Tell the reader how it ended.
    Finish(Subscription),
    /// The event was not the one awaited: nothing changes.
    Idle,
}

/// The subscription ended with `result`.
pub open spec fn ended(result: Subscription) -> (SubscribeState, SubscribeAction) {
    (SubscribeState::Done(result), SubscribeAction::Finish(result))
}

/// The state that follows `state` on `event`, and what is to be done then.
/// A known address is left alone; an unknown one is inserted, and counts as
/// created where exactly one row was written. A failure of the store ends
/// the subscription wherever it stands.
pub open spec fn subscribe_next(state: SubscribeState, event: SubscribeEvent) -> (
    SubscribeState,
    SubscribeAction,
) {
    match (state, event) {
        (SubscribeState::Checking, SubscribeEvent::Known(known)) => if known {
            ended(Subscription::AlreadySubscribed)
        } else {
            (SubscribeState::Inserting, SubscribeAction::Insert)
        },
        (SubscribeState::Inserting, SubscribeEvent::Inserted(rows)) => if rows == 1 {
            ended(Subscription::Created)
        } else {
            ended(Subscription::NotCreated)
        },
        (SubscribeState::Checking, SubscribeEvent::Failed) => ended(Subscription::StoreFailure),
        (SubscribeState::Inserting, SubscribeEvent::Failed) => ended(Subscription::StoreFailure),
        (_, _) => (state, SubscribeAction::Idle),
    }
}

impl Subscription {
    /// The subscription leaves the address on the list.
    pub open spec fn on_list(self) -> bool {
        self == Subscription::AlreadySubscribed || self == Subscription::Created
    }

    /// Tells whether the address is on the list now.
    pub fn is_success(&self) -> (r: bool)
        ensures
            r == self.on_list(),
    {
        match self {
            Subscription::AlreadySubscribed => true,
            Subscription::Created => true,
            _ => false,
        }
    }
}

impl Subscribe {
    /// Starts the subscription that the form asks for.
    pub fn begin(&self) -> (r: (SubscribeState, SubscribeAction))
        ensures
            r == (SubscribeState::Checking, SubscribeAction::Check),
    {
        (SubscribeState::Checking, SubscribeAction::Check)
    }

    /// The subscriber that the form describes.
    pub fn subscriber(self) -> (s: Subscriber)
        ensures
            s.email@ == self.email@,
    {
        Subscriber { email: self.email }
    }
}

impl Subscriber {
    /// Moves a subscription on by one event.
    pub fn step(state: SubscribeState, event: SubscribeEvent) -> (r: (
        SubscribeState,
        SubscribeAction,
    ))
        ensures
            r == subscribe_next(state, event),
    {
        match (state, event) {
            (SubscribeState::Checking, SubscribeEvent::Known(known)) => {
                if known {
                    Subscriber::end(Subscription::AlreadySubscribed)
                } else {
                    (SubscribeState::Inserting, SubscribeAction::Insert)
                }
            },
            (SubscribeState::Inserting, SubscribeEvent::Inserted(rows)) => {
                if rows == 1 {
                    Subscriber::end(Subscription::Created)
                } else {
                    Subscriber::end(Subscription::NotCreated)
                }
            },
            (SubscribeState::Checking, SubscribeEvent::Failed) => Subscriber::end(
                Subscription::StoreFailure,
            ),
            (SubscribeState::Inserting, SubscribeEvent::Failed) => Subscriber::end(
                Subscription::StoreFailure,
            ),
            (state, _) => (state, SubscribeAction::Idle),
        }
    }

    /// Ends a subscription with `result`.
    fn end(result: Subscription) -> (r: (SubscribeState, SubscribeAction))
        ensures
            r == ended(result),
    {
        (SubscribeState::Done(result), SubscribeAction::Finish(result))
    }
}

} // verus!
