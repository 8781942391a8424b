use vstd::prelude::*;
use crate::address::Address;

verus! {

/// A redemption request: the token, the redeeming account, the amount and
/// the salt that tells it from other requests.
#[derive(Clone, Debug, PartialEq, Eq)]
pub struct RedemptionEntry(pub Address, pub Address, pub i128, pub String);

/// A redemption request as a mathematical value.
pub struct EntryModel {
    pub token: Address,
    pub from: Address,
    pub amount: i128,
    pub salt: Seq<char>,
}

impl View for RedemptionEntry {
    type V = EntryModel;

    open spec fn view(&self) -> EntryModel {
        EntryModel { token: self.0, from: self.1, amount: self.2, salt: self.3@ }
    }
}

/// A record that a contract appends to the event log, one per state
/// transition.
#[derive(Clone, Debug, PartialEq, Eq)]
pub enum Event {
    Mint { contract: Address, to: Address, amount: i128 },
    Burn { contract: Address, from: Address, amount: i128 },
    Transfer { contract: Address, from: Address, to: Address, amount: i128 },
    RedemptionInitiated { contract: Address, entry: RedemptionEntry },
    RedemptionExecuted { contract: Address, entry: RedemptionEntry },
    RedemptionCancelled { contract: Address, entry: RedemptionEntry },
}

/// An event as a mathematical value.
pub enum EventModel {
    Mint { contract: Address, to: Address, amount: i128 },
    Burn { contract: Address, from: Address, amount: i128 },
    Transfer { contract: Address, from: Address, to: Address, amount: i128 },
    RedemptionInitiated { contract: Address, entry: EntryModel },
    RedemptionExecuted { contract: Address, entry: EntryModel },
    RedemptionCancelled { contract: Address, entry: EntryModel },
}

impl View for Event {
    type V = EventModel;

    open spec fn view(&self) -> EventModel {
        match *self {
            Event::Mint { contract, to, amount } => EventModel::Mint { contract, to, amount },
            Event::Burn { contract, from, amount } => EventModel::Burn { contract, from, amount },
            Event::Transfer { contract, from, to, amount } => EventModel::Transfer {
                contract,
                from,
                to,
                amount,
            },
            Event::RedemptionInitiated { contract, entry } => EventModel::RedemptionInitiated {
                contract,
                entry: entry@,
            },
            Event::RedemptionExecuted { contract, entry } => EventModel::RedemptionExecuted {
                contract,
                entry: entry@,
            },
            Event::RedemptionCancelled { contract, entry } => EventModel::RedemptionCancelled {
                contract,
                entry: entry@,
            },
        }
    }
}

/// The mathematical values of a list of events, in order.
pub open spec fn log(events: Seq<Event>) -> Seq<EventModel> {
    events.map_values(|e: Event| e@)
}

impl Event {
    /// The contract that emitted the event.
    pub fn contract(&self) -> (a: Address)
        ensures
            a == match self@ {
                EventModel::Mint { contract, .. } => contract,
                EventModel::Burn { contract, .. } => contract,
                EventModel::Transfer { contract, .. } => contract,
                EventModel::RedemptionInitiated { contract, .. } => contract,
                EventModel::RedemptionExecuted { contract, .. } => contract,
                EventModel::RedemptionCancelled { contract, .. } => contract,
            },
    {
        match self {
            Event::Mint { contract, .. } => *contract,
            Event::Burn { contract, .. } => *contract,
            Event::Transfer { contract, .. } => *contract,
            Event::RedemptionInitiated { contract, .. } => *contract,
            Event::RedemptionExecuted { contract, .. } => *contract,
            Event::RedemptionCancelled { contract, .. } => *contract,
        }
    }

    /// The first topic of the event.
    pub fn topic(&self) -> (s: &'static str)
        ensures
            s@ == match self@ {
                EventModel::Mint { .. } => "mint"@,
                EventModel::Burn { .. } => "burn"@,
                EventModel::Transfer { .. } => "transfer"@,
                _ => "REDEEM"@,
            },
    {
        match self {
            Event::Mint { .. } => "mint",
            Event::Burn { .. } => "burn",
            Event::Transfer { .. } => "transfer",
            _ => "REDEEM",
        }
    }

    /// The number of topics under which the event is logged: its name, and
    /// then the accounts it concerns or, for a redemption, the transition.
    pub fn topic_count(&self) -> (n: usize)
        ensures
            n == match self@ {
                EventModel::Transfer { .. } => 3usize,
                _ => 2usize,
            },
    {
        match self {
            Event::Transfer { .. } => 3,
            _ => 2,
        }
    }

    /// The second topic of a redemption event, which names the transition.
    pub fn transition(&self) -> (s: Option<&'static str>)
        ensures
            match self@ {
                EventModel::RedemptionInitiated { .. } => s matches Some(t) && t@ == "INIT"@,
                EventModel::RedemptionExecuted { .. } => s matches Some(t) && t@ == "EXEC"@,
                EventModel::RedemptionCancelled { .. } => s matches Some(t) && t@ == "CANCEL"@,
                _ => s is None,
            },
    {
        match self {
            Event::RedemptionInitiated { .. } => Some("INIT"),
            Event::RedemptionExecuted { .. } => Some("EXEC"),
            Event::RedemptionCancelled { .. } => Some("CANCEL"),
            _ => None,
        }
    }
}

} // verus!
