//! Tracked keys: the slot kept for each, and the concurrent map of slots.

use crate::store::{Claim, ClaimView};
use dashmap::DashMap;
use vstd::prelude::*;

verus! {

/// One tracked key: an unfinished claim or a recorded response.
///
/// Deadlines are nanoseconds since the store was created.
#[derive(Debug)]
pub enum Slot {
    /// Claimed, no response yet. The claim lapses at `deadline`.
    Claimed { deadline: u128 },
    /// Completed response, replayable until `deadline`.
    Done { deadline: u128, response: Vec<u8> },
}

/// The mathematical value of a [`Slot`].
pub struct SlotView {
    /// When the slot lapses.
    pub deadline: nat,
    /// The recorded response, if the request was completed.
    pub response: Option<Seq<u8>>,
}

impl View for Slot {
    type V = SlotView;

    open spec fn view(&self) -> SlotView {
        match self {
            Slot::Claimed { deadline } => SlotView { deadline: *deadline as nat, response: None },
            Slot::Done { deadline, response } => SlotView {
                deadline: *deadline as nat,
                response: Some(response@),
            },
        }
    }
}

impl SlotView {
    /// Whether the slot's window is still open at `now`.
    pub open spec fn is_live(self, now: nat) -> bool {
        self.deadline > now
    }

    /// What a live slot answers a claim: its response if there is one, that
    /// the request is in flight if there is none.
    pub open spec fn answer(self) -> ClaimView {
        match self.response {
            Some(response) => ClaimView::Replay(response),
            None => ClaimView::InFlight,
        }
    }
}

impl Slot {
    /// When the slot lapses.
    pub fn deadline(&self) -> (deadline: u128)
        ensures
            deadline == self@.deadline,
    {
        match self {
            Slot::Claimed { deadline } => *deadline,
            Slot::Done { deadline, .. } => *deadline,
        }
    }

    /// Whether the slot's window is still open at `now`.
    pub fn is_live(&self, now: u128) -> (live: bool)
        ensures
            live == self@.is_live(now as nat),
    {
        self.deadline() > now
    }

    /// What the slot answers a claim that finds it live.
    pub fn answer(self) -> (claim: Claim)
        ensures
            claim@ == self@.answer(),
    {
        match self {
            Slot::Claimed { .. } => Claim::InFlight,
            Slot::Done { response, .. } => Claim::Replay(response),
        }
    }
}

impl Clone for Slot {
    fn clone(&self) -> (copy: Self)
        ensures
            copy@ == self@,
    {
        match self {
            Slot::Claimed { deadline } => Slot::Claimed { deadline: *deadline },
            Slot::Done { deadline, response } => Slot::Done {
                deadline: *deadline,
                response: response.clone(),
            },
        }
    }
}

/// The sharded concurrent map of the `dashmap` crate.
#[verifier::external_type_specification]
#[verifier::external_body]
#[verifier::reject_recursive_types(K)]
#[verifier::reject_recursive_types(V)]
#[verifier::reject_recursive_types(S)]
pub struct ExDashMap<K, V, S>(dashmap::DashMap<K, V, S>);

/// The slots a map holds, by the text of their keys.
///
/// Within this crate a map is never shared while it changes: every function
/// below that changes one borrows it mutably.
pub uninterp spec fn tracked_slots(map: DashMap<String, Slot>) -> Map<Seq<char>, SlotView>;

/// The slots still live at `now`.
pub open spec fn live_slots(slots: Map<Seq<char>, SlotView>, now: nat) -> Map<
    Seq<char>,
    SlotView,
> {
    slots.restrict(Set::new(|key: Seq<char>| slots.contains_key(key) && slots[key].is_live(now)))
}

/// Calls `DashMap::new`. Trusted: the new map holds no slot.
#[verifier::external_body]
pub(crate) fn new_slots() -> (map: DashMap<String, Slot>)
    ensures
        tracked_slots(map).is_empty(),
{
    DashMap::new()
}

/// Calls `DashMap::len`. Trusted: the number of keys the map holds.
#[verifier::external_body]
pub(crate) fn slot_count(map: &DashMap<String, Slot>) -> (count: usize)
    ensures
        count == tracked_slots(*map).len(),
{
    map.len()
}

/// Calls `DashMap::view` with [`Slot::clone`]. Trusted: the function is
/// applied to the slot the map holds for the key; nothing comes back if it
/// holds none.
#[verifier::external_body]
pub(crate) fn find_slot(map: &DashMap<String, Slot>, key: &str) -> (found: Option<Slot>)
    ensures
        match found {
            Some(slot) => tracked_slots(*map).contains_pair(key@, slot@),
            None => !tracked_slots(*map).contains_key(key@),
        },
{
    map.view(key, |_, slot| slot.clone())
}

/// Calls `DashMap::insert`. Trusted: the map then holds the slot for the key,
/// in place of any it held before, and is otherwise unchanged.
#[verifier::external_body]
pub(crate) fn put_slot(map: &mut DashMap<String, Slot>, key: &str, slot: Slot)
    ensures
        tracked_slots(*final(map)) == tracked_slots(*old(map)).insert(key@, slot@),
{
    map.insert(key.to_owned(), slot);
}

/// Calls `DashMap::remove`. Trusted: the map then holds no slot for the key
/// and is otherwise unchanged.
#[verifier::external_body]
pub(crate) fn drop_slot(map: &mut DashMap<String, Slot>, key: &str)
    ensures
        tracked_slots(*final(map)) == tracked_slots(*old(map)).remove(key@),
{
    map.remove(key);
}

/// Calls `DashMap::retain` with [`Slot::is_live`]. Trusted: the map keeps
/// the slots for which the test holds, unchanged, and no other.
#[verifier::external_body]
pub(crate) fn retain_live(map: &mut DashMap<String, Slot>, now: u128)
    ensures
        tracked_slots(*final(map)) == live_slots(tracked_slots(*old(map)), now as nat),
{
    map.retain(|_, slot| slot.is_live(now));
}

/// A slot answers until its deadline, which it does not outlive: with its
/// response, whole, once that is recorded, and that it is in flight before.
pub proof fn law_slots_in_full(
    slot: Slot,
    deadline: u128,
    now: u128,
    live: bool,
    claim: Claim,
    copy: Slot,
)
    requires
        call_ensures(Slot::deadline, (&slot,), deadline),
        call_ensures(Slot::is_live, (&slot, now), live),
        call_ensures(Slot::answer, (slot,), claim),
        call_ensures(<Slot as Clone>::clone, (&slot,), copy),
    ensures
        live <==> now < deadline,
        match slot {
            Slot::Claimed { deadline: until } => {
                &&& deadline == until
                &&& slot@.deadline == until
                &&& slot@.response is None
                &&& claim is InFlight
            },
            Slot::Done { deadline: until, response } => {
                &&& deadline == until
                &&& slot@.deadline == until
                &&& slot@.response == Some(response@)
                &&& claim matches Claim::Replay(replayed) && replayed@ == response@
            },
        },
        copy@ == slot@,
{
}

/// The live slots at a time are those with a later deadline, unchanged.
pub proof fn law_live_slots_by_deadline(
    slots: Map<Seq<char>, SlotView>,
    now: nat,
    key: Seq<char>,
)
    ensures
        live_slots(slots, now).contains_key(key) <==> (slots.contains_key(key) && now
            < slots[key].deadline),
        live_slots(slots, now).contains_key(key) ==> live_slots(slots, now)[key] == slots[key],
        slots[key].is_live(now) <==> now < slots[key].deadline,
{
}

} // verus!
