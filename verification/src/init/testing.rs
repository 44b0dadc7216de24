//! Check of the invariants of the init actor's state.

use crate::types::{address_eq, ActorID};
use fvm_shared::address::Address;
use std::collections::HashMap;
use vstd::prelude::*;

verus! {

/// The first actor id that does not belong to a singleton actor.
pub const FIRST_NON_SINGLETON_ADDR: ActorID = 100;

/// The protocol of an address.
#[derive(Clone, Copy, Debug, PartialEq, Eq, Structural)]
pub enum Protocol {
    ID,
    Secp256k1,
    Actor,
    BLS,
    Delegated,
}

/// One entry of the address map: an address, its protocol, and the actor
/// id it maps to.
#[derive(Clone, Copy, Debug)]
pub struct AddressEntry {
    pub key: Address,
    pub protocol: Protocol,
    pub actor_id: ActorID,
}

/// The init actor's state, with the address map as the list of its
/// entries.
pub struct State {
    pub address_map: Vec<AddressEntry>,
    pub next_id: ActorID,
    pub network_name: String,
}

/// What was found of the state.
pub struct StateSummary {
    /// The address map as pairs, in the order of the entries; a later pair
    /// overrides an earlier one with the same address.
    pub ids_by_address: Vec<(Address, ActorID)>,
    pub next_id: ActorID,
}

/// A broken invariant.
#[derive(Clone, Copy, Debug, PartialEq, Eq)]
pub enum Violation {
    /// The network name is empty.
    EmptyNetworkName,
    /// The next id is one of the singleton ids.
    NextIdTooLow { next_id: ActorID },
    /// A key of the address map is an ID address.
    KeyIsIdAddress { key: Address },
    /// An address maps to a singleton id.
    SingletonId { actor_id: ActorID },
    /// Two addresses of one kind map to the same id.
    DuplicateMapping { actor_id: ActorID, key: Address, duplicate: Address },
}

/// The map that the pairs stand for: each pair inserted in order.
pub open spec fn pairs_map(pairs: Seq<(Address, ActorID)>) -> Map<Address, ActorID>
    decreases pairs.len(),
{
    if pairs.len() == 0 {
        Map::empty()
    } else {
        pairs_map(pairs.drop_last()).insert(pairs.last().0, pairs.last().1)
    }
}

/// Whether an entry counts as a delegated address, as a stable address, or
/// as neither.
pub open spec fn is_delegated(e: AddressEntry) -> bool {
    e.protocol == Protocol::Delegated
}

/// Whether an entry is a stable address: neither an ID address nor a
/// delegated one.
pub open spec fn is_stable(e: AddressEntry) -> bool {
    e.protocol != Protocol::Delegated && e.protocol != Protocol::ID
}

/// The delegated addresses by id among the first `n` entries; of two with
/// the same id the later one stays.
pub open spec fn delegated_by_id(entries: Seq<AddressEntry>, n: int) -> Map<ActorID, Address>
    decreases n,
{
    if n <= 0 {
        Map::empty()
    } else if is_delegated(entries[n - 1]) {
        delegated_by_id(entries, n - 1).insert(entries[n - 1].actor_id, entries[n - 1].key)
    } else {
        delegated_by_id(entries, n - 1)
    }
}

/// The stable addresses by id among the first `n` entries; of two with the
/// same id the later one stays.
pub open spec fn stable_by_id(entries: Seq<AddressEntry>, n: int) -> Map<ActorID, Address>
    decreases n,
{
    if n <= 0 {
        Map::empty()
    } else if is_stable(entries[n - 1]) {
        stable_by_id(entries, n - 1).insert(entries[n - 1].actor_id, entries[n - 1].key)
    } else {
        stable_by_id(entries, n - 1)
    }
}

/// The violations that entry `i` adds, in order: its key is an ID address;
/// its id is a singleton id; then, for an ID address, the first once more;
/// for another address, a duplicate when an earlier address of its kind
/// maps to the same id.
pub open spec fn entry_violations(entries: Seq<AddressEntry>, i: int) -> Seq<Violation> {
    let e = entries[i];
    let first = if e.protocol == Protocol::ID {
        seq![Violation::KeyIsIdAddress { key: e.key }]
    } else {
        Seq::empty()
    };
    let second = if e.actor_id < FIRST_NON_SINGLETON_ADDR {
        seq![Violation::SingletonId { actor_id: e.actor_id }]
    } else {
        Seq::empty()
    };
    let third = if e.protocol == Protocol::ID {
        seq![Violation::KeyIsIdAddress { key: e.key }]
    } else if is_delegated(e) {
        if delegated_by_id(entries, i).contains_key(e.actor_id) {
            seq![
                Violation::DuplicateMapping {
                    actor_id: e.actor_id,
                    key: e.key,
                    duplicate: delegated_by_id(entries, i)[e.actor_id],
                },
            ]
        } else {
            Seq::empty()
        }
    } else {
        if stable_by_id(entries, i).contains_key(e.actor_id) {
            seq![
                Violation::DuplicateMapping {
                    actor_id: e.actor_id,
                    key: e.key,
                    duplicate: stable_by_id(entries, i)[e.actor_id],
                },
            ]
        } else {
            Seq::empty()
        }
    };
    first + second + third
}

/// The violations of the first `n` entries, entry by entry.
pub open spec fn entries_violations(entries: Seq<AddressEntry>, n: int) -> Seq<Violation>
    decreases n,
{
    if n <= 0 {
        Seq::empty()
    } else {
        entries_violations(entries, n - 1) + entry_violations(entries, n - 1)
    }
}

/// The violations of the state's own fields: an empty network name, then a
/// next id among the singleton ids.
pub open spec fn field_violations(name_empty: bool, next_id: ActorID) -> Seq<Violation> {
    let first = if name_empty {
        seq![Violation::EmptyNetworkName]
    } else {
        Seq::empty()
    };
    let second = if next_id < FIRST_NON_SINGLETON_ADDR {
        seq![Violation::NextIdTooLow { next_id }]
    } else {
        Seq::empty()
    };
    first + second
}

/// The pairs of the first `n` entries, in order.
pub open spec fn entry_pairs(entries: Seq<AddressEntry>, n: int) -> Seq<(Address, ActorID)>
    decreases n,
{
    if n <= 0 {
        Seq::empty()
    } else {
        entry_pairs(entries, n - 1).push((entries[n - 1].key, entries[n - 1].actor_id))
    }
}

impl StateSummary {
    /// The id that an address maps to, if any.
    pub fn id_of(&self, address: &Address) -> (r: Option<ActorID>)
        ensures
            r.is_some() == pairs_map(self.ids_by_address@).contains_key(*address),
            r.is_some() ==> r.unwrap() == pairs_map(self.ids_by_address@)[*address],
    {
        let mut i: usize = self.ids_by_address.len();
        proof {
            assert(self.ids_by_address@.subrange(0, i as int) =~= self.ids_by_address@);
        }
        while i > 0
            invariant
                i <= self.ids_by_address@.len(),
                pairs_map(self.ids_by_address@).contains_key(*address) == pairs_map(
                    self.ids_by_address@.subrange(0, i as int),
                ).contains_key(*address),
                pairs_map(self.ids_by_address@).contains_key(*address) ==> pairs_map(self.ids_by_address@)[*address]
                    == pairs_map(self.ids_by_address@.subrange(0, i as int))[*address],
            decreases i,
        {
            let ghost part = self.ids_by_address@.subrange(0, i as int);
            proof {
                assert(part.drop_last() =~= self.ids_by_address@.subrange(0, i - 1));
                assert(part.last() == self.ids_by_address@[i - 1]);
            }
            if address_eq(&self.ids_by_address[i - 1].0, address) {
                return Some(self.ids_by_address[i - 1].1);
            }
            i -= 1;
        }
        None
    }
}

/// Checks the invariants of the init actor's state.
///
/// The network name must not be empty and the next id must not be a
/// singleton id. No key of the address map may be an ID address, no
/// address may map to a singleton id, and no two delegated addresses, nor
/// two other addresses, may map to the same id. The summary holds the
/// address map as pairs and the next id; the violations come in the order
/// in which they are met.
pub fn check_state_invariants(state: &State) -> (r: (StateSummary, Vec<Violation>))
    ensures
        r.0.next_id == state.next_id,
        r.0.ids_by_address@ == entry_pairs(state.address_map@, state.address_map@.len() as int),
        r.1@ == field_violations(state.network_name@.len() == 0, state.next_id) + entries_violations(
            state.address_map@,
            state.address_map@.len() as int,
        ),
{
    let mut acc: Vec<Violation> = Vec::new();
    if state.network_name.as_str().is_empty() {
        acc.push(Violation::EmptyNetworkName);
    }
    if state.next_id < FIRST_NON_SINGLETON_ADDR {
        acc.push(Violation::NextIdTooLow { next_id: state.next_id });
    }
    let ghost fields = field_violations(state.network_name@.len() == 0, state.next_id);
    assert(acc@ =~= fields);
    let mut pairs: Vec<(Address, ActorID)> = Vec::new();
    let mut stable_address_by_id: HashMap<ActorID, Address> = HashMap::new();
    let mut delegated_address_by_id: HashMap<ActorID, Address> = HashMap::new();
    let mut i: usize = 0;
    while i < state.address_map.len()
        invariant
            i <= state.address_map@.len(),
            fields == field_violations(state.network_name@.len() == 0, state.next_id),
            acc@ == fields + entries_violations(state.address_map@, i as int),
            pairs@ == entry_pairs(state.address_map@, i as int),
            stable_address_by_id@ == stable_by_id(state.address_map@, i as int),
            delegated_address_by_id@ == delegated_by_id(state.address_map@, i as int),
        decreases state.address_map@.len() - i,
    {
        let e = state.address_map[i];
        let ghost before = acc@;
        match e.protocol {
            Protocol::ID => {
                acc.push(Violation::KeyIsIdAddress { key: e.key });
            },
            _ => {},
        }
        if e.actor_id < FIRST_NON_SINGLETON_ADDR {
            acc.push(Violation::SingletonId { actor_id: e.actor_id });
        }
        match e.protocol {
            Protocol::ID => {
                acc.push(Violation::KeyIsIdAddress { key: e.key });
            },
            Protocol::Delegated => {
                match delegated_address_by_id.insert(e.actor_id, e.key) {
                    Some(duplicate) => {
                        acc.push(Violation::DuplicateMapping { actor_id: e.actor_id, key: e.key, duplicate });
                    },
                    None => {},
                }
            },
            _ => {
                match stable_address_by_id.insert(e.actor_id, e.key) {
                    Some(duplicate) => {
                        acc.push(Violation::DuplicateMapping { actor_id: e.actor_id, key: e.key, duplicate });
                    },
                    None => {},
                }
            },
        }
        pairs.push((e.key, e.actor_id));
        proof {
            assert(acc@ =~= before + entry_violations(state.address_map@, i as int));
            assert(before + entry_violations(state.address_map@, i as int) =~= fields + entries_violations(
                state.address_map@,
                i + 1,
            ));
        }
        i += 1;
    }
    (StateSummary { ids_by_address: pairs, next_id: state.next_id }, acc)
}

} // verus!
