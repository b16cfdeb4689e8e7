//! Choosing the bus (reward-distribution account) with the most rewards left.
use vstd::prelude::*;
use ore_utils::AccountDeserialize;
use crate::random::random_below;

verus! {

/// The fields of a bus account that the choice reads.
#[derive(Clone, Copy, Debug, PartialEq, Eq, Structural)]
pub struct BusRecord {
    pub id: u64,
    pub rewards: u64,
}

/// The chosen bus: its index in the bus set and the rewards it was chosen for.
#[derive(Clone, Copy, Debug, PartialEq, Eq, Structural)]
pub struct BusChoice {
    pub index: usize,
    pub rewards: u64,
}

/// The first byte of an account that holds a bus.
pub const BUS_DISCRIMINATOR: u8 = 100;

/// Length of a bus account: eight bytes of header, then four `u64` fields.
pub const BUS_ACCOUNT_LEN: usize = 40;

/// Relies on ore_utils' AccountDeserialize::try_from_bytes for ore_api's Bus:
/// it reads the first byte and the bytes from the ninth on (so at least eight
/// are needed), and succeeds only on the bus discriminator followed by exactly
/// the 32 bytes of a bus. It may also fail on bytes that are not aligned for a
/// bus, so nothing is promised of success.
#[verifier::external_body]
fn read_bus(data: &Vec<u8>) -> (r: Option<BusRecord>)
    requires
        data.len() >= 8,
    ensures
        r is Some ==> data@.len() == BUS_ACCOUNT_LEN && data@[0] == BUS_DISCRIMINATOR,
{
    match ore_api::state::Bus::try_from_bytes(data) {
        Ok(bus) => Some(BusRecord { id: bus.id, rewards: bus.rewards }),
        Err(_) => None,
    }
}

/// The bus chosen from records taken in order: the first record with a valid
/// id and strictly more rewards than the best so far wins; with none, bus 0
/// at zero rewards.
pub open spec fn top_bus(records: Seq<Option<BusRecord>>, bus_count: nat) -> (nat, u64)
    decreases records.len(),
{
    if records.len() == 0 {
        (0, 0)
    } else {
        let prev = top_bus(records.drop_last(), bus_count);
        match records.last() {
            Some(b) => if b.id < bus_count && b.rewards > prev.1 {
                (b.id as nat, b.rewards)
            } else {
                prev
            },
            None => prev,
        }
    }
}

/// Chooses the bus with the most rewards among the records that were read;
/// records with an id outside the bus set are left out.
pub fn best_bus(records: &Vec<Option<BusRecord>>, bus_count: usize) -> (r: BusChoice)
    requires
        bus_count >= 1,
    ensures
        (r.index as nat, r.rewards) == top_bus(records@, bus_count as nat),
        r.index < bus_count,
{
    let mut best = BusChoice { index: 0, rewards: 0 };
    let mut i: usize = 0;
    while i < records.len()
        invariant
            0 <= i <= records.len(),
            bus_count >= 1,
            best.index < bus_count,
            (best.index as nat, best.rewards) == top_bus(
                records@.subrange(0, i as int),
                bus_count as nat,
            ),
        decreases records.len() - i,
    {
        proof {
            assert(records@.subrange(0, i + 1).drop_last() =~= records@.subrange(0, i as int));
        }
        match records[i] {
            Some(b) => {
                if b.id < bus_count as u64 && b.rewards > best.rewards {
                    best = BusChoice { index: b.id as usize, rewards: b.rewards };
                }
            },
            None => {},
        }
        i = i + 1;
    }
    proof {
        assert(records@.subrange(0, records.len() as int) =~= records@);
    }
    best
}

/// A record that was read and names a bus of the set.
pub open spec fn valid_record(record: Option<BusRecord>, bus_count: nat) -> bool {
    record is Some && record->0.id < bus_count
}

/// The chosen bus has at least the rewards of every record read with a valid
/// id, lies in the bus set, and, when its rewards are positive, is one of the
/// records read.
pub proof fn lemma_top_bus_dominates(records: Seq<Option<BusRecord>>, bus_count: nat)
    requires
        bus_count >= 1,
    ensures
        top_bus(records, bus_count).0 < bus_count,
        forall|i: int|
            0 <= i < records.len() && valid_record(#[trigger] records[i], bus_count)
                ==> records[i]->0.rewards <= top_bus(records, bus_count).1,
        top_bus(records, bus_count).1 > 0 ==> exists|i: int|
            0 <= i < records.len() && #[trigger] records[i] == Some(
                BusRecord {
                    id: top_bus(records, bus_count).0 as u64,
                    rewards: top_bus(records, bus_count).1,
                },
            ),
    decreases records.len(),
{
    if records.len() > 0 {
        let prefix = records.drop_last();
        lemma_top_bus_dominates(prefix, bus_count);
        assert forall|i: int|
            0 <= i < records.len() && valid_record(#[trigger] records[i], bus_count)
                implies records[i]->0.rewards <= top_bus(records, bus_count).1 by {
            if i < records.len() - 1 {
                assert(records[i] == prefix[i]);
            }
        }
        let top = top_bus(records, bus_count);
        if top.1 > 0 {
            if top == top_bus(prefix, bus_count) {
                let j = choose|j: int|
                    0 <= j < prefix.len() && #[trigger] prefix[j] == Some(
                        BusRecord { id: top.0 as u64, rewards: top.1 },
                    );
                assert(records[j] == prefix[j]);
            } else {
                assert(records[records.len() - 1] == Some(
                    BusRecord { id: top.0 as u64, rewards: top.1 },
                ));
            }
        }
    }
}

/// An account that was fetched and has the length and first byte of a bus.
pub open spec fn holds_bus(account: Option<Vec<u8>>) -> bool {
    account is Some && account->0@.len() == BUS_ACCOUNT_LEN && account->0@[0] == BUS_DISCRIMINATOR
}

/// The records that the accounts may have been read as: an account that was
/// missing, too short or not a bus gives none.
pub open spec fn readable_as(accounts: Seq<Option<Vec<u8>>>, records: Seq<Option<BusRecord>>) -> bool {
    &&& records.len() == accounts.len()
    &&& forall|i: int|
        0 <= i < records.len() && (#[trigger] records[i]) is Some ==> holds_bus(accounts[i])
}

/// Reads each account as a bus record where it can be read.
pub fn read_buses(accounts: &Vec<Option<Vec<u8>>>) -> (r: Vec<Option<BusRecord>>)
    ensures
        readable_as(accounts@, r@),
{
    let mut records: Vec<Option<BusRecord>> = Vec::new();
    let mut i: usize = 0;
    while i < accounts.len()
        invariant
            0 <= i <= accounts.len(),
            records.len() == i,
            forall|k: int|
                0 <= k < i && (#[trigger] records@[k]) is Some ==> holds_bus(accounts@[k]),
        decreases accounts.len() - i,
    {
        let record = match &accounts[i] {
            Some(data) => if data.len() >= 8 {
                read_bus(data)
            } else {
                None
            },
            None => None,
        };
        records.push(record);
        i = i + 1;
    }
    records
}

/// Chooses the bus to mine into. When the accounts were fetched, the bus with
/// the most rewards among those that could be read; when the fetch failed, a
/// bus drawn at random. Either way an index into the bus set.
pub fn find_bus(fetched: &Option<Vec<Option<Vec<u8>>>>, bus_count: usize) -> (r: usize)
    requires
        bus_count >= 1,
    ensures
        r < bus_count,
        fetched matches Some(accounts) ==> exists|records: Seq<Option<BusRecord>>|
            readable_as(accounts@, records) && r == top_bus(records, bus_count as nat).0,
{
    match fetched {
        Some(accounts) => {
            let records = read_buses(accounts);
            let choice = best_bus(&records, bus_count);
            proof {
                assert(readable_as(accounts@, records@));
            }
            choice.index
        },
        None => random_below(bus_count as u64) as usize,
    }
}

} // verus!
