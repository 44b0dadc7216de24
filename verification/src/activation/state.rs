//! The provider's sectors with their occupied bytes and fees, and the fee
//! totals per partition expiration bucket and per deadline.

use crate::activation::fees::{daily_fee, sector_fee};
use crate::activation::ledger::FeeLedger;
use crate::activation::quant::QuantSpec;
use crate::bigint::BigInt;
use crate::econ::TokenAmount;
use crate::types::{ChainEpoch, SectorNumber};
use vstd::prelude::*;

verus! {

/// A sector as the provider records it.
#[derive(Debug)]
pub struct Sector {
    pub number: SectorNumber,
    /// The deadline and the partition in it to which the sector is assigned.
    pub deadline: u64,
    pub partition: u64,
    /// The epoch at which the sector expires.
    pub expiration: ChainEpoch,
    /// The epoch from which its data counts: that of its last activation.
    pub power_base_epoch: ChainEpoch,
    /// Bytes of data covered by a claim.
    pub verified_space: u64,
    /// Bytes of data not covered by a claim.
    pub unverified_space: u64,
    /// The fee charged per day.
    pub daily_fee: TokenAmount,
}

/// A sector with its fee as a number.
pub struct SectorView {
    pub number: SectorNumber,
    pub deadline: u64,
    pub partition: u64,
    pub expiration: ChainEpoch,
    pub power_base_epoch: ChainEpoch,
    pub verified_space: u64,
    pub unverified_space: u64,
    pub daily_fee: int,
}

impl View for Sector {
    type V = SectorView;

    open spec fn view(&self) -> SectorView {
        SectorView {
            number: self.number,
            deadline: self.deadline,
            partition: self.partition,
            expiration: self.expiration,
            power_base_epoch: self.power_base_epoch,
            verified_space: self.verified_space,
            unverified_space: self.unverified_space,
            daily_fee: self.daily_fee@,
        }
    }
}

impl Clone for Sector {
    fn clone(&self) -> (r: Self)
        ensures
            r@ == self@,
    {
        Sector {
            number: self.number,
            deadline: self.deadline,
            partition: self.partition,
            expiration: self.expiration,
            power_base_epoch: self.power_base_epoch,
            verified_space: self.verified_space,
            unverified_space: self.unverified_space,
            daily_fee: self.daily_fee.clone(),
        }
    }
}

/// The weight of `space` bytes held from `base` to `expiration`: the bytes
/// times the epochs.
pub open spec fn space_time(space: u64, base: ChainEpoch, expiration: ChainEpoch) -> int {
    space * (expiration - base)
}

impl Sector {
    /// The weight of the sector's unverified data: its bytes times the
    /// epochs from the base epoch to the expiration.
    pub fn deal_weight(&self) -> (r: BigInt)
        ensures
            r@ == space_time(self.unverified_space, self.power_base_epoch, self.expiration),
    {
        let duration = BigInt::from_i128(self.expiration as i128 - self.power_base_epoch as i128);
        BigInt::from_u64(self.unverified_space).mul(&duration)
    }

    /// The weight of the sector's verified data: its bytes times the epochs
    /// from the base epoch to the expiration.
    pub fn verified_deal_weight(&self) -> (r: BigInt)
        ensures
            r@ == space_time(self.verified_space, self.power_base_epoch, self.expiration),
    {
        let duration = BigInt::from_i128(self.expiration as i128 - self.power_base_epoch as i128);
        BigInt::from_u64(self.verified_space).mul(&duration)
    }
}

/// The views of the sectors, in order.
pub open spec fn sector_views(sectors: Seq<Sector>) -> Seq<SectorView> {
    Seq::new(sectors.len(), |i: int| sectors[i]@)
}

/// Whether a sector belongs to the bucket `(deadline, partition, epoch)`:
/// it is assigned to that partition of that deadline, and its expiration
/// rounds to that epoch.
pub open spec fn in_bucket(s: SectorView, quant: QuantSpec, key: (u64, u64, ChainEpoch)) -> bool {
    s.deadline == key.0 && s.partition == key.1 && quant.spec_quantize_up(s.expiration as int) == key.2
}

/// Sum of the fees of those of the first `n` sectors that belong to a
/// bucket.
pub open spec fn bucket_sum(sectors: Seq<SectorView>, quant: QuantSpec, key: (u64, u64, ChainEpoch), n: int) -> int
    decreases n,
{
    if n <= 0 {
        0
    } else {
        bucket_sum(sectors, quant, key, n - 1) + if in_bucket(sectors[n - 1], quant, key) {
            sectors[n - 1].daily_fee
        } else {
            0
        }
    }
}

/// Sum of the fees of those of the first `n` sectors that are assigned to a
/// deadline.
pub open spec fn deadline_sum(sectors: Seq<SectorView>, deadline: u64, n: int) -> int
    decreases n,
{
    if n <= 0 {
        0
    } else {
        deadline_sum(sectors, deadline, n - 1) + if sectors[n - 1].deadline == deadline {
            sectors[n - 1].daily_fee
        } else {
            0
        }
    }
}

/// Position of the sector with this number among the first `n`, if any.
pub open spec fn position_of(sectors: Seq<SectorView>, number: SectorNumber, n: int) -> Option<int>
    decreases n,
{
    if n <= 0 {
        None
    } else if position_of(sectors, number, n - 1).is_some() {
        position_of(sectors, number, n - 1)
    } else if sectors[n - 1].number == number {
        Some(n - 1)
    } else {
        None
    }
}

/// The sector numbers are all different.
pub open spec fn distinct_numbers(sectors: Seq<SectorView>) -> bool {
    forall|i: int, j: int| 0 <= i < j < sectors.len() ==> sectors[i].number != sectors[j].number
}

/// What the provider's state holds.
pub struct MinerView {
    /// The capacity of each sector, in bytes.
    pub sector_size: u64,
    /// The grid of the expiration buckets.
    pub quant: QuantSpec,
    /// The sectors, in the order in which they were added.
    pub sectors: Seq<SectorView>,
}

/// The view is in order: sectors have a positive capacity that their data
/// fits in, distinct numbers, and expirations that can be rounded.
pub open spec fn view_wf(v: MinerView) -> bool {
    &&& v.sector_size > 0
    &&& v.quant.wf()
    &&& distinct_numbers(v.sectors)
    &&& forall|i: int|
        0 <= i < v.sectors.len() ==> v.quant.in_range((#[trigger] v.sectors[i]).expiration)
            && v.sectors[i].verified_space + v.sectors[i].unverified_space <= v.sector_size
}

/// The sector with its data replaced.
pub open spec fn with_data(s: SectorView, verified: u64, unverified: u64, epoch: ChainEpoch, fee: int) -> SectorView {
    SectorView {
        power_base_epoch: epoch,
        verified_space: verified,
        unverified_space: unverified,
        daily_fee: fee,
        ..s
    }
}

/// Changing the fee of one sector changes the sum of its bucket by the
/// difference, and no other.
pub proof fn lemma_bucket_sum_update(
    before: Seq<SectorView>,
    idx: int,
    changed: SectorView,
    quant: QuantSpec,
    key: (u64, u64, ChainEpoch),
    n: int,
)
    requires
        0 <= idx < before.len(),
        0 <= n <= before.len(),
        changed.deadline == before[idx].deadline,
        changed.partition == before[idx].partition,
        changed.expiration == before[idx].expiration,
    ensures
        bucket_sum(before.update(idx, changed), quant, key, n) == bucket_sum(before, quant, key, n) + if idx < n
            && in_bucket(before[idx], quant, key) {
            changed.daily_fee - before[idx].daily_fee
        } else {
            0
        },
    decreases n,
{
    if n > 0 {
        lemma_bucket_sum_update(before, idx, changed, quant, key, n - 1);
    }
}

/// Changing the fee of one sector changes the sum of its deadline by the
/// difference, and no other.
pub proof fn lemma_deadline_sum_update(
    before: Seq<SectorView>,
    idx: int,
    changed: SectorView,
    deadline: u64,
    n: int,
)
    requires
        0 <= idx < before.len(),
        0 <= n <= before.len(),
        changed.deadline == before[idx].deadline,
    ensures
        deadline_sum(before.update(idx, changed), deadline, n) == deadline_sum(before, deadline, n) + if idx < n
            && before[idx].deadline == deadline {
            changed.daily_fee - before[idx].daily_fee
        } else {
            0
        },
    decreases n,
{
    if n > 0 {
        lemma_deadline_sum_update(before, idx, changed, deadline, n - 1);
    }
}

/// A sector added at the end leaves the sums over the sectors before it
/// as they were.
pub proof fn lemma_sums_after_push(
    before: Seq<SectorView>,
    added: SectorView,
    quant: QuantSpec,
    key: (u64, u64, ChainEpoch),
    n: int,
)
    requires
        0 <= n <= before.len(),
    ensures
        bucket_sum(before.push(added), quant, key, n) == bucket_sum(before, quant, key, n),
        deadline_sum(before.push(added), key.0, n) == deadline_sum(before, key.0, n),
    decreases n,
{
    if n > 0 {
        lemma_sums_after_push(before, added, quant, key, n - 1);
    }
}

/// Where the sector with a number stands, when it is there.
pub proof fn lemma_position_of(sectors: Seq<SectorView>, number: SectorNumber, n: int)
    requires
        0 <= n <= sectors.len(),
    ensures
        match position_of(sectors, number, n) {
            Some(i) => 0 <= i < n && sectors[i].number == number,
            None => forall|i: int| 0 <= i < n ==> (#[trigger] sectors[i]).number != number,
        },
    decreases n,
{
    if n > 0 {
        lemma_position_of(sectors, number, n - 1);
    }
}

/// The provider's state.
pub struct MinerState {
    sector_size: u64,
    quant: QuantSpec,
    sectors: Vec<Sector>,
    buckets: FeeLedger,
    deadlines: FeeLedger,
}

impl View for MinerState {
    type V = MinerView;

    closed spec fn view(&self) -> MinerView {
        MinerView { sector_size: self.sector_size, quant: self.quant, sectors: sector_views(self.sectors@) }
    }
}

impl MinerState {
    /// The total that the state keeps for a bucket.
    pub closed spec fn bucket_total(&self, key: (u64, u64, ChainEpoch)) -> int {
        self.buckets.total(key)
    }

    /// The total that the state keeps for a deadline.
    pub closed spec fn deadline_total(&self, deadline: u64) -> int {
        self.deadlines.total((deadline, 0, 0))
    }

    /// The state is well formed: its view is in order, the total kept for
    /// each bucket is the sum of the fees of the sectors that belong to
    /// it, and the total kept for each deadline is the sum of the fees of
    /// the sectors assigned to it.
    pub open spec fn wf(&self) -> bool {
        &&& view_wf(self@)
        &&& forall|key: (u64, u64, ChainEpoch)| #[trigger]
            self.bucket_total(key) == bucket_sum(self@.sectors, self@.quant, key, self@.sectors.len() as int)
        &&& forall|deadline: u64| #[trigger]
            self.deadline_total(deadline) == deadline_sum(self@.sectors, deadline, self@.sectors.len() as int)
    }

    /// A state without sectors.
    pub fn new(sector_size: u64, quant: QuantSpec) -> (r: Self)
        requires
            sector_size > 0,
            quant.wf(),
        ensures
            r.wf(),
            r@ == (MinerView { sector_size, quant, sectors: Seq::<SectorView>::empty() }),
    {
        let r = MinerState {
            sector_size,
            quant,
            sectors: Vec::new(),
            buckets: FeeLedger::new(),
            deadlines: FeeLedger::new(),
        };
        assert(sector_views(r.sectors@) =~= Seq::<SectorView>::empty());
        r
    }

    /// The capacity of each sector, in bytes.
    pub fn sector_size(&self) -> (r: u64)
        ensures
            r == self@.sector_size,
    {
        self.sector_size
    }

    /// Number of sectors.
    pub fn sector_count(&self) -> (r: usize)
        ensures
            r == self@.sectors.len(),
    {
        self.sectors.len()
    }

    /// Position of the sector with this number, if there is one.
    pub fn find_sector(&self, number: SectorNumber) -> (r: Option<usize>)
        ensures
            match r {
                Some(i) => position_of(self@.sectors, number, self@.sectors.len() as int) == Some(i as int),
                None => position_of(self@.sectors, number, self@.sectors.len() as int).is_none(),
            },
    {
        let mut i: usize = 0;
        while i < self.sectors.len()
            invariant
                i <= self.sectors@.len(),
                position_of(self@.sectors, number, i as int).is_none(),
            decreases self.sectors@.len() - i,
        {
            if self.sectors[i].number == number {
                proof {
                    assert(self@.sectors[i as int].number == number);
                    assert(position_of(self@.sectors, number, i + 1) == Some(i as int));
                    lemma_position_found(self@.sectors, number, i + 1, self@.sectors.len() as int);
                }
                return Some(i);
            }
            i += 1;
        }
        None
    }

    /// The sector at a position.
    pub fn sector_at(&self, i: usize) -> (r: Sector)
        requires
            i < self@.sectors.len(),
        ensures
            r@ == self@.sectors[i as int],
    {
        self.sectors[i].clone()
    }

    /// The sector with this number, if there is one.
    pub fn get_sector(&self, number: SectorNumber) -> (r: Option<Sector>)
        ensures
            match r {
                Some(s) => {
                    let p = position_of(self@.sectors, number, self@.sectors.len() as int);
                    p.is_some() && s@ == self@.sectors[p.unwrap()]
                },
                None => position_of(self@.sectors, number, self@.sectors.len() as int).is_none(),
            },
    {
        match self.find_sector(number) {
            Some(i) => {
                proof {
                    lemma_position_of(self@.sectors, number, self@.sectors.len() as int);
                }
                Some(self.sectors[i].clone())
            },
            None => None,
        }
    }

    /// The fee total of the bucket `(deadline, partition, epoch)`: the sum
    /// of the fees of the sectors that belong to it.
    pub fn bucket_fee(&self, deadline: u64, partition: u64, epoch: ChainEpoch) -> (r: TokenAmount)
        requires
            self.wf(),
        ensures
            r@ == bucket_sum(self@.sectors, self@.quant, (deadline, partition, epoch), self@.sectors.len() as int),
    {
        assert(self.bucket_total((deadline, partition, epoch)) == bucket_sum(
            self@.sectors,
            self@.quant,
            (deadline, partition, epoch),
            self@.sectors.len() as int,
        ));
        self.buckets.get(deadline, partition, epoch)
    }

    /// The fee total of a deadline: the sum of the fees of the sectors
    /// assigned to it.
    pub fn deadline_fee(&self, deadline: u64) -> (r: TokenAmount)
        requires
            self.wf(),
        ensures
            r@ == deadline_sum(self@.sectors, deadline, self@.sectors.len() as int),
    {
        assert(self.deadline_total(deadline) == deadline_sum(
            self@.sectors,
            deadline,
            self@.sectors.len() as int,
        ));
        self.deadlines.get(deadline, 0, 0)
    }

    /// The epoch of the bucket that a sector expiring at `expiration`
    /// belongs to.
    pub fn bucket_epoch(&self, expiration: ChainEpoch) -> (r: ChainEpoch)
        requires
            self.wf(),
            self@.quant.in_range(expiration),
        ensures
            r == self@.quant.spec_quantize_up(expiration as int),
    {
        self.quant.quantize_up(expiration)
    }

    /// Adds a sector without data and without fee. Refuses, changing
    /// nothing, when a sector with this number exists or when the
    /// expiration cannot be rounded to the bucket grid.
    pub fn onboard_empty_sector(
        &mut self,
        number: SectorNumber,
        deadline: u64,
        partition: u64,
        expiration: ChainEpoch,
        epoch: ChainEpoch,
    ) -> (r: bool)
        requires
            old(self).wf(),
        ensures
            final(self).wf(),
            r == (position_of(old(self)@.sectors, number, old(self)@.sectors.len() as int).is_none() && old(
                self,
            )@.quant.in_range(expiration)),
            !r ==> final(self)@ == old(self)@,
            r ==> final(self)@ == (MinerView {
                sectors: old(self)@.sectors.push(
                    SectorView {
                        number,
                        deadline,
                        partition,
                        expiration,
                        power_base_epoch: epoch,
                        verified_space: 0,
                        unverified_space: 0,
                        daily_fee: 0,
                    },
                ),
                ..old(self)@
            }),
    {
        if self.find_sector(number).is_some() {
            return false;
        }
        if expiration as i128 + self.quant.unit as i128 > i64::MAX as i128 {
            return false;
        }
        let ghost before = self@.sectors;
        let ghost old_buckets = self.buckets;
        let ghost old_deadlines = self.deadlines;
        let sector = Sector {
            number,
            deadline,
            partition,
            expiration,
            power_base_epoch: epoch,
            verified_space: 0,
            unverified_space: 0,
            daily_fee: TokenAmount::zero(),
        };
        self.sectors.push(sector);
        proof {
            let added = sector@;
            let after = self@.sectors;
            assert(after =~= before.push(added));
            lemma_position_of(before, number, before.len() as int);
            assert forall|key: (u64, u64, ChainEpoch)| #[trigger]
                self.bucket_total(key) == bucket_sum(after, self@.quant, key, after.len() as int) by {
                assert(old(self).bucket_total(key) == bucket_sum(before, self@.quant, key, before.len() as int));
                lemma_sums_after_push(before, added, self@.quant, key, before.len() as int);
            }
            assert forall|d: u64| #[trigger]
                self.deadline_total(d) == deadline_sum(after, d, after.len() as int) by {
                assert(old(self).deadline_total(d) == deadline_sum(before, d, before.len() as int));
                lemma_sums_after_push(before, added, self@.quant, (d, 0, 0), before.len() as int);
            }
        }
        true
    }

    /// Records the data of the sector at position `idx`, activated at
    /// `epoch`, and its fee derived from `reference`; the totals of its
    /// bucket and of its deadline move by the change of its fee.
    pub fn set_data(&mut self, idx: usize, verified: u64, unverified: u64, epoch: ChainEpoch, reference: &TokenAmount)
        requires
            old(self).wf(),
            idx < old(self)@.sectors.len(),
            verified + unverified <= old(self)@.sector_size,
        ensures
            final(self).wf(),
            final(self)@ == (MinerView {
                sectors: old(self)@.sectors.update(
                    idx as int,
                    with_data(
                        old(self)@.sectors[idx as int],
                        verified,
                        unverified,
                        epoch,
                        sector_fee(reference@, verified, unverified, old(self)@.sector_size),
                    ),
                ),
                ..old(self)@
            }),
    {
        let ghost before = self@.sectors;
        let ghost quant = self@.quant;
        let fee = daily_fee(reference, verified, unverified, self.sector_size);
        let current = &self.sectors[idx];
        assert(current@ == before[idx as int]);
        let delta = fee.sub(&current.daily_fee);
        let bucket = self.quant.quantize_up(current.expiration);
        let changed = Sector {
            number: current.number,
            deadline: current.deadline,
            partition: current.partition,
            expiration: current.expiration,
            power_base_epoch: epoch,
            verified_space: verified,
            unverified_space: unverified,
            daily_fee: fee,
        };
        let deadline = current.deadline;
        let partition = current.partition;
        self.buckets.add(deadline, partition, bucket, &delta);
        self.deadlines.add(deadline, 0, 0, &delta);
        self.sectors.set(idx, changed);
        proof {
            let after = self@.sectors;
            assert(after =~= before.update(idx as int, changed@));
            assert forall|key: (u64, u64, ChainEpoch)| #[trigger]
                self.bucket_total(key) == bucket_sum(after, quant, key, after.len() as int) by {
                assert(old(self).bucket_total(key) == bucket_sum(before, quant, key, before.len() as int));
                lemma_bucket_sum_update(before, idx as int, changed@, quant, key, before.len() as int);
            }
            assert forall|d: u64| #[trigger] self.deadline_total(d) == deadline_sum(after, d, after.len() as int) by {
                assert(old(self).deadline_total(d) == deadline_sum(before, d, before.len() as int));
                lemma_deadline_sum_update(before, idx as int, changed@, d, before.len() as int);
            }
        }
    }
}

/// Once the sector with a number is found, it stays the one found.
pub proof fn lemma_position_found(sectors: Seq<SectorView>, number: SectorNumber, m: int, n: int)
    requires
        0 <= m <= n,
        position_of(sectors, number, m).is_some(),
    ensures
        position_of(sectors, number, n) == position_of(sectors, number, m),
    decreases n - m,
{
    if m < n {
        lemma_position_found(sectors, number, m, n - 1);
    }
}

} // verus!
