//! The methods of the storage power actor and their numbers.

use crate::types::MethodNum;
use vstd::prelude::*;

verus! {

/// Storage power actor methods available.
#[derive(Clone, Copy, Debug, PartialEq, Eq, Structural)]
pub enum Method {
    /// Constructor for the storage power actor.
    Constructor,
    CreateMiner,
    UpdateClaimedPower,
    EnrollCronEvent,
    OnEpochTickEnd,
    UpdatePledgeTotal,
    CurrentTotalPower,
    CreateMinerExported,
    NetworkRawPowerExported,
    MinerRawPowerExported,
    MinerCountExported,
    MinerConsensusCountExported,
    MinerPowerExported,
}

impl Method {
    /// The number of the method. The first seven are fixed small numbers;
    /// the exported ones carry the number derived from their name.
    pub open spec fn spec_number(self) -> MethodNum {
        match self {
            Method::Constructor => 1,
            Method::CreateMiner => 2,
            Method::UpdateClaimedPower => 3,
            Method::EnrollCronEvent => 4,
            Method::OnEpochTickEnd => 5,
            Method::UpdatePledgeTotal => 6,
            Method::CurrentTotalPower => 9,
            Method::CreateMinerExported => 1173380165,
            Method::NetworkRawPowerExported => 931722534,
            Method::MinerRawPowerExported => 3753401894,
            Method::MinerCountExported => 1987646258,
            Method::MinerConsensusCountExported => 196739875,
            Method::MinerPowerExported => 36284446,
        }
    }

    /// The number of the method.
    pub fn number(&self) -> (r: MethodNum)
        ensures
            r == self.spec_number(),
    {
        match self {
            Method::Constructor => 1,
            Method::CreateMiner => 2,
            Method::UpdateClaimedPower => 3,
            Method::EnrollCronEvent => 4,
            Method::OnEpochTickEnd => 5,
            Method::UpdatePledgeTotal => 6,
            Method::CurrentTotalPower => 9,
            Method::CreateMinerExported => 1173380165,
            Method::NetworkRawPowerExported => 931722534,
            Method::MinerRawPowerExported => 3753401894,
            Method::MinerCountExported => 1987646258,
            Method::MinerConsensusCountExported => 196739875,
            Method::MinerPowerExported => 36284446,
        }
    }

    /// The method with this number, if there is one.
    pub fn from_u64(number: MethodNum) -> (r: Option<Method>)
        ensures
            match r {
                Some(m) => m.spec_number() == number,
                None => forall|m: Method| m.spec_number() != number,
            },
    {
        if number == 1 {
            Some(Method::Constructor)
        } else if number == 2 {
            Some(Method::CreateMiner)
        } else if number == 3 {
            Some(Method::UpdateClaimedPower)
        } else if number == 4 {
            Some(Method::EnrollCronEvent)
        } else if number == 5 {
            Some(Method::OnEpochTickEnd)
        } else if number == 6 {
            Some(Method::UpdatePledgeTotal)
        } else if number == 9 {
            Some(Method::CurrentTotalPower)
        } else if number == 1173380165 {
            Some(Method::CreateMinerExported)
        } else if number == 931722534 {
            Some(Method::NetworkRawPowerExported)
        } else if number == 3753401894 {
            Some(Method::MinerRawPowerExported)
        } else if number == 1987646258 {
            Some(Method::MinerCountExported)
        } else if number == 196739875 {
            Some(Method::MinerConsensusCountExported)
        } else if number == 36284446 {
            Some(Method::MinerPowerExported)
        } else {
            None
        }
    }
}

/// A method is found again by its number, and two methods never share one.
pub proof fn law_method_numbers(a: Method, b: Method)
    ensures
        a.spec_number() == b.spec_number() ==> a == b,
{
}

} // verus!
