use storage_actors::bigint::BigInt;
use storage_actors::econ::TokenAmount;
use storage_actors::exit::ExitCode;
use storage_actors::policy::Policy;
use storage_actors::power::actor::Actor;
use storage_actors::power::method::Method;
use storage_actors::power::state::{FilterEstimate, State};

const MINER1: u64 = 1001;
const MINER2: u64 = 1002;
const PROOF: i64 = 13;

fn big(x: i128) -> BigInt {
    BigInt::from_i128(x)
}

fn val(x: &BigInt) -> i128 {
    x.to_i128().unwrap()
}

fn estimate(position: i128, velocity: i128) -> FilterEstimate {
    FilterEstimate { position: big(position), velocity: big(velocity) }
}

fn new_state() -> State {
    State::new(estimate(750, 38), 0, 0)
}

fn policy(minimum: u64) -> Policy {
    Policy { minimum_consensus_power: minimum, ..Policy::default() }
}

#[test]
fn method_numbers() {
    let all = [
        (Method::Constructor, 1),
        (Method::CreateMiner, 2),
        (Method::UpdateClaimedPower, 3),
        (Method::EnrollCronEvent, 4),
        (Method::OnEpochTickEnd, 5),
        (Method::UpdatePledgeTotal, 6),
        (Method::CurrentTotalPower, 9),
        (Method::CreateMinerExported, 1173380165),
        (Method::NetworkRawPowerExported, 931722534),
        (Method::MinerRawPowerExported, 3753401894),
        (Method::MinerCountExported, 1987646258),
        (Method::MinerConsensusCountExported, 196739875),
        (Method::MinerPowerExported, 36284446),
    ];
    for (method, number) in all {
        assert_eq!(method.number(), number);
        assert_eq!(Method::from_u64(number), Some(method));
    }
    for number in [0, 7, 8, 10, 36284445] {
        assert_eq!(Method::from_u64(number), None);
    }
    assert_eq!(Actor::name(), "StoragePower");
}

#[test]
fn create_miner_registers_an_empty_claim() {
    let mut st = new_state();
    let p = policy(100);
    Actor::create_miner(&mut st, &p, MINER1, PROOF).unwrap();
    assert_eq!(Actor::miner_count(&st), 1);
    assert_eq!(Actor::miner_consensus_count(&st), 0);
    let power = Actor::miner_power(&st, MINER1).unwrap();
    assert_eq!(val(&power.raw_byte_power), 0);
    assert_eq!(val(&power.quality_adj_power), 0);
    assert_eq!(Actor::miner_power(&st, MINER2).unwrap_err().exit_code, ExitCode::NotFound);
    // An unknown proof type is refused and leaves no trace. The codes between the winning
    // proofs and the window proofs belong to no type.
    for code in [15, -1, 5, 8, 9, i64::MAX] {
        assert_eq!(
            Actor::create_miner(&mut st, &p, MINER2, code).unwrap_err().exit_code,
            ExitCode::IllegalState
        );
    }
    assert_eq!(Actor::miner_count(&st), 1);
    assert_eq!(Actor::miner_power(&st, MINER2).unwrap_err().exit_code, ExitCode::NotFound);
    // Every known code is taken.
    for (i, code) in [0, 1, 2, 3, 4, 10, 11, 12, 14].into_iter().enumerate() {
        Actor::create_miner(&mut st, &p, 5000 + i as u64, code).unwrap();
    }
    assert_eq!(Actor::miner_count(&st), 10);
    let mut st = new_state();
    Actor::create_miner(&mut st, &p, MINER1, PROOF).unwrap();
    // With no minimum power every miner counts at once.
    Actor::create_miner(&mut st, &policy(0), MINER2, 0).unwrap();
    assert_eq!(Actor::miner_count(&st), 2);
    assert_eq!(Actor::miner_consensus_count(&st), 1);
}

#[test]
fn claimed_power_crosses_the_minimum() {
    let mut st = new_state();
    let p = policy(100);
    Actor::create_miner(&mut st, &p, MINER1, PROOF).unwrap();

    // Below the minimum: only the committed totals move.
    Actor::update_claimed_power(&mut st, &p, MINER1, &big(60), &big(600)).unwrap();
    assert_eq!(val(&st.total_bytes_committed), 60);
    assert_eq!(val(&st.total_qa_bytes_committed), 600);
    assert_eq!(val(&st.total_raw_byte_power), 0);
    assert_eq!(val(&st.total_quality_adj_power), 0);
    assert_eq!(st.miner_above_min_power_count, 0);

    // Rising to the minimum brings the whole power in.
    Actor::update_claimed_power(&mut st, &p, MINER1, &big(40), &big(400)).unwrap();
    assert_eq!(val(&st.total_bytes_committed), 100);
    assert_eq!(val(&st.total_raw_byte_power), 100);
    assert_eq!(val(&st.total_quality_adj_power), 1000);
    assert_eq!(st.miner_above_min_power_count, 1);

    // Staying above moves the totals by the delta.
    Actor::update_claimed_power(&mut st, &p, MINER1, &big(5), &big(-50)).unwrap();
    assert_eq!(val(&st.total_raw_byte_power), 105);
    assert_eq!(val(&st.total_quality_adj_power), 950);
    assert_eq!(val(&st.total_qa_bytes_committed), 950);

    // Falling below takes the whole old power out.
    Actor::update_claimed_power(&mut st, &p, MINER1, &big(-6), &big(-60)).unwrap();
    assert_eq!(val(&st.total_raw_byte_power), 0);
    assert_eq!(val(&st.total_quality_adj_power), 0);
    assert_eq!(val(&st.total_bytes_committed), 99);
    assert_eq!(val(&st.total_qa_bytes_committed), 890);
    assert_eq!(st.miner_above_min_power_count, 0);
    let power = Actor::miner_power(&st, MINER1).unwrap();
    assert_eq!(val(&power.raw_byte_power), 99);
    assert_eq!(val(&power.quality_adj_power), 890);

    // Power cannot go below zero, and an unknown miner has none.
    assert_eq!(
        Actor::update_claimed_power(&mut st, &p, MINER1, &big(-100), &big(0)).unwrap_err().exit_code,
        ExitCode::IllegalState
    );
    assert_eq!(
        Actor::update_claimed_power(&mut st, &p, MINER1, &big(0), &big(-891)).unwrap_err().exit_code,
        ExitCode::IllegalState
    );
    assert_eq!(
        Actor::update_claimed_power(&mut st, &p, MINER2, &big(1), &big(1)).unwrap_err().exit_code,
        ExitCode::NotFound
    );
    assert_eq!(val(&st.total_bytes_committed), 99);
}

#[test]
fn miner_raw_power_and_the_consensus_minimum() {
    let mut st = new_state();
    let p = policy(100);
    Actor::create_miner(&mut st, &p, MINER1, PROOF).unwrap();
    let ret = Actor::miner_raw_power(&st, &p, MINER1).unwrap();
    assert_eq!(val(&ret.raw_byte_power), 0);
    assert!(!ret.meets_consensus_minimum);
    // While few miners are above the minimum, any power counts.
    Actor::update_claimed_power(&mut st, &p, MINER1, &big(1), &big(1)).unwrap();
    assert!(Actor::miner_raw_power(&st, &p, MINER1).unwrap().meets_consensus_minimum);
    // Once enough miners are above the minimum, only they count.
    for m in 0..4u64 {
        Actor::create_miner(&mut st, &p, 2000 + m, PROOF).unwrap();
        Actor::update_claimed_power(&mut st, &p, 2000 + m, &big(100), &big(100)).unwrap();
    }
    assert_eq!(Actor::miner_consensus_count(&st), 4);
    assert!(!Actor::miner_raw_power(&st, &p, MINER1).unwrap().meets_consensus_minimum);
    assert!(Actor::miner_raw_power(&st, &p, 2000).unwrap().meets_consensus_minimum);
    assert_eq!(Actor::miner_raw_power(&st, &p, MINER2).unwrap_err().exit_code, ExitCode::NotFound);
}

#[test]
fn epoch_tick_freezes_the_totals() {
    let mut st = new_state();
    let p = policy(100);
    Actor::create_miner(&mut st, &p, MINER1, PROOF).unwrap();
    Actor::update_claimed_power(&mut st, &p, MINER1, &big(60), &big(600)).unwrap();
    Actor::update_pledge_total(&mut st, MINER1, &TokenAmount::from_whole(3)).unwrap();
    assert_eq!(val(&Actor::network_raw_power(&st)), 0);

    // Before the first tick the frozen values are those the state began with.
    let totals = Actor::current_total_power(&st);
    assert_eq!(val(&totals.raw_byte_power), 0);
    assert_eq!(val(&totals.pledge_collateral.whole()), 0);
    assert_eq!(val(&totals.quality_adj_power_smoothed.position), 750);
    assert_eq!(val(&totals.quality_adj_power_smoothed.velocity), 38);

    // Fewer than four miners above the minimum: the committed totals count.
    let (raw_now, qa_now) = Actor::network_power(&st);
    assert_eq!((val(&raw_now), val(&qa_now)), (60, 600));
    let raw = Actor::on_epoch_tick_end(&mut st, estimate(760, 39));
    assert_eq!(val(&raw), 60);
    let totals = Actor::current_total_power(&st);
    assert_eq!(val(&totals.raw_byte_power), 60);
    assert_eq!(val(&totals.quality_adj_power), 600);
    assert_eq!(val(&totals.pledge_collateral.whole()), 3);
    assert_eq!(val(&totals.quality_adj_power_smoothed.position), 760);
    assert_eq!(val(&totals.quality_adj_power_smoothed.velocity), 39);
    assert_eq!(totals.ramp_start_epoch, 0);
    assert_eq!(totals.ramp_duration_epochs, 0);
    assert_eq!(val(&Actor::network_raw_power(&st)), 60);

    for m in 0..4u64 {
        Actor::create_miner(&mut st, &p, 2000 + m, PROOF).unwrap();
        Actor::update_claimed_power(&mut st, &p, 2000 + m, &big(100), &big(200)).unwrap();
    }
    Actor::update_pledge_total(&mut st, MINER1, &TokenAmount::from_whole(4)).unwrap();
    // The frozen values do not follow until the next tick.
    let totals = Actor::current_total_power(&st);
    assert_eq!(val(&totals.raw_byte_power), 60);
    assert_eq!(val(&totals.quality_adj_power), 600);
    assert_eq!(val(&totals.pledge_collateral.whole()), 3);
    assert_eq!(val(&totals.quality_adj_power_smoothed.position), 760);
    let raw = Actor::on_epoch_tick_end(&mut st, estimate(770, 40));
    assert_eq!(val(&raw), 400);
    let totals = Actor::current_total_power(&st);
    assert_eq!(val(&totals.quality_adj_power), 800);
    assert_eq!(val(&totals.pledge_collateral.whole()), 7);
    assert_eq!(val(&totals.quality_adj_power_smoothed.position), 770);
}

#[test]
fn pledge_total_cannot_go_negative() {
    let mut st = new_state();
    let p = policy(100);
    assert_eq!(
        Actor::update_pledge_total(&mut st, MINER1, &TokenAmount::from_whole(1)).unwrap_err().exit_code,
        ExitCode::Forbidden
    );
    Actor::create_miner(&mut st, &p, MINER1, PROOF).unwrap();
    Actor::update_pledge_total(&mut st, MINER1, &TokenAmount::from_whole(5)).unwrap();
    Actor::update_pledge_total(&mut st, MINER1, &TokenAmount::from_whole(-2)).unwrap();
    assert_eq!(val(&st.total_pledge_collateral.whole()), 3);
    assert_eq!(
        Actor::update_pledge_total(&mut st, MINER1, &TokenAmount::from_whole(-4)).unwrap_err().exit_code,
        ExitCode::IllegalState
    );
    assert_eq!(val(&st.total_pledge_collateral.whole()), 3);
}

#[test]
fn cron_events_come_out_epoch_by_epoch() {
    let mut st = new_state();
    let p = policy(100);
    Actor::create_miner(&mut st, &p, MINER1, PROOF).unwrap();
    Actor::create_miner(&mut st, &p, MINER2, PROOF).unwrap();
    assert_eq!(
        Actor::enroll_cron_event(&mut st, MINER1, -1, vec![]).unwrap_err().exit_code,
        ExitCode::IllegalArgument
    );
    st.first_cron_epoch = 10;
    Actor::enroll_cron_event(&mut st, MINER1, 12, vec![1]).unwrap();
    Actor::enroll_cron_event(&mut st, MINER2, 11, vec![2]).unwrap();
    Actor::enroll_cron_event(&mut st, 7777, 11, vec![3]).unwrap(); // No claim
    Actor::enroll_cron_event(&mut st, MINER1, 11, vec![4]).unwrap();
    Actor::enroll_cron_event(&mut st, MINER2, 20, vec![5]).unwrap();
    assert_eq!(st.first_cron_epoch, 10);
    assert_eq!(st.cron_event_queue.len(), 5);

    let due = Actor::process_deferred_cron_events(&mut st, 12);
    // Every callback carries the estimate as it stood before the queue was looked at.
    assert_eq!(val(&due.quality_adj_power_smoothed.position), 750);
    assert_eq!(val(&due.quality_adj_power_smoothed.velocity), 38);
    let got: Vec<(u64, Vec<u8>)> =
        due.events.into_iter().map(|e| (e.miner, e.callback_payload)).collect();
    assert_eq!(got, vec![(MINER2, vec![2]), (MINER1, vec![4]), (MINER1, vec![1])]);
    assert_eq!(st.first_cron_epoch, 13);
    assert_eq!(st.cron_event_queue.len(), 1);
    assert_eq!(st.cron_event_queue[0].epoch, 20);

    // Nothing is due before epoch 20.
    assert!(Actor::process_deferred_cron_events(&mut st, 19).events.is_empty());
    assert_eq!(st.first_cron_epoch, 20);
    assert_eq!(st.cron_event_queue.len(), 1);
    // An event enrolled for an earlier epoch moves the first epoch back.
    Actor::enroll_cron_event(&mut st, MINER1, 15, vec![6]).unwrap();
    assert_eq!(st.first_cron_epoch, 15);
    let due = Actor::process_deferred_cron_events(&mut st, 20);
    let got: Vec<(u64, Vec<u8>)> =
        due.events.into_iter().map(|e| (e.miner, e.callback_payload)).collect();
    assert_eq!(got, vec![(MINER1, vec![6]), (MINER2, vec![5])]);
    assert!(st.cron_event_queue.is_empty());
}

#[test]
fn failed_miners_lose_their_claims() {
    let mut st = new_state();
    let p = policy(100);
    Actor::create_miner(&mut st, &p, MINER1, PROOF).unwrap();
    Actor::create_miner(&mut st, &p, MINER2, PROOF).unwrap();
    Actor::update_claimed_power(&mut st, &p, MINER1, &big(150), &big(300)).unwrap();
    Actor::update_claimed_power(&mut st, &p, MINER2, &big(20), &big(40)).unwrap();
    assert_eq!(st.miner_above_min_power_count, 1);

    Actor::remove_failed_miners(&mut st, &p, &vec![MINER1]);
    assert_eq!(Actor::miner_power(&st, MINER1).unwrap_err().exit_code, ExitCode::NotFound);
    assert_eq!(Actor::miner_count(&st), 1);
    assert_eq!(st.miner_above_min_power_count, 0);
    assert_eq!(val(&st.total_raw_byte_power), 0);
    assert_eq!(val(&st.total_quality_adj_power), 0);
    assert_eq!(val(&st.total_bytes_committed), 20);
    assert_eq!(val(&st.total_qa_bytes_committed), 40);
    assert_eq!(val(&Actor::miner_power(&st, MINER2).unwrap().raw_byte_power), 20);

    // A miner without a claim still brings the count down.
    Actor::remove_failed_miners(&mut st, &p, &vec![MINER1, MINER2]);
    assert_eq!(Actor::miner_count(&st), -1);
    assert_eq!(val(&st.total_bytes_committed), 0);
}

#[test]
fn what_leaves_with_failed_miners_is_the_sum_of_their_claims() {
    let mut st = new_state();
    let p = policy(100);
    let powers = [(150, 300), (20, 40), (100, 1), (7, 70), (500, 5000)];
    for (i, (raw, qa)) in powers.iter().enumerate() {
        Actor::create_miner(&mut st, &p, 3000 + i as u64, PROOF).unwrap();
        Actor::update_claimed_power(&mut st, &p, 3000 + i as u64, &big(*raw), &big(*qa)).unwrap();
    }
    assert_eq!(val(&st.total_bytes_committed), 777);
    assert_eq!(val(&st.total_qa_bytes_committed), 5411);
    assert_eq!(st.miner_above_min_power_count, 3);
    assert_eq!(val(&st.total_raw_byte_power), 750);

    Actor::remove_failed_miners(&mut st, &p, &vec![3002, 3001, 3004]);
    assert_eq!(val(&st.total_bytes_committed), 777 - (100 + 20 + 500));
    assert_eq!(val(&st.total_qa_bytes_committed), 5411 - (1 + 40 + 5000));
    assert_eq!(Actor::miner_count(&st), 2);
    assert_eq!(st.miner_above_min_power_count, 1);
    assert_eq!(val(&st.total_raw_byte_power), 150);
    assert_eq!(val(&st.total_quality_adj_power), 300);
    for gone in [3001, 3002, 3004] {
        assert_eq!(Actor::miner_power(&st, gone).unwrap_err().exit_code, ExitCode::NotFound);
    }
    let left = Actor::miner_power(&st, 3000).unwrap();
    assert_eq!((val(&left.raw_byte_power), val(&left.quality_adj_power)), (150, 300));
    let left = Actor::miner_power(&st, 3003).unwrap();
    assert_eq!((val(&left.raw_byte_power), val(&left.quality_adj_power)), (7, 70));
}

#[test]
fn a_claim_of_an_unknown_proof_type_stays() {
    let mut st = new_state();
    let p = policy(100);
    Actor::create_miner(&mut st, &p, MINER1, PROOF).unwrap();
    Actor::update_claimed_power(&mut st, &p, MINER1, &big(10), &big(10)).unwrap();
    // A claim as an earlier version of the state may hold it.
    st.claims.insert(
        0,
        MINER2,
        storage_actors::power::state::Claim {
            window_post_proof_type: 8,
            raw_byte_power: big(5),
            quality_adj_power: big(5),
        },
    );
    assert_eq!(
        Actor::update_claimed_power(&mut st, &p, MINER2, &big(1), &big(1)).unwrap_err().exit_code,
        ExitCode::IllegalState
    );
    assert_eq!(Actor::miner_raw_power(&st, &p, MINER2).unwrap_err().exit_code, ExitCode::IllegalState);
    Actor::remove_failed_miners(&mut st, &p, &vec![MINER2, MINER1]);
    assert_eq!(val(&Actor::miner_power(&st, MINER2).unwrap().raw_byte_power), 5);
    assert_eq!(Actor::miner_power(&st, MINER1).unwrap_err().exit_code, ExitCode::NotFound);
    assert_eq!(Actor::miner_count(&st), 0);
}
