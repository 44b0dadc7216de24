use cid::multihash::Multihash;
use cid::Cid;
use fvm_shared::address::Address;
use storage_actors::activation::orchestrator::{activate_sectors, settle_notifications};
use storage_actors::activation::quant::QuantSpec;
use storage_actors::activation::state::{MinerState, Sector};
use storage_actors::activation::types::{
    ActivationReturn, ClaimOutcome, DataActivationNotification, NotificationOutcome,
    PieceActivationManifest, SectorUpdateManifest, VerifiedAllocationKey,
};
use storage_actors::bigint::BigInt;
use storage_actors::econ::TokenAmount;
use storage_actors::exit::{BatchAborted, ExitCode};
use storage_actors::registry::state::Registry;
use storage_actors::registry::types::{Allocation, AllocationClaim, SectorAllocationClaims};

const CLIENT_ID: u64 = 1000;
const PROVIDER_ID: u64 = 2000;
const DEFAULT_SECTOR_EXPIRATION_DAYS: i64 = 220;
const EPOCHS_IN_DAY: i64 = 2880;
const FIRST_SECTOR_NUMBER: u64 = 100;
const SECTOR_SIZE: u64 = 32 << 30;
const START_EPOCH: i64 = 5000;
const DEADLINE: u64 = 3;
const PARTITION: u64 = 0;

fn storage_market() -> Address {
    Address::new_id(5)
}

fn quant() -> QuantSpec {
    QuantSpec { unit: 2880, offset: 17 }
}

fn reference_fee() -> TokenAmount {
    TokenAmount::from_atto(BigInt::from_i128(89_000_000_123_457))
}

fn piece_cid(sector: u64, index: usize) -> Cid {
    let mut digest = [0u8; 32];
    digest[..8].copy_from_slice(&sector.to_be_bytes());
    digest[8] = index as u8;
    Cid::new_v1(0xf101, Multihash::wrap(0x1012, &digest).unwrap())
}

fn sealed_cid(sector: u64) -> Cid {
    let mut digest = [7u8; 32];
    digest[..8].copy_from_slice(&sector.to_be_bytes());
    Cid::new_v1(0xf102, Multihash::wrap(0xb401, &digest).unwrap())
}

// The encoding of a deal id as the notified actor expects it.
fn deal_payload(deal_id: u64) -> Vec<u8> {
    assert!((256..65536).contains(&deal_id));
    vec![0x19, (deal_id >> 8) as u8, deal_id as u8]
}

fn setup_basic() -> MinerState {
    MinerState::new(SECTOR_SIZE, quant())
}

fn sector_expiry() -> i64 {
    START_EPOCH + DEFAULT_SECTOR_EXPIRATION_DAYS * EPOCHS_IN_DAY
}

fn setup_empty_sectors(count: usize) -> (MinerState, Vec<Sector>) {
    let mut st = setup_basic();
    let mut sectors = vec![];
    for i in 0..count {
        let sno = FIRST_SECTOR_NUMBER + i as u64;
        assert!(st.onboard_empty_sector(sno, DEADLINE, PARTITION, sector_expiry(), START_EPOCH - 1));
        sectors.push(st.get_sector(sno).unwrap());
    }
    (st, sectors)
}

// Pieces are given as (size, client, allocation, deal); zero stands for none.
fn make_update_manifest(sector: u64, piece_specs: &[(u64, u64, u64, u64)]) -> SectorUpdateManifest {
    let pieces = piece_specs
        .iter()
        .enumerate()
        .map(|(i, (size, client, allocation, deal))| PieceActivationManifest {
            cid: piece_cid(sector, i),
            size: *size,
            verified_allocation_key: if *allocation != 0 {
                Some(VerifiedAllocationKey { client: *client, id: *allocation })
            } else {
                None
            },
            notify: if *deal != 0 {
                vec![DataActivationNotification {
                    address: storage_market(),
                    payload: deal_payload(*deal),
                }]
            } else {
                vec![]
            },
        })
        .collect();
    SectorUpdateManifest {
        sector,
        deadline: DEADLINE,
        partition: PARTITION,
        new_sealed_cid: sealed_cid(sector),
        pieces,
    }
}

#[derive(Default)]
struct ProveReplicaUpdatesConfig {
    proof_failure: Vec<usize>,
    claim_failure: Vec<usize>,
    notification_result: Option<ExitCode>,
    notification_rejected: bool,
}

// The notified actor of the tests: it aborts with the code configured, or turns every
// notification down, or takes it.
fn notify_data_consumers(
    ret: &ActivationReturn,
    cfg: &ProveReplicaUpdatesConfig,
    require_notification_success: bool,
) -> (Vec<NotificationOutcome>, usize) {
    let mut outcomes = vec![];
    for changes in &ret.notifications {
        for piece in &changes.added {
            assert_eq!(piece.address, storage_market());
            outcomes.push(match cfg.notification_result {
                Some(code) => NotificationOutcome::Aborted { code },
                None if cfg.notification_rejected => NotificationOutcome::Rejected,
                None => NotificationOutcome::Accepted,
            });
        }
    }
    let dropped = settle_notifications(&outcomes, require_notification_success);
    (outcomes, dropped)
}

// Runs a batch against a registry that grants every claim but those of the
// sectors listed in `claim_failure`.
fn prove_replica_updates3_batch(
    st: &mut MinerState,
    sector_updates: &Vec<SectorUpdateManifest>,
    require_activation_success: bool,
    cfg: ProveReplicaUpdatesConfig,
    epoch: i64,
) -> Result<ActivationReturn, BatchAborted> {
    let proofs_ok: Vec<bool> =
        (0..sector_updates.len()).map(|i| !cfg.proof_failure.contains(&i)).collect();
    let plan = st.plan_activation(sector_updates, &proofs_ok);
    let outcomes: Vec<ClaimOutcome> = plan
        .claims
        .iter()
        .map(|group| {
            let index = sector_updates.iter().position(|m| m.sector == group.sector).unwrap();
            if cfg.claim_failure.contains(&index) {
                ClaimOutcome { code: ExitCode::IllegalArgument, claimed_space: BigInt::zero() }
            } else {
                let claimed: u64 = group.claims.iter().map(|c| c.size).sum();
                ClaimOutcome { code: ExitCode::Success, claimed_space: BigInt::from_u64(claimed) }
            }
        })
        .collect();
    st.complete_activation(
        sector_updates,
        &proofs_ok,
        &outcomes,
        require_activation_success,
        &reference_fee(),
        epoch,
    )
}

fn verify_weights(st: &MinerState, sno: u64, unverified: u64, verified: u64) {
    let s = st.get_sector(sno).unwrap();
    assert_eq!(s.unverified_space, unverified);
    assert_eq!(s.verified_space, verified);
    let duration = (s.expiration - s.power_base_epoch) as i128;
    assert_eq!(s.deal_weight().to_i128().unwrap(), unverified as i128 * duration);
    assert_eq!(s.verified_deal_weight().to_i128().unwrap(), verified as i128 * duration);
}

fn atto(t: &TokenAmount) -> i128 {
    t.atto().to_i128().unwrap()
}

fn claim(client: u64, allocation_id: u64, m: &SectorUpdateManifest, piece: usize) -> AllocationClaim {
    AllocationClaim { client, allocation_id, data: m.pieces[piece].cid, size: m.pieces[piece].size }
}

fn four_updates(snos: &[u64]) -> Vec<SectorUpdateManifest> {
    let piece_size = SECTOR_SIZE;
    vec![
        make_update_manifest(snos[0], &[(piece_size, 0, 0, 0)]), // No alloc or deal
        make_update_manifest(snos[1], &[(piece_size, CLIENT_ID, 1000, 0)]), // Just an alloc
        make_update_manifest(snos[2], &[(piece_size, 0, 0, 2000)]), // Just a deal
        make_update_manifest(snos[3], &[(piece_size, CLIENT_ID, 1001, 2001)]), // Alloc and deal
    ]
}

fn check_four_updates(
    st: &MinerState,
    sectors: &[Sector],
    sector_updates: &[SectorUpdateManifest],
    ret: &ActivationReturn,
) {
    let snos = sectors.iter().map(|s| s.number).collect::<Vec<_>>();
    let piece_size = SECTOR_SIZE;
    assert_eq!(vec![ExitCode::Success; sectors.len()], ret.activation_results.codes());

    // Explicitly verify claims match what we expect.
    assert_eq!(
        vec![
            SectorAllocationClaims { sector: snos[0], expiry: sectors[0].expiration, claims: vec![] },
            SectorAllocationClaims {
                sector: snos[1],
                expiry: sectors[1].expiration,
                claims: vec![claim(CLIENT_ID, 1000, &sector_updates[1], 0)],
            },
            SectorAllocationClaims { sector: snos[2], expiry: sectors[2].expiration, claims: vec![] },
            SectorAllocationClaims {
                sector: snos[3],
                expiry: sectors[3].expiration,
                claims: vec![claim(CLIENT_ID, 1001, &sector_updates[3], 0)],
            },
        ],
        ret.claims
    );

    // Explicitly verify notifications match what we expect.
    assert_eq!(ret.notifications.len(), 2);
    for (note, (index, deal)) in ret.notifications.iter().zip([(2usize, 2000u64), (3, 2001)]) {
        assert_eq!(note.sector, snos[index]);
        assert_eq!(note.minimum_commitment_epoch, sectors[index].expiration);
        assert_eq!(note.added.len(), 1);
        assert_eq!(note.added[0].data, sector_updates[index].pieces[0].cid);
        assert_eq!(note.added[0].size, sector_updates[index].pieces[0].size);
        assert_eq!(note.added[0].address, storage_market());
        assert_eq!(note.added[0].payload, deal_payload(deal));
    }

    // For a reference, the fee of a sector full of verified data.
    let full_verified_fee = atto(&reference_fee());
    let mut total_fees: i128 = 0;
    for (i, before) in sectors.iter().enumerate() {
        // Sectors with odd indices (1 and 3) are full of verified data, even indices (0 and 2) are not
        let has_verified = i % 2 == 1;
        verify_weights(
            st,
            before.number,
            if has_verified { 0 } else { piece_size },
            if has_verified { piece_size } else { 0 },
        );
        // Check daily fees - for unverified sectors, the full verified fee is divided by 10
        let expected_fee = full_verified_fee.div_euclid(if has_verified { 1 } else { 10 });
        let after = st.get_sector(before.number).unwrap();
        assert_eq!(expected_fee, atto(&after.daily_fee), "daily fees differ for sector {}", before.number);
        total_fees += atto(&after.daily_fee);
    }

    // deadline has the total fees for all sectors
    assert_eq!(total_fees, atto(&st.deadline_fee(DEADLINE)));

    // partition expiration queue has the total fees for all sectors as a deduction
    let quantized_expiration = st.bucket_epoch(sectors[0].expiration);
    assert_eq!(total_fees, atto(&st.bucket_fee(DEADLINE, PARTITION, quantized_expiration)));
    assert_eq!(0, atto(&st.bucket_fee(DEADLINE, PARTITION + 1, quantized_expiration)));
    assert_eq!(0, atto(&st.bucket_fee(DEADLINE, PARTITION, quantized_expiration + 2880)));
    assert_eq!(0, atto(&st.deadline_fee(DEADLINE + 1)));
}

#[test]
fn update_batch() {
    let (mut st, sectors) = setup_empty_sectors(4);
    let snos = sectors.iter().map(|s| s.number).collect::<Vec<_>>();
    // Update in batch, each with a single piece.
    let sector_updates = four_updates(&snos);
    let cfg = ProveReplicaUpdatesConfig::default();
    let ret = prove_replica_updates3_batch(&mut st, &sector_updates, true, cfg, START_EPOCH).unwrap();
    check_four_updates(&st, &sectors, &sector_updates, &ret);
    // The power that the batch brings: four full sectors, two of them verified.
    assert_eq!(ret.power_delta.raw.to_i128().unwrap(), 4 * SECTOR_SIZE as i128);
    assert_eq!(ret.power_delta.quality_adjusted.to_i128().unwrap(), 22 * SECTOR_SIZE as i128);

    // The power ledger takes the delta as a change of the provider's claim.
    let policy = storage_actors::policy::Policy::default();
    let mut power = storage_actors::power::state::State::new(
        storage_actors::power::state::FilterEstimate {
            position: BigInt::zero(),
            velocity: BigInt::zero(),
        },
        0,
        0,
    );
    storage_actors::power::actor::Actor::create_miner(&mut power, &policy, PROVIDER_ID, 13).unwrap();
    storage_actors::power::actor::Actor::update_claimed_power(
        &mut power,
        &policy,
        PROVIDER_ID,
        &ret.power_delta.raw,
        &ret.power_delta.quality_adjusted,
    )
    .unwrap();
    let claimed = storage_actors::power::actor::Actor::miner_power(&power, PROVIDER_ID).unwrap();
    assert_eq!(claimed.raw_byte_power.to_i128().unwrap(), 4 * SECTOR_SIZE as i128);
    assert_eq!(claimed.quality_adj_power.to_i128().unwrap(), 22 * SECTOR_SIZE as i128);
    // 128 GiB is below the consensus minimum of 10 TiB.
    assert_eq!(power.miner_above_min_power_count, 0);
    assert_eq!(power.total_bytes_committed.to_i128().unwrap(), 4 * SECTOR_SIZE as i128);
}

#[test]
fn update_fee() {
    let (mut st, sectors) = setup_empty_sectors(4);

    // sanity check the fee state
    // 1. sectors have no fees
    assert!(sectors.iter().all(|s| s.daily_fee.is_zero()));
    // 2. deadline has no fees
    assert!(st.deadline_fee(DEADLINE).is_zero());
    // 3. expiration queue has no fees
    let quantized_expiration = st.bucket_epoch(sectors[0].expiration);
    assert!(st.bucket_fee(DEADLINE, PARTITION, quantized_expiration).is_zero());

    let snos = sectors.iter().map(|s| s.number).collect::<Vec<_>>();
    let sector_updates = four_updates(&snos);
    let cfg = ProveReplicaUpdatesConfig::default();
    let ret = prove_replica_updates3_batch(&mut st, &sector_updates, true, cfg, START_EPOCH).unwrap();
    check_four_updates(&st, &sectors, &sector_updates, &ret);
}

#[test]
fn multiple_pieces_in_sector() {
    let (mut st, sectors) = setup_empty_sectors(2);
    let snos = sectors.iter().map(|s| s.number).collect::<Vec<_>>();
    let piece_size = SECTOR_SIZE / 2; // Half-sector pieces
    let sector_updates = vec![
        make_update_manifest(
            snos[0],
            &[(piece_size, CLIENT_ID, 1000, 2000), (piece_size, CLIENT_ID, 1001, 2001)],
        ),
        make_update_manifest(
            snos[1],
            &[(piece_size, CLIENT_ID, 1002, 2002), (piece_size, CLIENT_ID, 0, 0)], // no alloc/deal
        ),
    ];

    let cfg = ProveReplicaUpdatesConfig::default();
    let ret = prove_replica_updates3_batch(&mut st, &sector_updates, true, cfg, START_EPOCH).unwrap();
    assert_eq!(vec![ExitCode::Success, ExitCode::Success], ret.activation_results.codes());

    // Explicitly verify claims match what we expect.
    assert_eq!(
        vec![
            SectorAllocationClaims {
                sector: snos[0],
                expiry: sectors[0].expiration,
                claims: vec![
                    claim(CLIENT_ID, 1000, &sector_updates[0], 0),
                    claim(CLIENT_ID, 1001, &sector_updates[0], 1),
                ],
            },
            SectorAllocationClaims {
                sector: snos[1],
                expiry: sectors[1].expiration,
                claims: vec![claim(CLIENT_ID, 1002, &sector_updates[1], 0)],
            },
        ],
        ret.claims
    );

    // Explicitly verify notifications match what we expect.
    assert_eq!(ret.notifications.len(), 2);
    assert_eq!(ret.notifications[0].sector, snos[0]);
    assert_eq!(ret.notifications[0].minimum_commitment_epoch, sectors[0].expiration);
    assert_eq!(ret.notifications[0].added.len(), 2);
    for (i, deal) in [2000u64, 2001].iter().enumerate() {
        assert_eq!(ret.notifications[0].added[i].data, sector_updates[0].pieces[i].cid);
        assert_eq!(ret.notifications[0].added[i].size, sector_updates[0].pieces[i].size);
        assert_eq!(ret.notifications[0].added[i].payload, deal_payload(*deal));
    }
    assert_eq!(ret.notifications[1].sector, snos[1]);
    assert_eq!(ret.notifications[1].minimum_commitment_epoch, sectors[1].expiration);
    assert_eq!(ret.notifications[1].added.len(), 1);
    assert_eq!(ret.notifications[1].added[0].data, sector_updates[1].pieces[0].cid);
    assert_eq!(ret.notifications[1].added[0].size, sector_updates[1].pieces[0].size);
    assert_eq!(ret.notifications[1].added[0].payload, deal_payload(2002));

    verify_weights(&st, snos[0], 0, piece_size * 2);
    verify_weights(&st, snos[1], piece_size, piece_size);
    let full = SECTOR_SIZE as i128 * (DEFAULT_SECTOR_EXPIRATION_DAYS * EPOCHS_IN_DAY) as i128;
    assert_eq!(st.get_sector(snos[0]).unwrap().verified_deal_weight().to_i128().unwrap(), full);
    assert_eq!(st.get_sector(snos[1]).unwrap().deal_weight().to_i128().unwrap(), full / 2);
}

#[test]
fn multiple_notifs_for_piece() {
    let (mut st, sectors) = setup_empty_sectors(2);
    let snos = sectors.iter().map(|s| s.number).collect::<Vec<_>>();
    let piece_size = SECTOR_SIZE / 2;
    let mut sector_updates = vec![
        make_update_manifest(snos[0], &[(piece_size, CLIENT_ID, 0, 0), (piece_size, CLIENT_ID, 0, 0)]),
        make_update_manifest(snos[1], &[(piece_size, CLIENT_ID, 0, 0)]),
    ];
    // 2 notifications for sector[0], piece[0]
    sector_updates[0].pieces[0]
        .notify
        .push(DataActivationNotification { address: storage_market(), payload: vec![6, 6, 6, 6] });
    sector_updates[0].pieces[0]
        .notify
        .push(DataActivationNotification { address: storage_market(), payload: vec![7, 7, 7, 7] });
    // One notification for sector[0], piece[1]
    sector_updates[0].pieces[1]
        .notify
        .push(DataActivationNotification { address: storage_market(), payload: vec![8, 8, 8, 8] });
    // One notification for sector[1], piece[0]
    sector_updates[1].pieces[0]
        .notify
        .push(DataActivationNotification { address: storage_market(), payload: vec![9, 9, 9, 9] });

    let cfg = ProveReplicaUpdatesConfig::default();
    let ret = prove_replica_updates3_batch(&mut st, &sector_updates, true, cfg, START_EPOCH).unwrap();
    assert_eq!(vec![ExitCode::Success, ExitCode::Success], ret.activation_results.codes());

    // Explicitly verify notifications match what we expect.
    assert_eq!(ret.notifications.len(), 2);
    let first = &ret.notifications[0];
    assert_eq!(first.sector, snos[0]);
    assert_eq!(first.minimum_commitment_epoch, sectors[0].expiration);
    let got: Vec<(Cid, u64, Vec<u8>)> =
        first.added.iter().map(|c| (c.data, c.size, c.payload.clone())).collect();
    assert_eq!(
        got,
        vec![
            (sector_updates[0].pieces[0].cid, sector_updates[0].pieces[0].size, vec![6, 6, 6, 6]),
            (sector_updates[0].pieces[0].cid, sector_updates[0].pieces[0].size, vec![7, 7, 7, 7]),
            (sector_updates[0].pieces[1].cid, sector_updates[0].pieces[1].size, vec![8, 8, 8, 8]),
        ]
    );
    let second = &ret.notifications[1];
    assert_eq!(second.sector, snos[1]);
    assert_eq!(second.minimum_commitment_epoch, sectors[1].expiration);
    let got: Vec<(Cid, u64, Vec<u8>)> =
        second.added.iter().map(|c| (c.data, c.size, c.payload.clone())).collect();
    assert_eq!(
        got,
        vec![(sector_updates[1].pieces[0].cid, sector_updates[1].pieces[0].size, vec![9, 9, 9, 9])]
    );

    verify_weights(&st, snos[0], piece_size * 2, 0);
    verify_weights(&st, snos[1], piece_size, 0);
}

#[test]
fn cant_update_nonempty_sector() {
    // Onboard a sector and fill it: a piece fills the sector.
    let (mut st, sectors) = setup_empty_sectors(1);
    let snos = sectors.iter().map(|s| s.number).collect::<Vec<_>>();
    let fill = vec![make_update_manifest(snos[0], &[(SECTOR_SIZE, 0, 0, 0)])];
    let cfg = ProveReplicaUpdatesConfig::default();
    prove_replica_updates3_batch(&mut st, &fill, true, cfg, START_EPOCH).unwrap();

    // Attempt to update
    let sector_updates = vec![make_update_manifest(snos[0], &[(SECTOR_SIZE, 0, 0, 0)])];
    let cfg = ProveReplicaUpdatesConfig::default();
    let err =
        prove_replica_updates3_batch(&mut st, &sector_updates, true, cfg, START_EPOCH + 1).unwrap_err();
    assert_eq!(err.exit_code, ExitCode::IllegalArgument);
    assert_eq!(err.results.codes(), vec![ExitCode::IllegalArgument]);
    assert_eq!(st.get_sector(snos[0]).unwrap().power_base_epoch, START_EPOCH);
}

#[test]
fn invalid_update_dropped() {
    let (mut st, sectors) = setup_empty_sectors(2);
    let snos = sectors.iter().map(|s| s.number).collect::<Vec<_>>();
    let piece_size = SECTOR_SIZE;
    let mut sector_updates = vec![
        make_update_manifest(snos[0], &[(piece_size, CLIENT_ID, 1000, 2000)]),
        make_update_manifest(snos[1], &[(piece_size, CLIENT_ID, 1001, 20001)]),
    ];
    sector_updates[0].deadline += 1; // Invalid update

    let cfg = ProveReplicaUpdatesConfig::default();
    let ret = prove_replica_updates3_batch(&mut st, &sector_updates, false, cfg, START_EPOCH).unwrap();
    assert_eq!(vec![ExitCode::IllegalArgument, ExitCode::Success], ret.activation_results.codes());

    // Sector 0: no change.
    verify_weights(&st, snos[0], 0, 0);
    // Sector 1: verified weight.
    verify_weights(&st, snos[1], 0, piece_size);
    assert_eq!(1, ret.claims.len());
    assert_eq!(snos[1], ret.claims[0].sector);
    assert_eq!(1, ret.notifications.len());
    assert_eq!(snos[1], ret.notifications[0].sector);
}

#[test]
fn invalid_proof_dropped() {
    let (mut st, sectors) = setup_empty_sectors(2);
    let snos = sectors.iter().map(|s| s.number).collect::<Vec<_>>();
    let piece_size = SECTOR_SIZE;
    let sector_updates = vec![
        make_update_manifest(snos[0], &[(piece_size, CLIENT_ID, 1000, 2000)]),
        make_update_manifest(snos[1], &[(piece_size, CLIENT_ID, 1001, 20001)]),
    ];

    let cfg = ProveReplicaUpdatesConfig { proof_failure: vec![0], ..Default::default() };
    let ret = prove_replica_updates3_batch(&mut st, &sector_updates, false, cfg, START_EPOCH).unwrap();
    assert_eq!(vec![ExitCode::IllegalArgument, ExitCode::Success], ret.activation_results.codes());

    verify_weights(&st, snos[0], 0, 0);
    verify_weights(&st, snos[1], 0, piece_size);
}

#[test]
fn invalid_claim_dropped() {
    let (mut st, sectors) = setup_empty_sectors(2);
    let snos = sectors.iter().map(|s| s.number).collect::<Vec<_>>();
    let piece_size = SECTOR_SIZE;
    let sector_updates = vec![
        make_update_manifest(snos[0], &[(piece_size, CLIENT_ID, 1000, 2000)]),
        make_update_manifest(snos[1], &[(piece_size, CLIENT_ID, 1001, 20001)]),
    ];

    let cfg = ProveReplicaUpdatesConfig { claim_failure: vec![0], ..Default::default() };
    let ret = prove_replica_updates3_batch(&mut st, &sector_updates, false, cfg, START_EPOCH).unwrap();
    assert_eq!(vec![ExitCode::IllegalArgument, ExitCode::Success], ret.activation_results.codes());

    verify_weights(&st, snos[0], 0, 0);
    verify_weights(&st, snos[1], 0, piece_size);
}

fn three_updates_with_notifications(snos: &[u64]) -> Vec<SectorUpdateManifest> {
    let piece_size = SECTOR_SIZE;
    vec![
        make_update_manifest(snos[0], &[(piece_size, 0, 0, 0)]),
        make_update_manifest(snos[1], &[(piece_size, 0, 0, 2001)]),
        make_update_manifest(snos[2], &[(piece_size, CLIENT_ID, 1000, 2002)]),
    ]
}

#[test]
fn aborted_notification_dropped() {
    let (mut st, sectors) = setup_empty_sectors(3);
    let snos = sectors.iter().map(|s| s.number).collect::<Vec<_>>();
    let piece_size = SECTOR_SIZE;
    let sector_updates = three_updates_with_notifications(&snos);

    let cfg = ProveReplicaUpdatesConfig {
        notification_result: Some(ExitCode::Unspecified),
        ..Default::default()
    };
    let aborting = ProveReplicaUpdatesConfig {
        notification_result: Some(ExitCode::Unspecified),
        ..Default::default()
    };
    let ret = prove_replica_updates3_batch(&mut st, &sector_updates, false, cfg, START_EPOCH).unwrap();
    // Both notifications are aborted by their receiver, and dropped.
    let (outcomes, dropped) = notify_data_consumers(&ret, &aborting, false);
    assert_eq!(outcomes, vec![NotificationOutcome::Aborted { code: ExitCode::Unspecified }; 2]);
    assert_eq!(dropped, 2);
    // All sectors succeed anyway.
    assert_eq!(vec![ExitCode::Success; sectors.len()], ret.activation_results.codes());

    // All power is activated anyway.
    verify_weights(&st, snos[0], piece_size, 0);
    verify_weights(&st, snos[1], piece_size, 0);
    verify_weights(&st, snos[2], 0, piece_size);
}

#[test]
fn rejected_notification_dropped() {
    let (mut st, sectors) = setup_empty_sectors(3);
    let snos = sectors.iter().map(|s| s.number).collect::<Vec<_>>();
    let piece_size = SECTOR_SIZE;
    let sector_updates = three_updates_with_notifications(&snos);

    let cfg = ProveReplicaUpdatesConfig { notification_rejected: true, ..Default::default() };
    let rejecting = ProveReplicaUpdatesConfig { notification_rejected: true, ..Default::default() };
    let ret = prove_replica_updates3_batch(&mut st, &sector_updates, false, cfg, START_EPOCH).unwrap();
    // Both notifications are turned down by their receiver, and dropped.
    let (outcomes, dropped) = notify_data_consumers(&ret, &rejecting, false);
    assert_eq!(outcomes, vec![NotificationOutcome::Rejected; 2]);
    assert_eq!(dropped, 2);
    // All sectors succeed anyway.
    assert_eq!(vec![ExitCode::Success; sectors.len()], ret.activation_results.codes());

    // All power is activated anyway.
    verify_weights(&st, snos[0], piece_size, 0);
    verify_weights(&st, snos[1], piece_size, 0);
    verify_weights(&st, snos[2], 0, piece_size);
}

#[test]
fn notifications_never_decide() {
    let outcomes = vec![
        NotificationOutcome::Accepted,
        NotificationOutcome::Rejected,
        NotificationOutcome::Accepted,
        NotificationOutcome::Aborted { code: ExitCode::NotFound },
    ];
    assert_eq!(settle_notifications(&outcomes, false), 2);
    assert_eq!(settle_notifications(&outcomes, true), 2);
    assert_eq!(settle_notifications(&vec![], true), 0);
    assert_eq!(settle_notifications(&vec![NotificationOutcome::Accepted; 3], true), 0);
}

#[test]
fn a_claim_in_the_registry_with_either_strictness_flag() {
    let (mut st, sectors) = setup_empty_sectors(3);
    let snos = sectors.iter().map(|s| s.number).collect::<Vec<_>>();
    let piece_size = SECTOR_SIZE;
    let mut sector_updates = three_updates_with_notifications(&snos);
    sector_updates[2].pieces[0].verified_allocation_key =
        Some(VerifiedAllocationKey { client: CLIENT_ID, id: 1 });
    let (mut reg, ids) = registry_with_allocations(&sector_updates, sector_expiry());
    assert_eq!(ids, vec![1]);
    let ret = activate_sectors(
        &mut st,
        &mut reg,
        PROVIDER_ID,
        &sector_updates,
        &vec![true; 3],
        false,
        true,
        &reference_fee(),
        START_EPOCH,
    )
    .unwrap();
    assert_eq!(vec![ExitCode::Success; sectors.len()], ret.activation_results.codes());
    verify_weights(&st, snos[0], piece_size, 0);
    verify_weights(&st, snos[1], piece_size, 0);
    verify_weights(&st, snos[2], 0, piece_size);
    assert_eq!(reg.get_claim(PROVIDER_ID, 1).unwrap().sector, snos[2]);
}

#[test]
fn update_to_empty() {
    let (mut st, sectors) = setup_empty_sectors(1);
    let snos = sectors.iter().map(|s| s.number).collect::<Vec<_>>();

    let sector_updates = vec![
        make_update_manifest(snos[0], &[]), // No pieces
    ];

    let cfg = ProveReplicaUpdatesConfig::default();
    let ret = prove_replica_updates3_batch(&mut st, &sector_updates, true, cfg, START_EPOCH).unwrap();
    assert_eq!(vec![ExitCode::Success; sectors.len()], ret.activation_results.codes());
    verify_weights(&st, snos[0], 0, 0);
    assert!(st.get_sector(snos[0]).unwrap().daily_fee.is_zero());

    // Because data is still empty, it's eligible for update again, this time with data.
    let piece_size = SECTOR_SIZE;
    let sector_updates = vec![make_update_manifest(snos[0], &[(piece_size, 0, 0, 0)])];

    let cfg = ProveReplicaUpdatesConfig::default();
    let ret = prove_replica_updates3_batch(&mut st, &sector_updates, true, cfg, START_EPOCH).unwrap();
    assert_eq!(vec![ExitCode::Success; sectors.len()], ret.activation_results.codes());

    // But not again now it's non-empty.
    let cfg = ProveReplicaUpdatesConfig::default();
    let err = prove_replica_updates3_batch(&mut st, &sector_updates, true, cfg, START_EPOCH).unwrap_err();
    assert_eq!(err.exit_code, ExitCode::IllegalArgument);
    verify_weights(&st, snos[0], piece_size, 0);
}

fn registry_with_allocations(updates: &[SectorUpdateManifest], term_max: i64) -> (Registry, Vec<u64>) {
    let mut reg = Registry::new();
    let mut ids = vec![];
    for m in updates {
        for p in &m.pieces {
            if p.verified_allocation_key.is_some() {
                let id = reg
                    .create_allocation(Allocation {
                        client: CLIENT_ID,
                        provider: PROVIDER_ID,
                        data: p.cid,
                        size: p.size,
                        term_min: 100,
                        term_max,
                        expiration: START_EPOCH + 10,
                        created_at: START_EPOCH,
                    })
                    .unwrap();
                ids.push(id);
            }
        }
    }
    (reg, ids)
}

#[test]
fn four_sectors_end_to_end() {
    let (mut st, sectors) = setup_empty_sectors(5);
    let snos = sectors.iter().map(|s| s.number).collect::<Vec<_>>();
    let piece_size = SECTOR_SIZE;
    // The allocations get the ids 1 and 2 in the order of the pieces that name them.
    let sector_updates = vec![
        make_update_manifest(snos[0], &[]),
        make_update_manifest(snos[1], &[(piece_size, CLIENT_ID, 1, 0)]),
        make_update_manifest(snos[2], &[(piece_size, 0, 0, 2000)]),
        make_update_manifest(snos[3], &[(piece_size, CLIENT_ID, 2, 2001)]),
    ];
    let (mut reg, ids) = registry_with_allocations(&sector_updates, sector_expiry());
    assert_eq!(ids, vec![1, 2]);
    let proofs_ok = vec![true; 4];
    let ret = activate_sectors(
        &mut st,
        &mut reg,
        PROVIDER_ID,
        &sector_updates,
        &proofs_ok,
        true,
        true,
        &reference_fee(),
        START_EPOCH,
    )
    .unwrap();
    assert_eq!(vec![ExitCode::Success; 4], ret.activation_results.codes());

    // Exactly one claim for each sector that names an allocation.
    let claimed: Vec<(u64, usize)> = ret.claims.iter().map(|g| (g.sector, g.claims.len())).collect();
    assert_eq!(claimed, vec![(snos[0], 0), (snos[1], 1), (snos[2], 0), (snos[3], 1)]);
    assert_eq!(reg.get_claim(PROVIDER_ID, 1).unwrap().sector, snos[1]);
    assert_eq!(reg.get_claim(PROVIDER_ID, 1).unwrap().term_start, START_EPOCH);
    assert_eq!(reg.get_claim(PROVIDER_ID, 2).unwrap().sector, snos[3]);
    assert!(reg.get_allocation(CLIENT_ID, 1).is_none());
    assert!(reg.get_allocation(CLIENT_ID, 2).is_none());

    // One notification entry for each sector with a deal.
    let notified: Vec<u64> = ret.notifications.iter().map(|n| n.sector).collect();
    assert_eq!(notified, vec![snos[2], snos[3]]);

    verify_weights(&st, snos[0], 0, 0);
    verify_weights(&st, snos[1], 0, piece_size);
    verify_weights(&st, snos[2], piece_size, 0);
    verify_weights(&st, snos[3], 0, piece_size);
    let reference = atto(&reference_fee());
    let fees: Vec<i128> = snos.iter().map(|s| atto(&st.get_sector(*s).unwrap().daily_fee)).collect();
    assert_eq!(fees, vec![0, reference, reference / 10, reference, 0]);

    // The sector that the batch does not name is as it was.
    let untouched = st.get_sector(snos[4]).unwrap();
    assert_eq!(untouched.power_base_epoch, START_EPOCH - 1);
    assert_eq!(untouched.verified_space, 0);
    assert_eq!(untouched.unverified_space, 0);
    assert!(untouched.daily_fee.is_zero());
    assert_eq!(st.get_sector(snos[1]).unwrap().power_base_epoch, START_EPOCH);

    let bucket = st.bucket_epoch(sector_expiry());
    assert_eq!(atto(&st.bucket_fee(DEADLINE, PARTITION, bucket)), 2 * reference + reference / 10);
    assert_eq!(atto(&st.deadline_fee(DEADLINE)), 2 * reference + reference / 10);
}

#[test]
fn a_failed_claim_in_a_strict_batch_changes_nothing() {
    let (mut st, sectors) = setup_empty_sectors(2);
    let snos = sectors.iter().map(|s| s.number).collect::<Vec<_>>();
    let piece_size = SECTOR_SIZE;
    let sector_updates = vec![
        make_update_manifest(snos[0], &[(piece_size, CLIENT_ID, 1, 0)]),
        make_update_manifest(snos[1], &[(piece_size, CLIENT_ID, 7, 0)]), // No such allocation
    ];
    let (mut reg, _) = registry_with_allocations(&sector_updates[..1], sector_expiry());
    let proofs_ok = vec![true; 2];
    let err = activate_sectors(
        &mut st,
        &mut reg,
        PROVIDER_ID,
        &sector_updates,
        &proofs_ok,
        true,
        false,
        &reference_fee(),
        START_EPOCH,
    )
    .unwrap_err();
    assert_eq!(err.exit_code, ExitCode::IllegalArgument);
    assert_eq!(err.results.codes(), vec![ExitCode::Success, ExitCode::NotFound]);
    verify_weights(&st, snos[0], 0, 0);
    verify_weights(&st, snos[1], 0, 0);
    assert!(reg.get_allocation(CLIENT_ID, 1).is_some());
    assert!(reg.get_claim(PROVIDER_ID, 1).is_none());

    // Taken sector by sector, the first is activated and the second is not found.
    let ret = activate_sectors(
        &mut st,
        &mut reg,
        PROVIDER_ID,
        &sector_updates,
        &proofs_ok,
        false,
        false,
        &reference_fee(),
        START_EPOCH,
    )
    .unwrap();
    assert_eq!(ret.activation_results.codes(), vec![ExitCode::Success, ExitCode::NotFound]);
    verify_weights(&st, snos[0], 0, piece_size);
    verify_weights(&st, snos[1], 0, 0);
    assert_eq!(reg.get_claim(PROVIDER_ID, 1).unwrap().sector, snos[0]);
}

#[test]
fn a_strict_batch_with_an_invalid_manifest_tries_no_claim() {
    let (mut st, sectors) = setup_empty_sectors(2);
    let snos = sectors.iter().map(|s| s.number).collect::<Vec<_>>();
    let piece_size = SECTOR_SIZE;
    let mut sector_updates = vec![
        make_update_manifest(snos[0], &[(piece_size, CLIENT_ID, 1, 0)]),
        make_update_manifest(snos[1], &[(piece_size, 0, 0, 0)]),
    ];
    sector_updates[1].deadline += 1;
    let (mut reg, _) = registry_with_allocations(&sector_updates[..1], sector_expiry());
    let err = activate_sectors(
        &mut st,
        &mut reg,
        PROVIDER_ID,
        &sector_updates,
        &vec![true; 2],
        true,
        false,
        &reference_fee(),
        START_EPOCH,
    )
    .unwrap_err();
    assert_eq!(err.exit_code, ExitCode::IllegalArgument);
    assert_eq!(err.results.codes(), vec![ExitCode::Success, ExitCode::IllegalArgument]);
    assert!(reg.get_allocation(CLIENT_ID, 1).is_some());
    verify_weights(&st, snos[0], 0, 0);
}

#[test]
fn validation_rejects_what_does_not_fit() {
    let (mut st, sectors) = setup_empty_sectors(3);
    let snos = sectors.iter().map(|s| s.number).collect::<Vec<_>>();
    let half = SECTOR_SIZE / 2;
    let mut wrong_partition = make_update_manifest(snos[2], &[(half, 0, 0, 0)]);
    wrong_partition.partition += 1;
    let sector_updates = vec![
        make_update_manifest(snos[0], &[(half, 0, 0, 0), (half, 0, 0, 0), (1, 0, 0, 0)]), // Too much data
        make_update_manifest(snos[1], &[(half, 0, 0, 0), (half, 0, 0, 0)]),               // Just fits
        make_update_manifest(snos[1], &[(half, 0, 0, 0)]), // Named twice
        make_update_manifest(999, &[(half, 0, 0, 0)]),     // No such sector
        wrong_partition,
    ];
    let proofs_ok = vec![true; 5];
    let plan = st.plan_activation(&sector_updates, &proofs_ok);
    assert_eq!(
        plan.validation.codes(),
        vec![
            ExitCode::IllegalArgument,
            ExitCode::Success,
            ExitCode::IllegalArgument,
            ExitCode::IllegalArgument,
            ExitCode::IllegalArgument,
        ]
    );
    assert_eq!(plan.claims.len(), 1);
    assert_eq!(plan.claims[0].sector, snos[1]);
    // A list of proof results that is too short counts as proofs not found good.
    let short = st.plan_activation(&sector_updates, &vec![true]);
    assert_eq!(short.validation.codes(), vec![ExitCode::IllegalArgument; 5]);

    // The number of outcomes has to be the number of valid manifests.
    let err = st
        .complete_activation(&sector_updates, &proofs_ok, &vec![], false, &reference_fee(), START_EPOCH)
        .unwrap_err();
    assert_eq!(err.exit_code, ExitCode::IllegalState);
    assert_eq!(err.results.codes(), plan.validation.codes());
    // A registry that grants more space than the pieces have is not believed.
    let outcomes =
        vec![ClaimOutcome { code: ExitCode::Success, claimed_space: BigInt::from_u64(SECTOR_SIZE + 1) }];
    let ret = st
        .complete_activation(&sector_updates, &proofs_ok, &outcomes, false, &reference_fee(), START_EPOCH)
        .unwrap();
    assert_eq!(ret.activation_results.code_at(1), ExitCode::IllegalState);
    verify_weights(&st, snos[1], 0, 0);
}

#[test]
fn fee_of_a_partly_verified_sector() {
    let (mut st, sectors) = setup_empty_sectors(1);
    let sno = sectors[0].number;
    let quarter = SECTOR_SIZE / 4;
    let sector_updates =
        vec![make_update_manifest(sno, &[(quarter, CLIENT_ID, 1000, 0), (quarter, 0, 0, 0)])];
    let cfg = ProveReplicaUpdatesConfig::default();
    prove_replica_updates3_batch(&mut st, &sector_updates, true, cfg, START_EPOCH).unwrap();
    verify_weights(&st, sno, quarter, quarter);
    // reference * (verified * 10 + unverified) / (capacity * 10)
    let reference = atto(&reference_fee());
    let expected = reference * (quarter as i128 * 10 + quarter as i128) / (SECTOR_SIZE as i128 * 10);
    assert_eq!(expected, 24_475_000_033_950);
    assert_eq!(atto(&st.get_sector(sno).unwrap().daily_fee), expected);
}

#[test]
fn quantized_epochs() {
    let q = QuantSpec { unit: 10, offset: 3 };
    assert_eq!(q.quantize_up(3), 3);
    assert_eq!(q.quantize_up(4), 13);
    assert_eq!(q.quantize_up(13), 13);
    assert_eq!(q.quantize_up(0), 3);
    assert_eq!(q.quantize_up(-7), -7);
    assert_eq!(q.quantize_up(-8), -7);
    assert_eq!(q.quantize_up(-16), -7);
    assert_eq!(q.quantize_up(-17), -17);
    let plain = QuantSpec { unit: 1, offset: 0 };
    assert_eq!(plain.quantize_up(12345), 12345);
}

#[test]
fn sectors_are_onboarded_once() {
    let mut st = setup_basic();
    assert!(st.onboard_empty_sector(1, 0, 0, 100, 0));
    assert!(!st.onboard_empty_sector(1, 2, 3, 200, 0));
    assert!(!st.onboard_empty_sector(2, 0, 0, i64::MAX, 0));
    assert_eq!(st.sector_count(), 1);
    assert_eq!(st.find_sector(1), Some(0));
    assert_eq!(st.find_sector(2), None);
    assert_eq!(st.get_sector(1).unwrap().deadline, 0);
}
