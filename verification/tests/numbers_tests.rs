use storage_actors::bigint::BigInt;
use storage_actors::econ::TokenAmount;
use storage_actors::exit::{BatchReturn, ExitCode, FailCode};
use storage_actors::owner_map::OwnerMap;
use storage_actors::policy::Policy;

fn big(x: i128) -> BigInt {
    BigInt::from_i128(x)
}

fn val(x: &BigInt) -> i128 {
    x.to_i128().unwrap()
}

#[test]
fn bigint_round_trips_through_i128() {
    for x in [0i128, 1, -1, 127, 128, -128, -129, 255, 256, i64::MAX as i128, i128::MAX, i128::MIN] {
        assert_eq!(big(x).to_i128(), Some(x));
    }
    assert_eq!(BigInt::from_u64(u64::MAX).to_i128(), Some(u64::MAX as i128));
    assert_eq!(BigInt::from_i64(i64::MIN).to_i128(), Some(i64::MIN as i128));
    assert_eq!(BigInt::zero().to_i128(), Some(0));
}

#[test]
fn bigint_leaves_the_range_of_i128() {
    let over = big(i128::MAX).add(&big(1));
    assert_eq!(over.to_i128(), None);
    assert_eq!(over.sub(&big(1)).to_i128(), Some(i128::MAX));
    let under = big(i128::MIN).sub(&big(1));
    assert_eq!(under.to_i128(), None);
    assert!(under.is_negative());
    let square = big(i128::MAX).mul(&big(i128::MAX));
    assert_eq!(square.to_i128(), None);
    assert_eq!(val(&square.div_floor(&big(i128::MAX))), i128::MAX);
}

#[test]
fn bigint_arithmetic() {
    assert_eq!(val(&big(7).add(&big(-10))), -3);
    assert_eq!(val(&big(7).sub(&big(-10))), 17);
    assert_eq!(val(&big(7).mul(&big(-10))), -70);
    assert_eq!(val(&big(-6).mul(&big(-7))), 42);
    assert_eq!(val(&big(5).add(&big(0))), 5);
    assert_eq!(val(&big(5).clone()), 5);
}

#[test]
fn bigint_division_rounds_down_and_up() {
    assert_eq!(val(&big(7).div_floor(&big(2))), 3);
    assert_eq!(val(&big(7).div_ceil(&big(2))), 4);
    assert_eq!(val(&big(-7).div_floor(&big(2))), -4);
    assert_eq!(val(&big(-7).div_ceil(&big(2))), -3);
    assert_eq!(val(&big(8).div_floor(&big(2))), 4);
    assert_eq!(val(&big(8).div_ceil(&big(2))), 4);
    assert_eq!(val(&big(0).div_ceil(&big(5))), 0);
    assert_eq!(val(&big(1).div_ceil(&big(5))), 1);
    assert_eq!(val(&big(-1).div_floor(&big(5))), -1);
    // A negative divisor
    assert_eq!(val(&big(7).div_floor(&big(-2))), -4);
    assert_eq!(val(&big(7).div_ceil(&big(-2))), -3);
    assert_eq!(val(&big(-7).div_floor(&big(-2))), 3);
    assert_eq!(val(&big(-7).div_ceil(&big(-2))), 4);
    assert_eq!(val(&big(8).div_floor(&big(-2))), -4);
    assert_eq!(val(&big(8).div_ceil(&big(-2))), -4);
    assert_eq!(val(&big(0).div_floor(&big(-3))), 0);
    assert_eq!(val(&big(0).div_ceil(&big(-3))), 0);
}

#[test]
fn bigint_bytes() {
    for x in [0i128, 1, -1, 127, 128, -128, -129, 65535, -65536, i128::MAX, i128::MIN] {
        let bytes = big(x).to_signed_bytes_le();
        assert_eq!(BigInt::from_signed_bytes_le(bytes).to_i128(), Some(x));
    }
    assert_eq!(BigInt::from_signed_bytes_le(vec![]).to_i128(), Some(0));
    assert_eq!(BigInt::from_signed_bytes_le(vec![0x80]).to_i128(), Some(-128));
    assert_eq!(BigInt::from_signed_bytes_le(vec![0x80, 0x00]).to_i128(), Some(128));
    assert_eq!(BigInt::from_signed_bytes_le(vec![0x9b, 0xfb]).to_i128(), Some(-1125));
    assert_eq!(storage_actors::bigint::copy_bytes(&vec![1, 2, 3]), vec![1, 2, 3]);
}

#[test]
fn bigint_comparisons() {
    assert!(big(-3).lt(&big(2)));
    assert!(!big(2).lt(&big(2)));
    assert!(!big(3).lt(&big(2)));
    assert!(big(2).le(&big(2)));
    assert!(!big(3).le(&big(2)));
    assert!(big(2).equals(&big(2)));
    assert!(!big(2).equals(&big(-2)));
    assert!(big(0).is_zero());
    assert!(!big(1).is_zero());
    assert!(big(-1).is_negative());
    assert!(!big(0).is_negative());
    assert!(big(1).is_positive());
    assert!(!big(0).is_positive());
}

#[test]
fn token_amounts() {
    let one = TokenAmount::from_whole(1);
    assert_eq!(val(&one.atto()), 1_000_000_000_000_000_000);
    assert_eq!(val(&TokenAmount::from_whole(-3).atto()), -3_000_000_000_000_000_000);
    let atto = TokenAmount::from_atto(big(5));
    assert_eq!(val(&one.add(&atto).atto()), 1_000_000_000_000_000_005);
    assert_eq!(val(&one.sub(&atto).atto()), 999_999_999_999_999_995);
    assert_eq!(val(&atto.mul(&big(-4)).atto()), -20);
    assert_eq!(val(&atto.div_floor(&big(2)).atto()), 2);
    assert_eq!(val(&atto.div_ceil(&big(2)).atto()), 3);
    assert_eq!(val(&one.add(&atto).whole()), 1);
    assert_eq!(val(&one.sub(&atto).whole()), 0);
    assert_eq!(val(&TokenAmount::zero().sub(&atto).whole()), -1);
    assert!(atto.lt(&one));
    assert!(atto.le(&atto));
    assert!(!one.le(&atto));
    assert!(atto.equals(&TokenAmount::from_atto(big(5))));
    assert!(TokenAmount::zero().is_zero());
    assert!(atto.is_positive());
    assert!(TokenAmount::zero().sub(&atto).is_negative());
    assert_eq!(val(&atto.clone().atto()), 5);
}

#[test]
fn exit_code_values() {
    let all = [
        (ExitCode::Success, 0),
        (ExitCode::IllegalArgument, 16),
        (ExitCode::NotFound, 17),
        (ExitCode::Forbidden, 18),
        (ExitCode::InsufficientFunds, 19),
        (ExitCode::IllegalState, 20),
        (ExitCode::Unspecified, 23),
    ];
    for (code, value) in all {
        assert_eq!(code.value(), value);
        assert_eq!(ExitCode::from_value(value), Some(code));
        assert_eq!(code.is_success(), value == 0);
    }
    assert_eq!(ExitCode::from_value(1), None);
    assert_eq!(ExitCode::from_value(21), None);
    assert_eq!(ExitCode::from_value(22), None);
    assert_eq!(ExitCode::from_value(24), None);
}

#[test]
fn batch_returns() {
    let empty = BatchReturn::empty();
    assert_eq!(empty.size(), 0);
    assert!(empty.all_ok());
    assert_eq!(empty.codes(), vec![]);

    let ok = BatchReturn::ok(3);
    assert_eq!(ok.codes(), vec![ExitCode::Success; 3]);
    assert!(ok.all_ok());
    assert_eq!(ok.success_count(), 3);
    assert_eq!(ok.fail_codes(), vec![]);

    let codes = vec![ExitCode::Success, ExitCode::NotFound, ExitCode::Success, ExitCode::Forbidden];
    let mut mixed = BatchReturn::of(&codes);
    assert_eq!(mixed.codes(), codes);
    assert_eq!(mixed.size(), 4);
    assert!(!mixed.all_ok());
    assert_eq!(mixed.success_count(), 2);
    assert_eq!(
        mixed.fail_codes(),
        vec![
            FailCode { idx: 1, code: ExitCode::NotFound },
            FailCode { idx: 3, code: ExitCode::Forbidden },
        ]
    );
    assert_eq!(mixed.code_at(3), ExitCode::Forbidden);
    mixed.push(ExitCode::IllegalState);
    assert_eq!(mixed.size(), 5);
    assert_eq!(mixed.code_at(4), ExitCode::IllegalState);
    assert_eq!(mixed, BatchReturn::of(&mixed.codes()));
}

#[test]
fn owner_map_keeps_ids_in_order() {
    let mut m: OwnerMap<u32> = OwnerMap::new();
    assert_eq!(m.len(), 0);
    m.insert(2, 9, 29);
    m.insert(1, 5, 15);
    m.insert(2, 3, 23);
    m.insert(1, 7, 17);
    m.insert(3, 1, 31);
    m.insert(1, 5, 150); // replaces
    assert_eq!(m.len(), 5);
    assert_eq!(m.get(1, 5), Some(150));
    assert_eq!(m.get(2, 5), None);
    assert_eq!(m.get_ref(2, 3), Some(&23));
    assert!(m.contains(3, 1));
    assert!(!m.contains(3, 2));
    assert_eq!(m.ids_of(1), vec![5, 7]);
    assert_eq!(m.ids_of(2), vec![3, 9]);
    assert_eq!(m.ids_of(4), Vec::<u64>::new());
    assert_eq!(m.remove(2, 3), Some(23));
    assert_eq!(m.remove(2, 3), None);
    assert_eq!(m.ids_of(2), vec![9]);
    assert_eq!(m.len(), 4);
}

#[test]
fn policy_defaults() {
    let p = Policy::default();
    assert_eq!(p.minimum_verified_allocation_size, 1 << 20);
    assert_eq!(p.minimum_verified_allocation_term, 518400);
    assert_eq!(p.maximum_verified_allocation_term, 5259485);
    assert_eq!(p.maximum_verified_allocation_expiration, 172800);
    assert_eq!(p.minimum_consensus_power, 10 << 40);
}
