use monolith::crh::{TwoToOneCrhScheme64, CRH64};
use monolith::field::{Fp, P};
use monolith::params::{round_constants_from_bytes, MonolithError, MonolithParams};

#[test]
fn field_arithmetic() {
    assert_eq!(Fp(P - 1).add(Fp(1)), Fp(0));
    assert_eq!(Fp(1).add(Fp(1)), Fp(2));
    assert_eq!(Fp(0).sub(Fp(1)), Fp(P - 1));
    assert_eq!(Fp(5).sub(Fp(3)), Fp(2));
    // 2^64 = 2^32 - 1 mod p.
    let two32 = Fp(1u64 << 32);
    assert_eq!(two32.mul(two32), Fp(0xFFFF_FFFF));
    assert_eq!(two32.square(), two32.mul(two32));
    assert_eq!(Fp(3).mul(Fp(7)), Fp(21));
    assert_eq!(Fp::zero(), Fp(0));
    assert_eq!(Fp::one(), Fp(1));
    assert_eq!(Fp::from_canonical_u64(42).to_canonical_u64(), 42);
}

#[test]
fn field_from_random_bytes() {
    // p itself is rejected; p - 1 is accepted.
    let reject: [u8; 8] = P.to_le_bytes();
    assert_eq!(Fp::from_random_bytes(&reject), None);
    let accept: [u8; 8] = (P - 1).to_le_bytes();
    assert_eq!(Fp::from_random_bytes(&accept), Some(Fp(P - 1)));
    let all_ff: [u8; 8] = [0xFF; 8];
    assert_eq!(Fp::from_random_bytes(&all_ff), None);
    let small: [u8; 8] = 7u64.to_le_bytes();
    assert_eq!(Fp::from_random_bytes(&small), Some(Fp(7)));
}

#[test]
fn field_to_bytes_le() {
    let e = Fp(0x0102030405060708);
    assert_eq!(e.to_bytes_le(), vec![8u8, 7, 6, 5, 4, 3, 2, 1]);
}

#[test]
fn params_roundtrip() {
    for params in [
        CRH64::setup().unwrap(),
        TwoToOneCrhScheme64::setup().unwrap(),
    ] {
        let bytes = params.to_bytes();
        let back = MonolithParams::from_bytes(&bytes).unwrap();
        assert_eq!(back.bar_per_round, params.bar_per_round);
        assert_eq!(back.rounds, params.rounds);
        assert_eq!(back.state_size, params.state_size);
        assert_eq!(back.round_constants, params.round_constants);
        assert_eq!(back.to_bytes(), bytes);
    }
}

#[test]
fn params_decode_errors() {
    // Too short for a header.
    let short: Vec<u8> = vec![4, 6, 12];
    assert_eq!(
        MonolithParams::from_bytes(&short).err(),
        Some(MonolithError::ParamDeserializationError)
    );

    // Unsupported width.
    let params = CRH64::setup().unwrap();
    let mut bad_width = params.to_bytes();
    bad_width[2] = 9;
    assert_eq!(
        MonolithParams::from_bytes(&bad_width).err(),
        Some(MonolithError::InvalidWidth)
    );

    // Wrong body length.
    let mut truncated = params.to_bytes();
    truncated.pop();
    assert_eq!(
        MonolithParams::from_bytes(&truncated).err(),
        Some(MonolithError::ParamDeserializationError)
    );

    // A non-canonical field element.
    let mut bad_elem = params.to_bytes();
    let n = bad_elem.len();
    for b in &mut bad_elem[n - 8..] {
        *b = 0xFF;
    }
    assert_eq!(
        MonolithParams::from_bytes(&bad_elem).err(),
        Some(MonolithError::ParamDeserializationError)
    );

    // More S-box lanes than state lanes.
    let mut bad_bar = params.to_bytes();
    bad_bar[0] = 13;
    assert_eq!(
        MonolithParams::from_bytes(&bad_bar).err(),
        Some(MonolithError::ParamDeserializationError)
    );
}

#[test]
fn rejection_sampling_exhaustion() {
    // Every 8-byte word of this stream is 0xFFFF...FF >= p, so nothing is
    // ever accepted and derivation reports the stream as exhausted.
    let all_ff: Vec<u8> = vec![0xFF; 400];
    assert_eq!(
        round_constants_from_bytes(&all_ff, 8).err(),
        Some(MonolithError::XofRead)
    );

    // Every word of the zero stream is canonical, so derivation succeeds
    // with all-zero constants.
    let zeros: Vec<u8> = vec![0; 8 * 40];
    let rc = round_constants_from_bytes(&zeros, 8).unwrap();
    assert_eq!(rc.len(), 6);
    for v in &rc {
        assert_eq!(v, &vec![Fp(0); 8]);
    }
}
