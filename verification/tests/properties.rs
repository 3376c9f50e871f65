use monolith::crh::{TwoToOneCrhScheme64, CRH64};
use monolith::field::{Fp, P};
use monolith::permute::MonolithPermute;
use monolith::sponge::{MonolithSponge, SpongeConfig};
use rand::rngs::StdRng;
use rand::{Rng, SeedableRng};

fn rand_fp(rng: &mut StdRng) -> Fp {
    loop {
        let x: u64 = rng.gen();
        if x < P {
            return Fp(x);
        }
    }
}

fn rand_state(rng: &mut StdRng, t: usize) -> Vec<Fp> {
    let mut v = Vec::new();
    for _ in 0..t {
        v.push(rand_fp(rng));
    }
    v
}

#[test]
fn crh_determinism() {
    let mut rng = StdRng::seed_from_u64(2);
    let params = CRH64::setup().unwrap();
    let input = rand_state(&mut rng, 12);
    let out1 = CRH64::evaluate(&params, &input);
    let out2 = CRH64::evaluate(&params, &input);
    assert_eq!(out1, out2);
}

#[test]
fn param_determinism() {
    let p1 = CRH64::setup().unwrap();
    let p2 = CRH64::setup().unwrap();
    assert_eq!(p1.to_bytes(), p2.to_bytes());
    let q1 = TwoToOneCrhScheme64::setup().unwrap();
    let q2 = TwoToOneCrhScheme64::setup().unwrap();
    assert_eq!(q1.to_bytes(), q2.to_bytes());
    assert_ne!(p1.to_bytes(), q1.to_bytes());
}

#[test]
fn permutation_random_probe() {
    let mut rng = StdRng::seed_from_u64(3);
    let params = CRH64::setup().unwrap();
    for _ in 0..20 {
        let s1 = rand_state(&mut rng, 12);
        let s2 = rand_state(&mut rng, 12);
        if s1 == s2 {
            continue;
        }
        let mut o1 = s1.clone();
        let mut o2 = s2.clone();
        MonolithPermute::permute(&mut o1, &params);
        MonolithPermute::permute(&mut o2, &params);
        assert_ne!(o1, o2);
        assert_ne!(o1, s1);
    }
}

#[test]
fn final_round_constant_zero() {
    let params = CRH64::setup().unwrap();
    assert_eq!(params.rounds, 6);
    assert_eq!(params.round_constants.len(), 6);
    for v in &params.round_constants {
        assert_eq!(v.len(), 12);
    }
    assert_eq!(params.round_constants[5], vec![Fp(0); 12]);
    let params8 = TwoToOneCrhScheme64::setup().unwrap();
    assert_eq!(params8.round_constants[5], vec![Fp(0); 8]);
}

#[test]
fn sponge_streaming() {
    let mut rng = StdRng::seed_from_u64(4);
    let params = CRH64::setup().unwrap();
    let cfg = SpongeConfig::new(8, 4, &params);
    let a = rand_fp(&mut rng);
    let b = rand_fp(&mut rng);
    let c = rand_fp(&mut rng);

    let mut s1 = MonolithSponge::new(&cfg);
    s1.absorb(&vec![a, b]);
    s1.absorb(&vec![c]);
    let out1 = s1.squeeze_field_elements(4);

    let mut s2 = MonolithSponge::new(&cfg);
    s2.absorb(&vec![a, b, c]);
    let out2 = s2.squeeze_field_elements(4);
    assert_eq!(out1, out2);

    // A split that crosses the rate boundary.
    let x = rand_state(&mut rng, 20);
    let mut s3 = MonolithSponge::new(&cfg);
    s3.absorb(&x[..13].to_vec());
    s3.absorb(&x[13..].to_vec());
    let out3 = s3.squeeze_field_elements(4);

    let mut s4 = MonolithSponge::new(&cfg);
    s4.absorb(&x);
    let out4 = s4.squeeze_field_elements(4);
    assert_eq!(out3, out4);
}

#[test]
fn sbox_equivalence() {
    let mut rng = StdRng::seed_from_u64(5);
    for _ in 0..100 {
        let x = rand_fp(&mut rng);
        assert_eq!(MonolithPermute::bar(x), CRH64::bar(x));
    }
    assert_eq!(MonolithPermute::bar(Fp(0)), CRH64::bar(Fp(0)));
}

#[test]
fn sbox_bit_parallel_reference() {
    let x = Fp(0x0123456789ABCDEF);
    let parallel = MonolithPermute::bar(x);
    let bytewise = CRH64::bar(x);
    assert_eq!(parallel, bytewise);
    // Rebuild the bytewise result from the single-byte S-box directly.
    let mut expect: u64 = 0;
    for i in 0..8 {
        let byte = ((x.0 >> (8 * i)) & 0xff) as u8;
        expect |= (CRH64::s(byte) as u64) << (8 * i);
    }
    assert_eq!(parallel, Fp(expect));
}

#[test]
fn sbox_single_byte() {
    assert_eq!(CRH64::s(0x00), 0x00);
    assert_eq!(CRH64::s(0xFF), 0xFF);
}

#[test]
fn mds_equivalence() {
    let mut rng = StdRng::seed_from_u64(6);
    let params12 = CRH64::setup().unwrap();
    let params8 = TwoToOneCrhScheme64::setup().unwrap();
    for _ in 0..20 {
        for t in [8usize, 12] {
            let s = rand_state(&mut rng, t);
            let mut direct = s.clone();
            let mut staged = s.clone();
            MonolithPermute::concrete(&mut direct);
            MonolithPermute::concrete_u128(&mut staged);
            assert_eq!(direct, staged);

            let params = if t == 8 { &params8 } else { &params12 };
            let rc = &params.round_constants[1];
            let mut direct_rc = s.clone();
            let mut staged_rc = s.clone();
            MonolithPermute::concrete_wrc(&mut direct_rc, rc);
            MonolithPermute::concrete_wrc_u128(&mut staged_rc, rc);
            assert_eq!(direct_rc, staged_rc);
        }
    }
}

#[test]
fn mds_width12_first_column() {
    let mut s = vec![Fp(0); 12];
    s[0] = Fp(1);
    MonolithPermute::concrete(&mut s);
    let column = [7u64, 8, 21, 22, 6, 7, 9, 10, 13, 26, 8, 23];
    let expect: Vec<Fp> = column.iter().map(|&c| Fp(c)).collect();
    assert_eq!(s, expect);
}

#[test]
fn two_to_one_feed_forward() {
    let params = TwoToOneCrhScheme64::setup().unwrap();
    let left = vec![Fp(1), Fp(2), Fp(3), Fp(4)];
    let right = vec![Fp(5), Fp(6), Fp(7), Fp(8)];
    let out = TwoToOneCrhScheme64::compress(&params, &left, &right);
    let mut buf = vec![Fp(1), Fp(2), Fp(3), Fp(4), Fp(5), Fp(6), Fp(7), Fp(8)];
    MonolithPermute::permute(&mut buf, &params);
    for i in 0..4 {
        assert_eq!(out[i], buf[i].add(left[i]));
    }
    assert_eq!(out[0], buf[0].add(Fp(1)));
    let via_evaluate = TwoToOneCrhScheme64::evaluate(&params, &left, &right);
    assert_eq!(out, via_evaluate);
}

#[test]
fn crh_reference_digest() {
    let params = CRH64::setup().unwrap();
    let input = vec![Fp(1); 12];
    let out = CRH64::evaluate(&params, &input);
    let expect = vec![
        Fp(17287570329432951194),
        Fp(10268329961008814948),
        Fp(12647898705733397268),
        Fp(6543287803792663985),
    ];
    assert_eq!(out, expect);
}

#[test]
fn first_round_constant_locked() {
    // Pins the XOF derivation: were the stream anything but SHAKE128 of
    // the domain tag, this constant would differ.
    let params = CRH64::setup().unwrap();
    assert_eq!(params.round_constants[0][0], Fp(13596126580325903823));
    assert_ne!(params.round_constants[0], params.round_constants[1]);
}

#[test]
fn truncated_matches_first_lane() {
    let mut rng = StdRng::seed_from_u64(7);
    let params = CRH64::setup().unwrap();
    let input = rand_state(&mut rng, 5);
    let digest = CRH64::evaluate(&params, &input);
    let single = CRH64::evaluate_truncated(&params, &input);
    assert_eq!(single, digest[0]);
}

#[test]
fn squeeze_bytes_and_bits() {
    let mut rng = StdRng::seed_from_u64(8);
    let params = CRH64::setup().unwrap();
    let cfg = SpongeConfig::new(8, 4, &params);
    let input = rand_state(&mut rng, 3);

    let mut s1 = MonolithSponge::new(&cfg);
    s1.absorb(&input);
    let bytes = s1.squeeze_bytes(20);
    assert_eq!(bytes.len(), 20);

    let mut s2 = MonolithSponge::new(&cfg);
    s2.absorb(&input);
    let elems = s2.squeeze_field_elements(3);
    let mut expect: Vec<u8> = Vec::new();
    for e in &elems {
        expect.extend_from_slice(&e.to_bytes_le()[..7]);
    }
    expect.truncate(20);
    assert_eq!(bytes, expect);

    let mut s3 = MonolithSponge::new(&cfg);
    s3.absorb(&input);
    let bits = s3.squeeze_bits(70);
    assert_eq!(bits.len(), 70);
    let mut expect_bits: Vec<bool> = Vec::new();
    for e in &elems {
        for i in 0..63u64 {
            expect_bits.push((e.0 >> i) & 1 == 1);
        }
    }
    expect_bits.truncate(70);
    assert_eq!(bits, expect_bits);
}

#[test]
fn sponge_state_roundtrip() {
    let mut rng = StdRng::seed_from_u64(9);
    let params = CRH64::setup().unwrap();
    let cfg = SpongeConfig::new(8, 4, &params);
    let input = rand_state(&mut rng, 10);

    let mut s1 = MonolithSponge::new(&cfg);
    s1.absorb(&input);
    let saved = s1.into_state();
    let mut s2 = MonolithSponge::from_state(saved, &cfg);
    let out2 = s2.squeeze_field_elements(4);

    let mut s3 = MonolithSponge::new(&cfg);
    s3.absorb(&input);
    let out3 = s3.squeeze_field_elements(4);
    assert_eq!(out2, out3);
}
