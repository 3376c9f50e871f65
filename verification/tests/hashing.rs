use monolith::crh::{TwoToOneCrhScheme64, CRH64};
use monolith::field::{Fp, P};
use rand::rngs::StdRng;
use rand::{Rng, SeedableRng};
use std::time::Instant;

fn rand_fp(rng: &mut StdRng) -> Fp {
    loop {
        let x: u64 = rng.gen();
        if x < P {
            return Fp(x);
        }
    }
}

#[test]
pub fn hash() {
    let input = vec![
        Fp(1),
        Fp(1),
        Fp(1),
        Fp(1),
        Fp(1),
        Fp(1),
        Fp(1),
        Fp(1),
        Fp(1),
        Fp(1),
        Fp(1),
        Fp(1),
    ];
    let params = CRH64::setup().unwrap();
    let out = CRH64::evaluate(&params, &input);
    println!("inp: {:?}", input);
    println!("out: {:?}", out)
}

#[test]
pub fn crh_mono_hash() {
    let mut rng = StdRng::seed_from_u64(0);
    let mut input: Vec<Fp> = Vec::new();
    for _ in 0..12 {
        input.push(rand_fp(&mut rng));
    }
    let now = Instant::now();
    let params = CRH64::setup().unwrap();
    let out = CRH64::evaluate(&params, &input);
    let elapsed = now.elapsed();
    println!("inp: {:?}", input);
    println!("out: {:?}", out);
    println!("Elapsed: {:.2?}", elapsed);
}

#[test]
pub fn two_to_one_mono_hash() {
    let mut rng = StdRng::seed_from_u64(1);
    let mut left_input: Vec<Fp> = Vec::new();
    let mut right_input: Vec<Fp> = Vec::new();
    for _ in 0..4 {
        left_input.push(rand_fp(&mut rng));
        right_input.push(rand_fp(&mut rng));
    }
    println!("inp: {:?},{:?}", left_input, right_input);

    let params = TwoToOneCrhScheme64::setup().unwrap();
    let now = Instant::now();
    let out = TwoToOneCrhScheme64::evaluate(&params, &left_input, &right_input);
    let elapsed = now.elapsed();
    println!("out: {:?}", out);
    println!("Elapsed: {:.2?}", elapsed);
}
