use kalah::random::Rng;

#[test]
fn generator_draws_the_numbers_of_its_seed() {
    let mut rng = Rng::new(0);
    assert_eq!(rng.gen_u64(), 1454121425012434822);
    assert_eq!(rng.gen_u64(), 1060667887419232322);
    assert_eq!(rng.gen_u64(), 9308986122101090684);

    let mut rng = Rng::new(1);
    assert_eq!(rng.gen_u64(), 17925598777506749664);
    assert_eq!(rng.gen_u64(), 7585103483612287758);
    assert_eq!(rng.gen_u64(), 11728924528140059023);

    let mut rng = Rng::new(42);
    assert_eq!(rng.gen_u64(), 2235175048639730301);
    assert_eq!(rng.gen_u64(), 6425562075534813739);
    assert_eq!(rng.gen_u64(), 3657314841840734556);
}

#[test]
fn gen_u32_keeps_the_low_bits() {
    let mut rng = Rng::new(42);
    assert_eq!(rng.gen_u32(), 1090310781);
    assert_eq!(rng.gen_u32(), 3799607851);
    assert_eq!(rng.gen_u32(), 2880328028);
}

#[test]
fn equal_seeds_give_equal_generators() {
    let mut a = Rng::new(123456789);
    let mut b = Rng::new(123456789);
    for _ in 0..100 {
        assert_eq!(a.gen_u64(), b.gen_u64());
    }
    let mut c = Rng::new(u64::MAX);
    let first = c.gen_u64();
    assert_ne!(first, c.gen_u64());
}
