use dices_rs::random::{face_from_draws, internal_roll, rng_roll};

#[test]
fn internal_test_internal_roll() {
    for _i in 0..10 {
        let r = internal_roll(6);

        assert!(r >= 1 && r <= 6)
    }
}

#[test]
fn test_rng_roll() {
    for _i in 0..10 {
        let r = rng_roll(6);

        assert!(r >= 1 && r <= 6)
    }
}

#[test]
fn draws_are_not_the_size_alone() {
    let mut seen_other = false;
    for _ in 0..200 {
        if rng_roll(6) != 6 {
            seen_other = true;
        }
    }
    assert!(seen_other);
    let mut seen_other = false;
    for _ in 0..200 {
        if internal_roll(6) != 6 {
            seen_other = true;
        }
    }
    assert!(seen_other);
}

#[test]
fn single_face() {
    assert_eq!(1, rng_roll(1));
    assert_eq!(1, internal_roll(1));
}

#[test]
fn internal_roll_is_uniform() {
    let mut counts = [0usize; 6];
    for _ in 0..10_000 {
        counts[internal_roll(6) - 1] += 1;
    }
    for c in counts {
        let freq = c as f64 / 10_000.0;
        assert!((freq - 1.0 / 6.0).abs() < 0.03, "{:?}", counts);
    }
}

#[test]
fn face_is_the_first_kept() {
    assert_eq!(1, face_from_draws(&vec![true]));
    assert_eq!(3, face_from_draws(&vec![false, false, true]));
    assert_eq!(2, face_from_draws(&vec![false, true, false, true]));
}
