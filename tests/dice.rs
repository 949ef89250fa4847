use dices_rs::dice::{is_valid, open_draws, Dice, DiceSet, Rollable, MAX_OPEN_DRAWS};
use dices_rs::result::Res;

#[test]
fn dice_test_constant_new() {
    let f = Dice::Constant(6);

    assert_eq!(6, f.size());
}

#[test]
fn dice_test_constant_roll() {
    let d = Dice::Constant(6);
    let mut r1 = Res::new();
    r1.sum = 6;

    let mut r = d.roll();

    println!("{:?}", r);
    assert_eq!(r.sum, r1.sum);
    assert_eq!(0, r1.list.len());
    assert_eq!(1, r.list.len());
    assert_eq!(vec![6], r.list);

    let r = r.merge(&mut d.roll());

    assert_eq!(2, r.list.len());
    assert_eq!(vec![6, 6], r.list);
}

#[test]
fn dice_test_reg_new() {
    let a = Dice::Regular(4);

    assert_eq!(4, a.size())
}

#[test]
fn dice_test_reg_roll() {
    let d = Dice::Regular(6);
    let r = Res::new();

    assert_eq!(0, r.list.len());
    assert_eq!(0, r.sum);

    let r = d.roll();

    assert_eq!(1, r.list.len());
    assert_ne!(0, r.sum);
    assert!(r.sum <= 6)
}

#[test]
fn dice_test_open_new() {
    let d = Dice::Open(6);

    assert_eq!(6, d.size());
}

#[test]
fn dice_test_open_roll() {
    let d = Dice::Regular(6);
    let r = Res::new();

    assert_eq!(0, r.list.len());
    assert_eq!(0, r.sum);

    let mut r = d.roll();

    assert_eq!(1, r.list.len());
    assert_ne!(0, r.sum);
    assert!(r.sum <= 6);

    let r = r.merge(&mut d.roll());

    assert_eq!(2, r.list.len());
    println!("{:#?}", r);
    assert!(r.sum >= 2 && r.sum <= 12)
}

#[test]
fn dice_test_dice_const() {
    let die = Dice::Constant(4);

    let r = die.roll();

    println!("{:#?}", r);

    assert_eq!(4, r.sum);
    assert_eq!(4, die.size());
    assert_eq!(0, r.bonus);
}

#[test]
fn dice_test_dices() {
    let d1 = Dice::Regular(10);
    let d2 = Dice::Regular(10);
    let d3 = Dice::Bonus(2);

    let v = DiceSet::from_vec(vec![d1, d2, d3]);

    println!("{:#?}", v);

    let r = v.roll();
    println!("{:#?}", r);
    // The bonus is kept apart from the sum of the dice.
    assert!(r.sum + r.bonus >= 4 && r.sum + r.bonus <= 22);
    assert_eq!(2, r.list.len());
    assert_eq!(2, r.bonus);
}

#[test]
fn dice_test_dices_roll() {
    let rf = DiceSet::from_vec(vec![
        Dice::Regular(6),
        Dice::Regular(6),
        Dice::Regular(6),
        Dice::Bonus(1),
    ]);

    let r = rf.roll();

    assert_eq!(1, r.bonus);
    assert_eq!(3, r.list.len())
}

#[test]
fn test_is_valid() {
    for i in [4, 6, 8, 10, 12, 20, 100] {
        is_valid(i).unwrap();
    }
}

#[test]
fn is_valid_rejects_odd_sizes() {
    assert!(is_valid(7).is_err());
    assert!(is_valid(0).is_err());
}

#[test]
fn test_dices_parse() {
    let str = "3D6 +1";

    let ds = match DiceSet::parse(str) {
        Ok(ds) => ds,
        Err(e) => panic!("Unparsable {:?}", e),
    };

    let rf = DiceSet::from_vec(vec![Dice::Regular(6), Dice::Regular(6), Dice::Regular(6), Dice::Bonus(1)]);

    println!("{:#?}", ds);
    assert_eq!(rf, ds);
}

#[test]
fn test_dices_parse1() {
    let str = "D6 -1";

    let ds = match DiceSet::parse(str) {
        Ok(ds) => ds,
        Err(e) => panic!("Unparsable {:?}", e),
    };

    let rf = DiceSet::from_vec(vec![Dice::Regular(6), Dice::Bonus(-1)]);

    println!("{:#?}", ds);
    assert_eq!(rf, ds);
}

#[test]
fn mod_test_constant_new() {
    let f = Dice::Constant(6);

    assert_eq!(6, f.size());
}

#[test]
fn mod_test_constant_roll() {
    let d = Dice::Constant(6);

    let mut r1 = Res::new();
    r1.sum = 6;

    let r = d.roll();

    assert_eq!(r.sum, r1.sum);
    assert_eq!(0, r1.list.len());
    assert_eq!(1, r.list.len());
    assert_eq!(vec![6], r.list);
}

#[test]
fn mod_test_reg_new() {
    let a = Dice::Regular(4);

    assert_eq!(4, a.size())
}

#[test]
fn mod_test_reg_roll() {
    let d = Dice::Regular(6);

    let r = d.roll();

    assert_eq!(1, r.list.len());
    assert_ne!(0, r.sum);
    assert!(r.sum <= 6)
}

#[test]
fn mod_test_open_new() {
    let d = Dice::Open(6);

    assert_eq!(6, d.size());
}

#[test]
fn mod_test_open_roll() {
    let d = Dice::Open(6);

    let r = d.roll();

    match r.list.len() {
        1 => {
            assert_eq!(1, r.list.len());
            assert_ne!(0, r.sum);
            assert!(r.sum <= 6);
        }
        _ => {
            let l = r.list.len();
            assert!(l > 1);
            assert!((r.sum as usize) < l * d.size());
        }
    }
}

#[test]
fn mod_test_dice_const() {
    let d = Dice::Constant(4);

    let r = d.roll();

    assert_eq!(4, r.sum);
    assert_eq!(0, r.bonus);
}

#[test]
fn mod_test_dices() {
    let d1 = Dice::Regular(10);
    let d2 = Dice::Regular(10);
    let d3 = Dice::Bonus(2);

    let v = DiceSet::from_vec(vec![d1, d2, d3]);

    let r = v.roll();

    // The bonus is kept apart from the sum of the dice.
    assert!(r.sum + r.bonus >= 4 && r.sum + r.bonus <= 22);
    assert_eq!(2, r.list.len());
    assert_eq!(2, r.bonus);
}

#[test]
fn mod_test_dices_roll() {
    let rf = DiceSet::from_vec(vec![
        Dice::Regular(6),
        Dice::Regular(6),
        Dice::Regular(6),
        Dice::Bonus(1),
    ]);

    let r = rf.roll();

    assert_eq!(1, r.bonus);
    assert_eq!(3, r.list.len())
}

#[test]
fn size_of_each_kind() {
    assert_eq!(6, Dice::Regular(6).size());
    assert_eq!(8, Dice::Constant(8).size());
    assert_eq!(12, Dice::Open(12).size());
    assert_eq!(0, Dice::Bonus(-1).size());
}

#[test]
fn regular_roll_flags_fumble_and_natural() {
    for _ in 0..200 {
        let r = Dice::Regular(6).roll();
        if r.list[0] == 1 {
            assert_eq!(dices_rs::result::Special::Fumble, r.flag);
            assert!(!r.natural());
        } else {
            assert_eq!(dices_rs::result::Special::Natural, r.flag);
            assert!(r.natural());
        }
    }
}

#[test]
fn bonus_alone_touches_only_the_bonus() {
    let r = Dice::Bonus(-3).roll();
    assert!(r.list.is_empty());
    assert_eq!(0, r.sum);
    assert_eq!(-3, r.bonus);
}

#[test]
fn constant_in_a_set_counts_without_a_draw() {
    let ds = DiceSet::from_vec(vec![Dice::Constant(5), Dice::Regular(4)]);
    let r = ds.roll();
    assert_eq!(1, r.list.len());
    assert_eq!(5 + r.list[0] as isize, r.sum);
    assert_eq!(dices_rs::result::Special::Plain, r.flag);
}

#[test]
fn open_die_explodes_only_on_its_largest_face() {
    for _ in 0..500 {
        let r = Dice::Open(3).roll();
        let l = r.list.len();
        assert!(l >= 1);
        for x in &r.list[..l - 1] {
            assert_eq!(3, *x);
        }
        assert!(r.list[l - 1] < 3);
        assert_eq!(r.list.iter().sum::<usize>() as isize, r.sum);
    }
}

#[test]
fn open_draws_end_below_the_size() {
    let (v, total) = open_draws(2);
    assert!(!v.is_empty() && v.len() <= MAX_OPEN_DRAWS);
    assert!(*v.last().unwrap() < 2);
    assert_eq!(v.iter().sum::<usize>() as isize, total);
}

#[test]
fn rollable_sets() {
    assert!(DiceSet::from_vec(vec![Dice::Regular(6), Dice::Bonus(2)]).is_rollable());
    assert!(!DiceSet::from_vec(vec![Dice::Regular(0)]).is_rollable());
    assert!(!DiceSet::from_vec(vec![Dice::Open(1)]).is_rollable());
    assert!(!DiceSet::from_vec(vec![Dice::Bonus(isize::MIN)]).is_rollable());
    assert!(!DiceSet::from_vec(vec![Dice::Constant(usize::MAX)]).is_rollable());
}

#[test]
fn add_appends_terms() {
    let mut ds = DiceSet::from_vec(vec![]);
    ds.add(Dice::Regular(4)).add(Dice::Bonus(1));
    assert_eq!(DiceSet::from_vec(vec![Dice::Regular(4), Dice::Bonus(1)]), ds);
    assert_eq!(2, ds.len());
    assert_eq!(Dice::Bonus(1), ds.get(1));
}

#[test]
fn regular_d6_is_uniform() {
    let mut counts = [0usize; 6];
    for _ in 0..10_000 {
        let r = Dice::Regular(6).roll();
        counts[r.list[0] - 1] += 1;
    }
    for c in counts {
        let freq = c as f64 / 10_000.0;
        assert!((freq - 1.0 / 6.0).abs() < 0.03, "{:?}", counts);
    }
}

#[test]
fn any_bonus_rolls_alone() {
    let r = Dice::Bonus(isize::MIN).roll();
    assert!(r.list.is_empty());
    assert_eq!(0, r.sum);
    assert_eq!(isize::MIN, r.bonus);
}
