use dices_rs::dice::{Dice, DiceSet, Rollable};
use dices_rs::parse::{parse_open_bonus, parse_with_bonus, ParseError};

fn regular(n: usize, size: usize) -> Vec<Dice> {
    (0..n).map(|_| Dice::Regular(size)).collect()
}

#[test]
fn count_gives_that_many_dice() {
    for n in 1..=99usize {
        let ds = DiceSet::parse(&format!("{}D8", n)).unwrap();
        assert_eq!(DiceSet::from_vec(regular(n, 8)), ds);
    }
    assert_eq!(DiceSet::from_vec(regular(12, 20)), DiceSet::parse("12D20").unwrap());
}

#[test]
fn omitted_count_is_one() {
    assert_eq!(DiceSet::parse("1D6"), DiceSet::parse("D6"));
    assert_eq!(DiceSet::from_vec(vec![Dice::Regular(6)]), DiceSet::parse("D6").unwrap());
}

#[test]
fn net_zero_bonus_leaves_no_term() {
    assert_eq!(DiceSet::from_vec(vec![Dice::Regular(6)]), DiceSet::parse("D6 +1 +2 -3").unwrap());
}

#[test]
fn three_d6_plus_one() {
    let ds = DiceSet::parse("3D6 +1").unwrap();
    assert_eq!(
        DiceSet::from_vec(vec![Dice::Regular(6), Dice::Regular(6), Dice::Regular(6), Dice::Bonus(1)]),
        ds
    );
    for _ in 0..100 {
        let r = ds.roll();
        assert_eq!(3, r.list.len());
        assert!(r.sum >= 3 && r.sum <= 18);
        assert_eq!(1, r.bonus);
    }
}

#[test]
fn d100() {
    assert_eq!(DiceSet::from_vec(vec![Dice::Regular(100)]), DiceSet::parse("D100").unwrap());
}

#[test]
fn bonus_terms_are_summed() {
    assert_eq!(
        DiceSet::from_vec(vec![Dice::Regular(6), Dice::Bonus(3)]),
        parse_with_bonus("D6 +2 +1").unwrap()
    );
    assert_eq!(
        DiceSet::from_vec(vec![Dice::Regular(6), Dice::Bonus(11)]),
        parse_with_bonus("D6 +1 +2 +3 -2 +7").unwrap()
    );
    assert_eq!(
        DiceSet::from_vec(vec![Dice::Regular(4), Dice::Bonus(1)]),
        parse_with_bonus("d4+1").unwrap()
    );
    assert_eq!(
        DiceSet::from_vec(vec![Dice::Regular(8), Dice::Bonus(-1)]),
        parse_with_bonus("D8 -1").unwrap()
    );
    assert_eq!(
        DiceSet::from_vec(vec![Dice::Regular(6), Dice::Regular(6), Dice::Regular(6), Dice::Bonus(-2)]),
        parse_with_bonus("3D6 -2").unwrap()
    );
}

#[test]
fn blanks_around_the_notation() {
    assert_eq!(
        DiceSet::from_vec(vec![Dice::Regular(6), Dice::Regular(6)]),
        parse_with_bonus("  2d6 \t").unwrap()
    );
}

#[test]
fn zero_count_gives_no_dice() {
    assert_eq!(DiceSet::from_vec(vec![]), parse_with_bonus("0D6").unwrap());
}

#[test]
fn malformed_notation_is_rejected() {
    for bad in ["", "D", "3X6", "6", "D6 +", "D6 x", "D6 =2", "D6 + 1", "D-6", "256D6", "D4294967296",
        "D6 +4294967296", "3D6 +1 trailing"]
    {
        assert_eq!(Err(ParseError), parse_with_bonus(bad), "{:?}", bad);
    }
    assert_eq!(Ok(DiceSet::from_vec(regular(255, 6))), parse_with_bonus("255D6"));
    assert_eq!(Ok(DiceSet::from_vec(vec![Dice::Regular(4294967295)])), parse_with_bonus("D4294967295"));
}

#[test]
fn open_notation() {
    assert_eq!(DiceSet::from_vec(vec![Dice::Open(6)]), parse_open_bonus("d6").unwrap());
    assert_eq!(DiceSet::from_vec(vec![Dice::Open(6), Dice::Bonus(1)]), parse_open_bonus("d6 +1").unwrap());
    assert_eq!(DiceSet::from_vec(vec![Dice::Open(4), Dice::Bonus(-2)]), parse_open_bonus("D4 -2").unwrap());
    assert_eq!(Err(ParseError), parse_open_bonus("3D6"));
    assert_eq!(Err(ParseError), parse_open_bonus("open"));
}
