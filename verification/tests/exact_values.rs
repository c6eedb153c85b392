use montyhall::exact::exact_probabilities;
use montyhall::rational::Rational;

#[test]
fn classical_probabilities_are_one_third_and_two_thirds() {
    let (stay, switch) = exact_probabilities(3, 1);
    assert_eq!((stay.num(), stay.den()), (1, 3));
    assert_eq!((switch.num(), switch.den()), (2, 3));
}

#[test]
fn five_doors_one_opened_gives_one_fifth_and_four_fifteenths() {
    let (stay, switch) = exact_probabilities(5, 1);
    assert_eq!((stay.num(), stay.den()), (1, 5));
    assert!(switch.value_eq(&Rational::new(4, 15)));
    assert_eq!((switch.num(), switch.den()), (4, 15));
}

#[test]
fn ten_doors_five_opened_gives_one_tenth_and_nine_fortieths() {
    let (stay, switch) = exact_probabilities(10, 5);
    assert_eq!((stay.num(), stay.den()), (1, 10));
    assert!(switch.value_eq(&Rational::new(9, 40)));
    assert_eq!((switch.num(), switch.den()), (9, 40));
}

#[test]
fn repeated_calls_yield_identical_rationals() {
    let first = exact_probabilities(7, 2);
    let second = exact_probabilities(7, 2);
    assert_eq!(first, second);
    let third = exact_probabilities(7, 2);
    assert_eq!(second, third);
}

#[test]
fn switching_gains_nothing_when_no_door_is_opened() {
    // the closed form degenerates to the stay probability
    let (stay, switch) = exact_probabilities(5, 0);
    assert_eq!((stay.num(), stay.den()), (1, 5));
    assert_eq!((switch.num(), switch.den()), (1, 5));
    assert!(switch.value_eq(&stay));
}

#[test]
fn switch_probability_comes_in_lowest_terms() {
    // ten doors, three opened: 9 / 60 reduced to 3 / 20
    let (stay, switch) = exact_probabilities(10, 3);
    assert_eq!((stay.num(), stay.den()), (1, 10));
    assert_eq!((switch.num(), switch.den()), (3, 20));
    assert!(switch.value_eq(&Rational::new(9, 60)));
}

#[test]
fn reduction_divides_out_the_greatest_common_divisor() {
    let r = Rational::new(84, 36).reduced();
    assert_eq!((r.num(), r.den()), (7, 3));
    let r = Rational::new(0, 9).reduced();
    assert_eq!((r.num(), r.den()), (0, 1));
    let r = Rational::new(5, 7).reduced();
    assert_eq!((r.num(), r.den()), (5, 7));
}

#[test]
fn value_equality_is_cross_multiplication() {
    assert!(Rational::new(2, 3).value_eq(&Rational::new(4, 6)));
    assert!(Rational::new(0, 5).value_eq(&Rational::new(0, 9)));
    assert!(!Rational::new(1, 3).value_eq(&Rational::new(2, 3)));
    assert!(!Rational::new(1, 2).value_eq(&Rational::new(2, 3)));
}

#[test]
fn products_multiply_componentwise() {
    let r = Rational::new(2, 3).mul(&Rational::new(3, 4));
    assert_eq!((r.num(), r.den()), (6, 12));
    assert!(r.value_eq(&Rational::new(1, 2)));
}
