use dcfr::game::{Infoset, Player};
use dcfr::numeric::{
    is_negative, is_positive, negated, positive_part, zero_vector, HALF, INFINITY, MINUS_HALF,
    MINUS_ONE, ONE, SIGN, ZERO,
};

#[test]
fn players_oppose_each_other() {
    assert_eq!(Player::P1.other(), Player::P2);
    assert_eq!(Player::P2.other(), Player::P1);
    assert_eq!(Player::P1.other().other(), Player::P1);
    assert_eq!(Player::P1.index(), 0);
    assert_eq!(Player::P2.index(), 1);
    assert_eq!(Player::P1.label(), "P1");
    assert_eq!(Player::P2.label(), "P2");
}

#[test]
fn lenses_pick_the_players_member() {
    let pair = (10, 20);
    assert_eq!(*Player::P1.lens(&pair), 10);
    assert_eq!(*Player::P2.lens(&pair), 20);
    let mut pair = (String::from("a"), String::from("b"));
    Player::P2.lens_mut(&mut pair).push('!');
    *Player::P1.lens_mut(&mut pair) = String::from("c");
    assert_eq!(pair, (String::from("c"), String::from("b!")));
}

#[test]
fn constants_are_the_patterns_of_their_numbers() {
    assert_eq!(f32::from_bits(ZERO), 0.0);
    assert!(f32::from_bits(ZERO).is_sign_positive());
    assert_eq!(f32::from_bits(HALF), 0.5);
    assert_eq!(f32::from_bits(ONE), 1.0);
    assert_eq!(f32::from_bits(MINUS_HALF), -0.5);
    assert_eq!(f32::from_bits(MINUS_ONE), -1.0);
    assert_eq!(f32::from_bits(INFINITY), f32::INFINITY);
    assert_eq!(SIGN, (-0.0f32).to_bits());
}

#[test]
fn sign_tests_agree_with_the_numbers() {
    let samples = [
        0.0f32,
        -0.0,
        1.0,
        -1.0,
        f32::MIN_POSITIVE,
        -f32::MIN_POSITIVE,
        1e-45,
        -1e-45,
        f32::MAX,
        f32::MIN,
        f32::INFINITY,
        f32::NEG_INFINITY,
        f32::NAN,
        -f32::NAN,
        3.25,
        -7.5,
    ];
    for x in samples {
        let b = x.to_bits();
        assert_eq!(is_positive(b), x > 0.0, "{}", x);
        assert_eq!(is_negative(b), x < 0.0, "{}", x);
        assert_eq!(negated(b), (-x).to_bits(), "{}", x);
        assert_eq!(negated(negated(b)), b);
        let clamped = if x > 0.0 { x } else { 0.0 };
        assert_eq!(positive_part(b), clamped.to_bits(), "{}", x);
    }
}

#[test]
fn zero_vectors_hold_zeros() {
    assert_eq!(zero_vector(0), Vec::<u32>::new());
    assert_eq!(zero_vector(3), vec![0.0f32.to_bits(); 3]);
}

#[test]
fn infosets_hash_their_words() {
    let a = Infoset::new(vec![1, 2, 3]);
    let b = Infoset::new(vec![1, 2, 3]);
    let c = Infoset::new(vec![1, 2]);
    let d = Infoset::new(vec![3, 2, 1]);
    let e = Infoset::new(vec![]);
    assert_eq!(a.infoset, vec![1, 2, 3]);
    assert_eq!(a.hash, b.hash);
    assert_ne!(a.hash, c.hash);
    assert_ne!(a.hash, d.hash);
    assert_ne!(c.hash, e.hash);
    assert_ne!(Infoset::new(vec![0]).hash, e.hash);
}
