use valgen::Generator;
use valgen::RandomFlags;
use valgen::UniformCollection;
use valgen::PROB_ONE;

const A: u64 = 1;
const B: u64 = 2;
const C: u64 = 4;
const D: u64 = 8;

fn universe() -> Vec<u64> {
    vec![A, B, C, D]
}

#[test]
fn flags_prob_one_contains_every_flag() {
    let mut g = RandomFlags::new(universe(), PROB_ONE as i64);
    for _ in 0..100 {
        let v = g.generate();
        assert_eq!(v & A, A);
        assert_eq!(v & B, B);
        assert_eq!(v & C, C);
        assert_eq!(v & D, D);
        assert_eq!(v, A | B | C | D);
    }
}

#[test]
fn flags_prob_zero_yields_only_inclusions() {
    let mut g = RandomFlags::new(universe(), 0);
    g.include_flags(D);
    for _ in 0..100 {
        assert_eq!(g.generate(), D);
    }
}

#[test]
fn flags_constraint_forces_implied_flag() {
    let mut g = RandomFlags::new(universe(), (PROB_ONE / 2) as i64);
    g.constraint(A, D);
    for _ in 0..1000 {
        let v = g.generate();
        if v & A == A {
            assert_eq!(v & D, D);
        }
    }
}

#[test]
fn flags_later_constraint_sees_earlier_additions() {
    // A forces B and B forces C, registered in that order, so drawing A
    // alone yields all three within one pass.
    let mut g = RandomFlags::new(universe(), PROB_ONE as i64);
    g.constraint(A, B);
    g.constraint(B, C);
    for _ in 0..100 {
        let v = g.generate();
        assert_eq!(v & (A | B | C), A | B | C);
    }
}

#[test]
fn flags_inclusion_wins_over_exclusion() {
    let mut g = RandomFlags::new(universe(), 0);
    g.include_flags(B);
    g.exclude(B);
    for _ in 0..100 {
        let v = g.generate();
        assert_eq!(v & B, B);
    }
}

#[test]
fn flags_exclusion_clears_drawn_flags() {
    let mut g = RandomFlags::new(universe(), PROB_ONE as i64);
    g.exclude(C);
    for _ in 0..100 {
        assert_eq!(g.generate(), A | B | D);
    }
}

#[test]
fn flags_prob_zero_with_disjoint_masks_yields_exactly_inclusion() {
    let mut g = RandomFlags::new(universe(), 0);
    g.exclude(A);
    g.include_flags(B | C);
    for _ in 0..100 {
        assert_eq!(g.generate(), B | C);
    }
}

#[test]
fn flags_set_prob_clamps() {
    let mut g = RandomFlags::new(universe(), (PROB_ONE / 2) as i64);
    g.set_prob(-3);
    assert_eq!(g.prob, 0);
    for _ in 0..100 {
        assert_eq!(g.generate(), 0);
    }
    g.set_prob(10 * PROB_ONE as i64);
    assert_eq!(g.prob, PROB_ONE);
    for _ in 0..100 {
        assert_eq!(g.generate(), A | B | C | D);
    }
}

#[test]
fn flags_masks_accumulate() {
    let mut g = RandomFlags::new(universe(), 0);
    g.include_flags(A);
    g.include_flags(C);
    assert_eq!(g.inclusion, A | C);
    g.exclude(B);
    g.exclude(D);
    assert_eq!(g.exclusion, B | D);
    for _ in 0..100 {
        assert_eq!(g.generate(), A | C);
    }
}

#[test]
fn end_to_end_consumed_value_is_never_generated() {
    let mut g = UniformCollection::new(vec![1, 2, 3]);
    g.consume(2);
    assert_eq!(g.values, vec![1, 3]);
    for _ in 0..1000 {
        let x = g.generate();
        assert!(x == 1 || x == 3);
        assert_ne!(x, 2);
    }
}
