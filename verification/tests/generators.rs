use valgen::Constant;
use valgen::DefaultOr;
use valgen::Generator;
use valgen::RandomSwitch;
use valgen::SwitchConstant;
use valgen::UniformCollection;
use valgen::UniformRange;
use valgen::PROB_ONE;

#[test]
fn constant_always_returns_value() {
    let mut c = Constant::new(7i64);
    let mut other = UniformRange::new(0, 100);
    for _ in 0..100 {
        assert_eq!(c.generate(), 7);
        // Drawing from another generator does not disturb this one.
        other.generate();
    }
}

#[test]
fn constant_set_replaces_value() {
    let mut c = Constant::new(7i64);
    assert_eq!(c.generate(), 7);
    c.set(9);
    for _ in 0..10 {
        assert_eq!(c.generate(), 9);
    }
}

#[test]
fn default_or_on_failing_inner_yields_default() {
    // An empty range fails deterministically.
    let mut d = DefaultOr::new(5i64, UniformRange::new(3, 3));
    for _ in 0..100 {
        assert_eq!(d.try_generate(), Some(5));
    }
}

#[test]
fn default_or_on_succeeding_inner_yields_inner_value() {
    let mut d = DefaultOr::new(5i64, Constant::new(8i64));
    for _ in 0..100 {
        assert_eq!(d.try_generate(), Some(8));
    }
}

#[test]
fn default_or_set_default_applies_to_later_calls() {
    let mut d = DefaultOr::new(5i64, UniformRange::new(9, 2));
    assert_eq!(d.try_generate(), Some(5));
    d.set_default(11);
    assert_eq!(d.try_generate(), Some(11));
}

#[test]
fn uniform_range_samples_within_bounds() {
    let mut u = UniformRange::new(10, 20);
    for _ in 0..10000 {
        let x = u.generate();
        assert!(10 <= x && x < 20);
    }
}

#[test]
fn uniform_range_hits_whole_range() {
    let mut u = UniformRange::new(0, 2);
    let mut seen = [false, false];
    for _ in 0..200 {
        seen[u.generate() as usize] = true;
    }
    assert!(seen[0] && seen[1]);
}

#[test]
fn uniform_range_empty_or_inverted_always_fails() {
    let mut equal = UniformRange::new(5, 5);
    let mut inverted = UniformRange::new(7, 3);
    for _ in 0..100 {
        assert_eq!(equal.try_generate(), None);
        assert_eq!(inverted.try_generate(), None);
    }
}

#[test]
fn uniform_range_set_range_changes_sampling_bounds() {
    let mut u = UniformRange::new(0, 100);
    u.set_range(1000, 1001);
    for _ in 0..100 {
        assert_eq!(u.generate(), 1000);
    }
    u.set_range(4, 2);
    assert_eq!(u.try_generate(), None);
}

#[test]
fn collection_is_empty_iff_pool_length_zero() {
    let empty = UniformCollection::new(vec![]);
    assert!(empty.is_empty());
    let mut one = UniformCollection::new(vec![1]);
    assert!(!one.is_empty());
    one.consume(1);
    assert!(one.is_empty());
}

#[test]
fn collection_add_grows_pool_by_one() {
    let mut g = UniformCollection::new(vec![]);
    g.add(4);
    assert_eq!(g.values.len(), 1);
    assert!(!g.is_empty());
    assert_eq!(g.generate(), 4);
    g.add(4);
    assert_eq!(g.values.len(), 2);
}

#[test]
fn collection_consume_removes_exactly_one_duplicate() {
    let mut g = UniformCollection::new(vec![2, 2, 7]);
    g.consume(2);
    assert_eq!(g.values, vec![2, 7]);
    g.consume(2);
    assert_eq!(g.values, vec![7]);
    g.consume(2);
    assert_eq!(g.values, vec![7]);
}

#[test]
fn collection_consume_absent_value_is_no_op() {
    let mut g = UniformCollection::new(vec![1, 2, 3]);
    g.consume(9);
    assert_eq!(g.values, vec![1, 2, 3]);
}

#[test]
fn collection_empty_generation_always_fails() {
    let mut g = UniformCollection::new(vec![]);
    for _ in 0..100 {
        assert_eq!(g.try_generate(), None);
    }
}

#[test]
fn collection_generation_returns_current_member() {
    let mut g = UniformCollection::new(vec![1, 2, 3]);
    let mut seen = [false; 4];
    for _ in 0..1000 {
        let x = g.generate();
        assert!(x == 1 || x == 2 || x == 3);
        seen[x as usize] = true;
    }
    // Every member is reachable, so the index draw is not a constant.
    assert!(seen[1] && seen[2] && seen[3]);
}

#[test]
fn switch_prob_zero_always_uses_second() {
    let mut s = RandomSwitch::new(Constant::new(1i64), Constant::new(2i64), 0);
    for _ in 0..100 {
        assert_eq!(s.generate(), 2);
    }
}

#[test]
fn switch_prob_one_always_uses_first() {
    let mut s = RandomSwitch::new(Constant::new(1i64), Constant::new(2i64), PROB_ONE as i64);
    for _ in 0..100 {
        assert_eq!(s.generate(), 1);
    }
}

#[test]
fn switch_prob_is_clamped() {
    // Setting a negative probability behaves identically to setting zero.
    let mut s = RandomSwitch::new(Constant::new(1i64), Constant::new(2i64), -5);
    assert_eq!(s.prob, 0);
    for _ in 0..100 {
        assert_eq!(s.generate(), 2);
    }
    s.set_g1_prob(0);
    assert_eq!(s.prob, 0);
    // Setting above one behaves identically to setting one.
    s.set_g1_prob(3 * PROB_ONE as i64);
    assert_eq!(s.prob, PROB_ONE);
    for _ in 0..100 {
        assert_eq!(s.generate(), 1);
    }
}

#[test]
fn switch_selection_frequency_converges() {
    let mut s = RandomSwitch::new(
        Constant::new(1i64),
        Constant::new(0i64),
        (PROB_ONE / 2) as i64,
    );
    let mut ones = 0;
    for _ in 0..10000 {
        ones += s.generate();
    }
    // 20 standard deviations around the mean of 5000.
    assert!(3000 < ones && ones < 7000);
}

#[test]
fn switch_failure_propagates_from_selected_branch() {
    // The first branch cannot fail but is never selected; the second
    // always fails, and no fallback between the branches happens.
    let mut s = RandomSwitch::new(Constant::new(1i64), UniformRange::new(5, 5), 0);
    for _ in 0..100 {
        assert_eq!(s.try_generate(), None);
    }
}

#[test]
fn switch_constant_mixes_fixed_value_and_generator() {
    let mut s: SwitchConstant<i64, UniformRange> =
        SwitchConstant::new(Constant::new(42i64), UniformRange::new(0, 10), PROB_ONE as i64);
    for _ in 0..100 {
        assert_eq!(s.generate(), 42);
    }
    s.set_g1_prob(0);
    for _ in 0..100 {
        let x = s.generate();
        assert!(0 <= x && x < 10);
    }
}
