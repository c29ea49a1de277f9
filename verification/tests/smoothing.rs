use litio::smoothing::{Blend, Smoother};

#[derive(Clone, Copy, Debug, PartialEq)]
struct Height(f32);

impl Blend for Height {
    fn blend(&self, newer: &Self) -> Self {
        Height((self.0 + newer.0) / 2.0)
    }
}

#[test]
fn first_sight_is_displayed_raw() {
    let mut smoother: Smoother<Height> = Smoother::new();
    assert_eq!(smoother.shown(1), None);
    assert_eq!(smoother.observe(1, Height(10.0)), Height(10.0));
    assert_eq!(smoother.shown(1), Some(Height(10.0)));
    assert_eq!(smoother.shown(2), None);
}

#[test]
fn smoothing_halves_the_distance_each_time() {
    let mut smoother = Smoother::new();
    smoother.observe(7, Height(0.0));
    assert_eq!(smoother.observe(7, Height(10.0)), Height(5.0));
    assert_eq!(smoother.observe(7, Height(10.0)), Height(7.5));
    assert_eq!(smoother.observe(7, Height(10.0)), Height(8.75));
    assert_eq!(smoother.shown(7), Some(Height(8.75)));
}

#[test]
fn unchanged_position_stays_where_it_is() {
    let mut smoother = Smoother::new();
    for p in [0.0f32, -3.25, 1.0e6, 0.1] {
        smoother.observe(3, Height(p));
        assert_eq!(smoother.observe(3, Height(p)), Height(p));
        assert_eq!(smoother.observe(3, Height(p)), Height(p));
        smoother = Smoother::new();
    }
}

#[test]
fn entities_are_smoothed_apart() {
    let mut smoother = Smoother::new();
    smoother.observe(1, Height(0.0));
    smoother.observe(2, Height(100.0));
    assert_eq!(smoother.observe(1, Height(4.0)), Height(2.0));
    assert_eq!(smoother.observe(2, Height(0.0)), Height(50.0));
    assert_eq!(smoother.observe(3, Height(9.0)), Height(9.0));
    assert_eq!(smoother.shown(1), Some(Height(2.0)));
    assert_eq!(smoother.shown(2), Some(Height(50.0)));
}

#[test]
fn entity_left_out_of_a_snapshot_comes_back_raw() {
    let mut smoother = Smoother::new();
    smoother.observe(1, Height(0.0));
    smoother.observe(2, Height(0.0));
    smoother.retain(&vec![1, 2]);
    assert_eq!(smoother.observe(1, Height(10.0)), Height(5.0));
    smoother.retain(&vec![1]);
    assert_eq!(smoother.shown(1), Some(Height(5.0)));
    assert_eq!(smoother.shown(2), None);
    assert_eq!(smoother.observe(2, Height(10.0)), Height(10.0));
    assert_eq!(smoother.observe(1, Height(10.0)), Height(7.5));
    smoother.retain(&vec![]);
    assert_eq!(smoother.shown(1), None);
    assert_eq!(smoother.shown(2), None);
}

#[test]
fn retain_ignores_ids_never_seen_and_repeats() {
    let mut smoother = Smoother::new();
    smoother.observe(4, Height(1.0));
    smoother.retain(&vec![9, 4, 4, 7]);
    assert_eq!(smoother.shown(4), Some(Height(1.0)));
    assert_eq!(smoother.shown(9), None);
    assert_eq!(smoother.shown(7), None);
}
