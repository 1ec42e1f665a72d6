use dsa::fold::{equal_step, pairs_equal, Step};

#[test]
fn equal_step_goes_on_while_equal() {
    assert!(matches!(equal_step(&1, &1), Step::Continue(true)));
    assert!(matches!(equal_step(&1, &2), Step::Done(false)));
    assert!(matches!(equal_step(&"a", &"a"), Step::Continue(true)));
}

#[test]
fn pairs_equal_on_no_pairs() {
    let pairs: Vec<(&i32, &i32)> = Vec::new();
    assert!(pairs_equal(&pairs));
}

#[test]
fn pairs_equal_on_equal_pairs() {
    let pairs = vec![(&1, &1), (&2, &2), (&3, &3)];
    assert!(pairs_equal(&pairs));
}

#[test]
fn pairs_equal_finds_a_difference_anywhere() {
    assert!(!pairs_equal(&vec![(&0, &1), (&2, &2), (&3, &3)]));
    assert!(!pairs_equal(&vec![(&1, &1), (&2, &0), (&3, &3)]));
    assert!(!pairs_equal(&vec![(&1, &1), (&2, &2), (&3, &0)]));
}

#[test]
fn pairs_equal_is_not_undone_by_later_pairs() {
    assert!(!pairs_equal(&vec![(&1, &2), (&3, &3)]));
    assert!(!pairs_equal(&vec![(&1.5f64, &f64::NAN), (&0.0, &0.0)]));
    assert!(!pairs_equal(&vec![(&f64::NAN, &f64::NAN)]));
}
