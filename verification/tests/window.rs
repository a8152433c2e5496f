use rotate_keys::window::{add_at_most, last_elements};

#[test]
fn last_elements_of_a_short_slice_is_the_slice() {
    let s = [1, 2, 3];
    assert_eq!(last_elements(&s, 3), &[1, 2, 3]);
    assert_eq!(last_elements(&s, 10), &[1, 2, 3]);
}

#[test]
fn last_elements_keeps_the_newest() {
    let s = [1, 2, 3, 4, 5];
    assert_eq!(last_elements(&s, 2), &[4, 5]);
    assert_eq!(last_elements(&s, 0), &[] as &[i32]);
}

#[test]
fn add_at_most_appends_below_the_bound() {
    let s = vec![1, 2];
    assert_eq!(add_at_most(&s, 3, 5), vec![1, 2, 3]);
}

#[test]
fn add_at_most_drops_the_oldest() {
    let s = vec![1, 2, 3, 4, 5];
    assert_eq!(add_at_most(&s, 6, 5), vec![2, 3, 4, 5, 6]);
    assert_eq!(add_at_most(&s, 6, 1), vec![6]);
}

#[test]
fn add_at_most_on_nothing() {
    let s: Vec<String> = Vec::new();
    assert_eq!(add_at_most(&s, "a".to_string(), 3), vec!["a".to_string()]);
}
