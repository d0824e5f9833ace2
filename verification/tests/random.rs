use concepts::random::Random;

#[test]
fn test_random_usage() {
    let random_values = Random::new(1, 2, 3);
    let val = *random_values.pick();
    assert!(val == 1 || val == 2 || val == 3);
}

#[test]
fn test_random_from_array() {
    let random_values = Random::from([10, 20, 30]);
    let val = *random_values.pick();
    assert!(val == 10 || val == 20 || val == 30);
}

#[test]
fn every_draw_is_one_of_the_choices() {
    let random_values = Random::new("a", "b", "c");
    for _ in 0..50 {
        let val = *random_values.pick();
        assert!(val == "a" || val == "b" || val == "c");
    }
}
