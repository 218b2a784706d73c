use spectral::Dictionary;
use spectral::HashMapAssertions;
use spectral::assert_that;

#[test]
fn should_not_panic_if_hashmap_length_matches_expected() {
    let mut test_map = Dictionary::new();
    test_map.insert(1, 1);
    test_map.insert(2, 2);

    assert!(assert_that(&test_map).has_length(2).is_ok());
}

#[test]
#[should_panic(expected = "\n\texpected: hashmap to have length <1>\n\t but was: <2>")]
fn should_panic_if_hashmap_length_does_not_match_expected() {
    let mut test_map = Dictionary::new();
    test_map.insert(1, 1);
    test_map.insert(2, 2);

    if let Err(failure) = assert_that(&test_map).has_length(1) {
        panic!("{}", failure.message());
    }
}

#[test]
fn should_not_panic_if_hashmap_contains_key() {
    let mut test_map = Dictionary::new();
    test_map.insert("hello", "hi");

    assert!(assert_that(&test_map).contains_key(&"hello").is_ok());
}

#[test]
#[should_panic]
fn should_not_panic_if_hashmap_does_not_contain_key() {
    let mut test_map = Dictionary::new();
    test_map.insert("hi", "hi");
    test_map.insert("hey", "hey");

    if let Err(failure) = assert_that(&test_map).contains_key(&"hello") {
        panic!("{}", failure.message());
    }
}

#[test]
fn should_be_able_to_chain_value_from_contains_key() {
    let mut test_map = Dictionary::new();
    test_map.insert("hello", "hi");

    match assert_that(&test_map).contains_key(&"hello") {
        Ok(value) => assert!(value.is_equal_to(&"hi").is_ok()),
        Err(_) => panic!("expected the key to be present"),
    }
}

#[test]
fn should_not_panic_if_hashmap_contains_key_with_value() {
    let mut test_map = Dictionary::new();
    test_map.insert("hello", "hi");

    assert!(assert_that(&test_map).contains_key_with_value(&"hello", &"hi").is_ok());
}

#[test]
#[should_panic(expected = "\n\texpected: hashmap containing key <\"hey\"> with value <\"hi\">\
                   \n\t but was: no matching key, keys are <[\"hello\"]>")]
fn should_panic_if_hashmap_contains_key_with_value_without_key() {
    let mut test_map = Dictionary::new();
    test_map.insert("hello", "hi");

    if let Err(failure) = assert_that(&test_map).contains_key_with_value(&"hey", &"hi") {
        panic!("{}", failure.message());
    }
}

#[test]
#[should_panic(expected = "\n\texpected: hashmap containing key <\"hi\"> with value <\"hey\">\
                   \n\t but was: key <\"hi\"> with value <\"hello\"> instead")]
fn should_panic_if_hashmap_contains_key_with_value_with_different_value() {
    let mut test_map = Dictionary::new();
    test_map.insert("hi", "hello");

    if let Err(failure) = assert_that(&test_map).contains_key_with_value(&"hi", &"hey") {
        panic!("{}", failure.message());
    }
}
