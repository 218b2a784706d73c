use spectral::Dictionary;
use spectral::HashMapAssertions;
use spectral::assert_that;

#[test]
fn length_check_passes_only_for_the_exact_length() {
    let mut map = Dictionary::new();
    map.insert(1, 1);
    map.insert(2, 2);

    assert!(assert_that(&map).has_length(2).is_ok());
    let one_too_many = assert_that(&map).has_length(3).err().unwrap();
    assert_eq!(
        one_too_many.message(),
        "\n\texpected: hashmap to have length <3>\n\t but was: <2>"
    );
    let one_too_few = assert_that(&map).has_length(1).err().unwrap();
    assert_eq!(
        one_too_few.message(),
        "\n\texpected: hashmap to have length <1>\n\t but was: <2>"
    );
}

#[test]
fn empty_dictionary_has_length_zero_and_no_keys() {
    let map: Dictionary<&str, &str> = Dictionary::new();

    assert!(assert_that(&map).has_length(0).is_ok());
    let failure = assert_that(&map).has_length(1).err().unwrap();
    assert_eq!(failure.message(), "\n\texpected: hashmap to have length <1>\n\t but was: <0>");
    let failure = assert_that(&map).contains_key(&"a").err().unwrap();
    assert_eq!(
        failure.message(),
        "\n\texpected: hashmap to contain key <\"a\">\n\t but was: <[]>"
    );
    let failure = assert_that(&map).contains_key_with_value(&"a", &"b").err().unwrap();
    assert_eq!(
        failure.message(),
        "\n\texpected: hashmap containing key <\"a\"> with value <\"b\">\
         \n\t but was: no matching key, keys are <[]>"
    );
}

#[test]
fn missing_key_failure_lists_every_key_in_insertion_order() {
    let mut map = Dictionary::new();
    map.insert("a", "x");
    map.insert("b", "y");

    let failure = assert_that(&map).contains_key(&"c").err().unwrap();
    assert_eq!(
        failure.message(),
        "\n\texpected: hashmap to contain key <\"c\">\n\t but was: <[\"a\", \"b\"]>"
    );
}

#[test]
fn present_entry_passes_and_extracted_value_equals_lookup() {
    let mut map = Dictionary::new();
    map.insert("k", "v");

    assert!(assert_that(&map).contains_key_with_value(&"k", &"v").is_ok());
    let extracted = assert_that(&map).contains_key(&"k").ok().unwrap();
    assert!(extracted.is_equal_to(&"v").is_ok());
    let looked_up = map.get(&"k").unwrap();
    assert!(assert_that(looked_up).is_equal_to(&"v").is_ok());
}

#[test]
fn absent_key_looks_up_nothing() {
    let mut map = Dictionary::new();
    map.insert("k", "v");

    assert!(map.get(&"missing").is_none());
}

#[test]
fn inserting_an_existing_key_replaces_its_value() {
    let mut map = Dictionary::new();
    map.insert("k", "old");
    map.insert("k", "new");

    assert!(assert_that(&map).has_length(1).is_ok());
    assert!(assert_that(&map).contains_key_with_value(&"k", &"new").is_ok());
    let failure = assert_that(&map).contains_key_with_value(&"k", &"old").err().unwrap();
    assert_eq!(
        failure.message(),
        "\n\texpected: hashmap containing key <\"k\"> with value <\"old\">\
         \n\t but was: key <\"k\"> with value <\"new\"> instead"
    );
}

#[test]
fn repeating_a_passing_assertion_passes_again() {
    let mut map = Dictionary::new();
    map.insert(1, 1);
    map.insert(2, 2);

    assert!(assert_that(&map).has_length(2).is_ok());
    assert!(assert_that(&map).has_length(2).is_ok());
    assert!(assert_that(&map).contains_key(&1).is_ok());
    assert!(assert_that(&map).contains_key(&1).is_ok());
    assert!(assert_that(&map).contains_key_with_value(&2, &2).is_ok());
    assert!(assert_that(&map).contains_key_with_value(&2, &2).is_ok());
}

#[test]
fn chained_equality_agrees_with_direct_lookup_and_entry_check() {
    let mut map = Dictionary::new();
    map.insert("k", "v");

    let chained_hit = match assert_that(&map).contains_key(&"k") {
        Ok(value) => value.is_equal_to(&"v").is_ok(),
        Err(_) => false,
    };
    let direct_hit = match map.get(&"k") {
        Some(value) => assert_that(value).is_equal_to(&"v").is_ok(),
        None => false,
    };
    assert_eq!(chained_hit, direct_hit);
    assert_eq!(chained_hit, assert_that(&map).contains_key_with_value(&"k", &"v").is_ok());

    let chained_miss = match assert_that(&map).contains_key(&"k") {
        Ok(value) => value.is_equal_to(&"other").is_ok(),
        Err(_) => false,
    };
    let direct_miss = match map.get(&"k") {
        Some(value) => assert_that(value).is_equal_to(&"other").is_ok(),
        None => false,
    };
    assert_eq!(chained_miss, direct_miss);
    assert_eq!(chained_miss, assert_that(&map).contains_key_with_value(&"k", &"other").is_ok());
}

#[test]
fn description_prefixes_the_failure_message() {
    let map: Dictionary<i32, i32> = Dictionary::new();

    let failure = assert_that(&map).named("my map").has_length(1).err().unwrap();
    assert_eq!(
        failure.message(),
        "my map: \n\texpected: hashmap to have length <1>\n\t but was: <0>"
    );
}

#[test]
fn description_survives_chaining_into_a_value() {
    let mut map = Dictionary::new();
    map.insert("k", "v");

    let value = assert_that(&map).named("my map").contains_key(&"k").ok().unwrap();
    let failure = value.is_equal_to(&"other").err().unwrap();
    assert_eq!(failure.message(), "my map: \n\texpected: <\"other\">\n\t but was: <\"v\">");
}

#[test]
fn numbers_render_in_decimal() {
    let small: u64 = 7;
    assert!(assert_that(&small).is_equal_to(&7).is_ok());
    let large: u64 = 1200500;
    let failure = assert_that(&large).is_equal_to(&1200501u64).err().unwrap();
    assert_eq!(failure.message(), "\n\texpected: <1200501>\n\t but was: <1200500>");
    let negative: i32 = -42;
    let failure = assert_that(&negative).is_equal_to(&-41).err().unwrap();
    assert_eq!(failure.message(), "\n\texpected: <-41>\n\t but was: <-42>");
    let smallest: i32 = i32::MIN;
    let failure = assert_that(&smallest).is_equal_to(&0).err().unwrap();
    assert_eq!(failure.message(), "\n\texpected: <0>\n\t but was: <-2147483648>");
}

#[test]
fn integer_keys_list_without_quotes() {
    let mut map = Dictionary::new();
    map.insert(1, 10);
    map.insert(-2, 20);

    let failure = assert_that(&map).contains_key(&3).err().unwrap();
    assert_eq!(
        failure.message(),
        "\n\texpected: hashmap to contain key <3>\n\t but was: <[1, -2]>"
    );
}

#[test]
fn strings_render_quoted_with_escapes() {
    let tricky = "a\"b\\c\nd\te\rf";
    let failure = assert_that(&tricky).is_equal_to(&"x").err().unwrap();
    assert_eq!(
        failure.message(),
        "\n\texpected: <\"x\">\n\t but was: <\"a\\\"b\\\\c\\nd\\te\\rf\">"
    );
}

#[test]
fn owned_strings_assert_like_string_slices() {
    let mut map: Dictionary<String, String> = Dictionary::new();
    map.insert(String::from("hello"), String::from("hi"));

    assert!(assert_that(&map).contains_key_with_value(
        &String::from("hello"),
        &String::from("hi"),
    ).is_ok());
    let failure = assert_that(&map).contains_key(&String::from("hey")).err().unwrap();
    assert_eq!(
        failure.message(),
        "\n\texpected: hashmap to contain key <\"hey\">\n\t but was: <[\"hello\"]>"
    );
}
