use chat_relay::nice::is_nice_string;
use chat_relay::records::{Order, Region};

#[test]
fn nice_needs_vowels_a_double_letter_and_no_forbidden_pair() {
    assert!(is_nice_string("ugknbfddgicrmopn"));
    assert!(is_nice_string("aaa"));
    // No doubled letter.
    assert!(!is_nice_string("jchzalrnumimnmhp"));
    // Contains the forbidden pair "xy".
    assert!(!is_nice_string("haegwjzuvuyypxyu"));
    // Only one vowel.
    assert!(!is_nice_string("dvszwmarrgswjxmb"));
}

#[test]
fn y_counts_as_a_vowel() {
    assert!(is_nice_string("yyy"));
}

#[test]
fn doubled_character_must_be_a_letter() {
    // Three vowels but the only doubled characters are digits.
    assert!(!is_nice_string("a11e22i33"));
}

#[test]
fn forbidden_pairs_each_reject() {
    assert!(!is_nice_string("aabeee"));
    assert!(!is_nice_string("eecdee"));
    assert!(!is_nice_string("eepqee"));
    assert!(!is_nice_string("eexyee"));
}

#[test]
fn empty_and_short_strings_are_not_nice() {
    assert!(!is_nice_string(""));
    assert!(!is_nice_string("ae"));
}

#[test]
fn order_and_region_records_keep_their_fields() {
    let order = Order { id: 1, region_id: 2, gift_name: String::from("sled"), quantity: 5 };
    assert_eq!(order.id, 1);
    assert_eq!(order.region_id, 2);
    assert_eq!(order.gift_name, "sled");
    assert_eq!(order.quantity, 5);
    let region = Region { id: 2, name: String::from("north pole") };
    assert_eq!(region.id, 2);
    assert_eq!(region.name, "north pole");
}
