use spair::dom::attributes::AttributeList;

#[test]
fn first_write_at_a_position_is_never_skipped() {
    let mut cache: AttributeList<u32> = AttributeList::new();
    assert!(cache.check_bool_attribute(0, false));
    assert!(cache.check_str_attribute(1, ""));
    assert!(cache.check_i32_attribute(2, 0));
    assert!(cache.check_u32_attribute(3, 0));
    assert!(cache.check_f64_attribute(4, 0f64.to_bits(), true));
    assert_eq!(cache.count(), 5);
}

#[test]
fn equal_value_is_not_written_again() {
    let mut cache: AttributeList<u32> = AttributeList::new();
    assert!(cache.check_bool_attribute(0, true));
    assert!(cache.check_str_attribute(1, "title"));
    assert!(cache.check_i32_attribute(2, -3));
    assert!(cache.check_u32_attribute(3, 9));
    assert!(!cache.check_bool_attribute(0, true));
    assert!(!cache.check_str_attribute(1, "title"));
    assert!(!cache.check_i32_attribute(2, -3));
    assert!(!cache.check_u32_attribute(3, 9));
    assert_eq!(cache.count(), 4);
}

#[test]
fn changed_value_is_written_once() {
    let mut cache: AttributeList<u32> = AttributeList::new();
    assert!(cache.check_i32_attribute(0, 1));
    assert!(cache.check_i32_attribute(0, 2));
    assert!(!cache.check_i32_attribute(0, 2));
    assert!(cache.check_i32_attribute(0, 1));
    assert_eq!(cache.count(), 1);
}

#[test]
fn only_changed_attributes_are_written() {
    let mut cache: AttributeList<u32> = AttributeList::new();
    // first pass: [bool a, str b]
    assert!(cache.check_bool_attribute(0, true));
    assert!(cache.check_str_attribute(1, "one"));
    // second pass: the boolean is the same, the string differs
    assert!(!cache.check_bool_attribute(0, true));
    assert!(cache.check_str_attribute(1, "two"));
    // third pass: the boolean differs, the string is the same
    assert!(cache.check_bool_attribute(0, false));
    assert!(!cache.check_str_attribute(1, "two"));
    // fourth pass: both differ
    assert!(cache.check_bool_attribute(0, true));
    assert!(cache.check_str_attribute(1, "three"));
    // fifth pass: neither differs
    assert!(!cache.check_bool_attribute(0, true));
    assert!(!cache.check_str_attribute(1, "three"));
}

#[test]
fn a_position_beyond_the_end_is_stored_at_the_end() {
    let mut cache: AttributeList<u32> = AttributeList::new();
    assert!(cache.check_u32_attribute(7, 1));
    assert_eq!(cache.count(), 1);
    assert!(!cache.check_u32_attribute(0, 1));
}

#[test]
fn float_is_written_unless_the_caller_found_it_close() {
    let mut cache: AttributeList<u32> = AttributeList::new();
    assert_eq!(cache.f64_attribute(0), None);
    assert!(cache.check_f64_attribute(0, 1.5f64.to_bits(), false));
    assert_eq!(cache.f64_attribute(0), Some(1.5f64.to_bits()));
    // found close: nothing is written and the record stays
    assert!(!cache.check_f64_attribute(0, 1.5000000000000002f64.to_bits(), true));
    assert_eq!(cache.f64_attribute(0), Some(1.5f64.to_bits()));
    // found apart: written and recorded
    assert!(cache.check_f64_attribute(0, 2.5f64.to_bits(), false));
    assert_eq!(cache.f64_attribute(0), Some(2.5f64.to_bits()));
    assert_eq!(cache.f64_attribute(1), None);
}

#[test]
fn listener_takes_a_position() {
    let mut cache: AttributeList<u32> = AttributeList::new();
    assert!(!cache.holds_listener(0));
    cache.store_listener(0, 11);
    assert!(cache.holds_listener(0));
    assert!(cache.check_bool_attribute(1, true));
    cache.store_listener(0, 12);
    assert_eq!(cache.count(), 2);
    assert!(cache.holds_listener(0));
    assert!(!cache.holds_listener(1));
    assert!(!cache.check_bool_attribute(1, true));
}

#[test]
fn copy_of_a_cache_keeps_values_and_no_listener() {
    let mut cache: AttributeList<u32> = AttributeList::new();
    cache.store_listener(0, 11);
    assert!(cache.check_str_attribute(1, "kept"));
    assert!(cache.check_bool_attribute(2, true));
    let mut copy = cache.clone_without_listeners();
    assert_eq!(copy.count(), 3);
    assert!(!copy.holds_listener(0));
    assert!(cache.holds_listener(0));
    assert!(!copy.check_str_attribute(1, "kept"));
    assert!(!copy.check_bool_attribute(2, true));
    copy.store_listener(0, 12);
    assert!(copy.holds_listener(0));
    assert_eq!(copy.count(), 3);
}
