use predictions::slug::create_slug_from_id;

#[test]
fn returns_length_of_atleast_six() {
    let slug = create_slug_from_id(10);
    assert_eq!(slug.chars().next().unwrap(), 'A');
    assert_eq!(slug.len(), 6);
}

#[test]
fn returns_full_string_if_six_length() {
    let slug = create_slug_from_id(439483745);
    assert_eq!(slug, "79NNTT");
}

#[test]
fn short_slugs_are_padded_with_letters_and_digits() {
    let slug = create_slug_from_id(0);
    assert_eq!(slug.len(), 6);
    assert!(slug.starts_with('0'));
    assert!(slug.chars().all(|c| c.is_ascii_alphanumeric()));
    let slug = create_slug_from_id(36);
    assert!(slug.starts_with("10"));
    assert_eq!(slug.len(), 6);
}

#[test]
fn largest_id_needs_no_padding() {
    assert_eq!(create_slug_from_id(i32::MAX), "ZIK0ZJ");
    assert_eq!(create_slug_from_id(60466176), "100000");
}
