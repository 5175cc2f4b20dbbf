use journaled::field::Field;
use journaled::field::OwnedField;

#[test]
fn test_field_validate() {
    assert!(Field::validate("test").is_none());
    assert!(Field::validate("_TEST").is_none());
    assert!(Field::validate("").is_none());
    assert!(Field::validate(
        "IS_TOOOOOOOOOOOOOOOOOOOOOOOOOOOOOOOOOOOOOOOOOOOOOOOOOOOOOOOO_LONG"
    )
    .is_none());
    assert!(Field::validate("TE%ST").is_none());
    assert!(Field::validate("0TEST").is_none());

    assert_eq!(Field::validate("TEST").unwrap().as_str(), "TEST");
    assert_eq!(Field::validate("T_EST_").unwrap().as_str(), "T_EST_");
}

#[test]
fn test_field_required_capacity() {
    let field = "TEST";
    assert_eq!(
        Field::validate(field).unwrap().required_capacity(),
        field.len()
    );
}

#[test]
fn test_well_known_fields_are_valid() {
    assert!(journaled::known::message().validate_unchecked());
    assert!(journaled::known::message_id().validate_unchecked());
    assert!(journaled::known::priority().validate_unchecked());
    assert!(journaled::known::code_file().validate_unchecked());
    assert!(journaled::known::code_line().validate_unchecked());
    assert!(journaled::known::code_func().validate_unchecked());
    assert!(journaled::known::errno().validate_unchecked());
    assert!(journaled::known::invocation_id().validate_unchecked());
    assert!(journaled::known::user_invocation_id().validate_unchecked());
    assert!(journaled::known::syslog_facility().validate_unchecked());
    assert!(journaled::known::syslog_identifier().validate_unchecked());
    assert!(journaled::known::syslog_pid().validate_unchecked());
    assert!(journaled::known::syslog_timestamp().validate_unchecked());
    assert!(journaled::known::syslog_raw().validate_unchecked());
    assert!(journaled::known::documentation().validate_unchecked());
    assert!(journaled::known::tid().validate_unchecked());
    assert!(journaled::known::unit().validate_unchecked());
    assert!(journaled::known::user_unit().validate_unchecked());
    assert!(journaled::known::coredump_unit().validate_unchecked());
    assert!(journaled::known::coredump_user_unit().validate_unchecked());
    assert!(journaled::known::object_pid().validate_unchecked());
}

#[test]
fn test_sanitize() {
    assert!(OwnedField::sanitize("_______").is_none());
    assert_eq!(OwnedField::sanitize("_test_123").unwrap().as_str(), "TEST_123");

    assert!(OwnedField::sanitize("😂😂😂😂").is_none());
    assert_eq!(OwnedField::sanitize("😂😂A😂_😂B").unwrap().as_str(), "A___B");

    assert_eq!(
        OwnedField::sanitize("a".repeat(65).as_str()).unwrap(),
        OwnedField::sanitize("a".repeat(64).as_str()).unwrap(),
    );
}

#[test]
fn test_sanitize_with_prefix() {
    let foo = Field::validate("FOO").unwrap();

    assert_eq!(OwnedField::sanitize_with_prefix("___", foo).as_str(), "FOO___");
    assert_eq!(OwnedField::sanitize_with_prefix("_a1", foo).as_str(), "FOO_A1");

    assert_eq!(OwnedField::sanitize_with_prefix("😂😂", foo).as_str(), "FOO__");

    let long = "a".repeat(65);
    let same = format!("FOO{}", "a".repeat(61));
    assert_eq!(
        OwnedField::sanitize_with_prefix(long.as_str(), foo),
        OwnedField::sanitize(same.as_str()).unwrap(),
    );
}

#[test]
fn test_into_field() {
    let owned = OwnedField::sanitize("_test_123").unwrap();
    assert_eq!(Field::validate("TEST_123").unwrap(), owned.as_field());
}

#[test]
fn test_sanitize_keeps_valid_names() {
    let owned = OwnedField::sanitize("ALREADY_VALID_9").unwrap();
    assert_eq!(owned.as_str(), "ALREADY_VALID_9");
    assert!(Field::validate(owned.as_str()).is_some());
}

#[test]
fn test_sanitize_result_is_always_valid() {
    for raw in ["---a-b-c---", "a", "_x", "42x42", "Grüße zürück"] {
        let owned = OwnedField::sanitize(raw).unwrap();
        assert!(Field::validate(owned.as_str()).is_some());
        assert!(owned.as_str().len() <= 64);
    }
}

#[test]
fn test_sanitize_with_prefix_keeps_whole_prefix() {
    let prefix = Field::validate("PFX").unwrap();
    let long = "z".repeat(200);
    let owned = OwnedField::sanitize_with_prefix(long.as_str(), prefix);
    assert!(owned.as_str().starts_with("PFX"));
    assert_eq!(owned.as_str().len(), 64);
}

#[test]
fn test_unchecked_roundtrip() {
    let field = Field::unchecked("TARGET");
    assert!(field.validate_unchecked());
    assert_eq!(field.as_str(), "TARGET");
    let bad = Field::unchecked("not valid");
    assert!(!bad.validate_unchecked());
}
