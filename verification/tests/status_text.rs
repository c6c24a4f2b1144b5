use apis_catalog::status::Status;

#[test]
fn test_status_round_trip() {
    assert!(matches!(Status::from_str(Status::VALIDATED.as_str()), Status::VALIDATED));
    assert!(matches!(Status::from_str(Status::DEPRECATED.as_str()), Status::DEPRECATED));
    assert!(matches!(Status::from_str(Status::RETIRED.as_str()), Status::RETIRED));
    assert!(matches!(Status::from_str(Status::NONE.as_str()), Status::NONE));
}

#[test]
fn test_status_rendering() {
    assert_eq!(Status::VALIDATED.as_str(), "VALIDATED");
    assert_eq!(Status::DEPRECATED.as_str(), "DEPRECATED");
    assert_eq!(Status::RETIRED.as_str(), "RETIRED");
    assert_eq!(Status::NONE.as_str(), "NONE");
}

#[test]
fn test_status_unknown_becomes_none() {
    assert!(matches!(Status::from_str("garbage".to_string()), Status::NONE));
    assert!(matches!(Status::from_str("validated".to_string()), Status::NONE));
    assert!(matches!(Status::from_str("".to_string()), Status::NONE));
}
