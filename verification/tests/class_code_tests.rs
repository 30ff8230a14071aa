use tracker_core::class_code::{ClassCode, ClassCodes};

#[test]
fn test_valid_1() {
    let cc = ClassCode::new("TEST101");
    assert!(cc.is_ok());
    assert_eq!("TEST101", cc.unwrap().0);
}

#[test]
fn test_valid_2() {
    let cc = ClassCode::new("SOME999");
    assert!(cc.is_ok());
    assert_eq!("SOME999", cc.unwrap().0);
}

#[test]
fn test_invalid() {
    let cc = ClassCode::new("");
    assert!(cc.is_err());
}

#[test]
fn test_invalid_2() {
    let cc = ClassCode::new("not a class code");
    assert!(cc.is_err());
    let cc = ClassCode::new("TEST");
    assert!(cc.is_err());
}

#[test]
fn test_invalid_3() {
    let cc = ClassCode::new("code123");
    assert!(cc.is_err());
}

#[test]
fn test_invalid_4() {
    let cc = ClassCode::new("CLASS101");
    assert!(cc.is_err());
    let cc = ClassCode::new("CLASS11");
    assert!(cc.is_err());
}

#[test]
fn class_codes_1() {
    let mut codes = ClassCodes::new();

    // get multiple times but the actual number of ClassCode instances is 1
    let a = codes.get("TEST111");
    let b = codes.get("TEST111");
    assert!(a.is_ok());
    assert!(b.is_ok());
    assert_eq!(1, codes.0.len());
}

#[test]
fn class_codes_2() {
    let mut codes = ClassCodes::new();

    // 5 different class codes creates 5 instances
    let _ = codes.get("TEST001");
    let _ = codes.get("TEST002");
    let _ = codes.get("TEST003");
    let _ = codes.get("TEST004");
    let _ = codes.get("TEST005");

    assert_eq!(5, codes.0.len());
}

#[test]
fn class_code_get_returns_inner() {
    let cc = ClassCode::new("ABCD012").unwrap();
    assert_eq!("ABCD012", cc.get());
}

#[test]
fn class_codes_mixed_reject() {
    let mut codes = ClassCodes::new();
    assert!(codes.get("TEST101").is_ok());
    assert!(codes.get("bad code").is_err());
    assert_eq!(1, codes.0.len());
}
