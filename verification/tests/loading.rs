use faktor::{init, init_inner, EnvStore, Override, Skip};

#[test]
fn test_init_override_set_when_no_value() {
    let mut store = EnvStore::new();
    store.remove("TESTVALUE");
    assert_eq!(None, store.get("TESTKEY"));

    let lines = vec![String::from("TESTKEY=TESTVALUE")];
    let res = init_inner(&mut store, &lines, Override);
    assert_eq!(true, res.is_ok());
    assert_eq!("TESTVALUE", store.get("TESTKEY").unwrap());
}

#[test]
fn test_init_override_value() {
    let mut store = EnvStore::new();
    store.remove("TESTVALUE");
    store.set("TESTKEY", "OLDTESTVALUE");

    let lines = vec![String::from("TESTKEY=TESTVALUE")];
    let res = init_inner(&mut store, &lines, Override);
    assert_eq!(true, res.is_ok());
    assert_eq!("TESTVALUE", store.get("TESTKEY").unwrap());
}

#[test]
fn test_init_skip_value() {
    let mut store = EnvStore::new();
    store.remove("TESTVALUE");
    store.set("TESTKEY", "OLDTESTVALUE");

    let lines = vec![String::from("TESTKEY=TESTVALUE")];
    let res = init_inner(&mut store, &lines, Skip);
    assert_eq!(true, res.is_ok());
    assert_eq!("OLDTESTVALUE", store.get("TESTKEY").unwrap());
}

#[test]
fn test_init_skip_fills_absent_key() {
    let mut store = EnvStore::new();
    assert_eq!(None, store.get("TESTKEY"));

    let lines = vec![String::from("TESTKEY=TESTVALUE")];
    let res = init_inner(&mut store, &lines, Skip);
    assert_eq!(true, res.is_ok());
    assert_eq!("TESTVALUE", store.get("TESTKEY").unwrap());
}

#[test]
fn test_init_skip_preserves_present_empty_string() {
    let mut store = EnvStore::new();
    store.set("TESTKEY", "");

    let lines = vec![String::from("TESTKEY=TESTVALUE")];
    let res = init_inner(&mut store, &lines, Skip);
    assert_eq!(true, res.is_ok());
    assert_eq!("", store.get("TESTKEY").unwrap());
}

#[test]
fn test_init_override_empty_value_removes_key() {
    let mut store = EnvStore::new();
    store.set("TESTKEY", "OLDTESTVALUE");

    let lines = vec![String::from("TESTKEY=")];
    let res = init_inner(&mut store, &lines, Override);
    assert_eq!(true, res.is_ok());
    assert_eq!(None, store.get("TESTKEY"));
}

#[test]
fn test_init_override_missing_value_removes_key() {
    let mut store = EnvStore::new();
    store.set("TESTKEY", "OLDTESTVALUE");

    let lines = vec![String::from("TESTKEY")];
    let res = init_inner(&mut store, &lines, Override);
    assert_eq!(true, res.is_ok());
    assert_eq!(None, store.get("TESTKEY"));
}

#[test]
fn test_init_parses_content_line_by_line() {
    let mut store = EnvStore::new();
    let content = "FIRST=1\n  SECOND=two \n# a comment\nTHIRD=a=b=c";
    let res = init(&mut store, content, Override);
    assert_eq!(true, res.is_ok());
    assert_eq!("1", store.get("FIRST").unwrap());
    assert_eq!("two", store.get("SECOND").unwrap());
    assert_eq!("a=b=c", store.get("THIRD").unwrap());
}

#[test]
fn test_init_comments_and_blanks_leave_store_unchanged() {
    let mut store = EnvStore::new();
    store.set("TESTKEY", "TESTVALUE");

    let content = "# a comment\n\n   \n\t# an indented comment\n";
    let res = init(&mut store, content, Override);
    assert_eq!(true, res.is_ok());
    assert_eq!("TESTVALUE", store.get("TESTKEY").unwrap());
    assert_eq!(None, store.get("#"));
    assert_eq!(None, store.get(""));
}

#[test]
fn test_init_trims_key_and_keeps_value_raw() {
    let mut store = EnvStore::new();
    let lines = vec![String::from("  TESTKEY =  TESTVALUE  ")];
    let res = init_inner(&mut store, &lines, Override);
    assert_eq!(true, res.is_ok());
    // The line is trimmed as a whole and the key again; the value keeps
    // its inner leading spaces.
    assert_eq!("  TESTVALUE", store.get("TESTKEY").unwrap());
}

#[test]
fn test_init_skips_line_with_empty_key() {
    let mut store = EnvStore::new();
    let lines = vec![String::from("=TESTVALUE"), String::from("   =x")];
    let res = init_inner(&mut store, &lines, Override);
    assert_eq!(true, res.is_ok());
    assert_eq!(None, store.get(""));
}
