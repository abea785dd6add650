use faktor::split_once;

#[test]
fn test_split_once_empty_string() {
    let s = "";
    let (f, s) = split_once(s);
    assert_eq!("", f);
    assert_eq!(None, s.as_deref());
}

#[test]
fn test_split_once_no_equal_sign() {
    let s = "TEST";
    let (f, s) = split_once(s);
    assert_eq!("TEST", f);
    assert_eq!(None, s.as_deref());
}

#[test]
fn test_split_once_no_value() {
    let s = "TEST=";
    let (f, s) = split_once(s);
    assert_eq!("TEST", f);
    assert_eq!(Some(""), s.as_deref());
}

#[test]
fn test_split_once_with_value() {
    let s = "TEST=value";
    let (f, s) = split_once(s);
    assert_eq!("TEST", f);
    assert_eq!(Some("value"), s.as_deref());
}

#[test]
fn test_split_once_with_quotes() {
    let s = r#"TEST="value""#;
    let (f, s) = split_once(s);
    assert_eq!("TEST", f);
    assert_eq!(Some(r#""value""#), s.as_deref());
}

#[test]
fn test_split_once_with_multiple_equals() {
    let s = "TEST=value=1=2=3=";
    let (f, s) = split_once(s);
    assert_eq!("TEST", f);
    assert_eq!(Some("value=1=2=3="), s.as_deref());
}

#[test]
fn test_split_once_separator_first() {
    let s = "=value";
    let (f, s) = split_once(s);
    assert_eq!("", f);
    assert_eq!(Some("value"), s.as_deref());
}
