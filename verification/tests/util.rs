use faktor::{split_lines, trim, EnvStore, FaktorError};

#[test]
fn test_trim_removes_surrounding_whitespace() {
    assert_eq!("a b", trim(" \t a b \r\n"));
    assert_eq!("", trim("   \t  "));
    assert_eq!("x", trim("x"));
    assert_eq!("", trim(""));
}

#[test]
fn test_split_lines_segments() {
    assert_eq!(vec!["a", "b"], split_lines("a\nb"));
    assert_eq!(vec!["a", "b", ""], split_lines("a\nb\n"));
    assert_eq!(vec![""], split_lines(""));
    assert_eq!(vec!["", "x"], split_lines("\nx"));
}

#[test]
fn test_store_get_set_remove() {
    let mut store = EnvStore::new();
    assert_eq!(None, store.get("K"));
    store.set("K", "v1");
    assert_eq!("v1", store.get("K").unwrap());
    store.set("K", "v2");
    assert_eq!("v2", store.get("K").unwrap());
    store.set("L", "w");
    assert_eq!("v2", store.get("K").unwrap());
    assert_eq!("w", store.get("L").unwrap());
    store.remove("K");
    assert_eq!(None, store.get("K"));
    assert_eq!("w", store.get("L").unwrap());
    store.remove("K");
    assert_eq!(None, store.get("K"));
}

#[test]
fn test_error_from_io_error() {
    let io_err = std::io::Error::new(std::io::ErrorKind::AddrInUse, "error");
    let err = FaktorError::from(io_err);
    assert!(matches!(err, FaktorError::Io(_)));
}
