use embed_bench::report::{is_tolerated, panic_message};

#[test]
fn message_of_a_panic() {
    assert_eq!(panic_message(Some("owned"), Some("borrowed")), "owned");
    assert_eq!(panic_message(None, Some("borrowed")), "borrowed");
    assert_eq!(panic_message(None, None), "unknown error");
}

#[test]
fn a_thread_that_fails_to_unwrap_is_tolerated() {
    let message = "called `Result::unwrap()` on an `Err` value";
    assert!(is_tolerated(Some("library/std/src/thread/mod.rs"), message));
    assert!(!is_tolerated(Some("src/main.rs"), message));
    assert!(!is_tolerated(Some("library/std/src/thread/mod.rs"), "index out of bounds"));
    assert!(!is_tolerated(None, message));
}
