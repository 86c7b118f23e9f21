use tape_proxy::status::{choose_reason, is_single_line, reason_for, reason_from};

#[test]
fn without_a_phrase_the_reason_is_the_standard_phrase() {
    assert_eq!(reason_for(None, 200), b"OK".to_vec());
    assert_eq!(reason_for(None, 404), b"Not Found".to_vec());
    assert_eq!(reason_for(None, 501), b"Not Implemented".to_vec());
    assert_eq!(reason_for(None, 418), b"I'm a teapot".to_vec());
}

#[test]
fn without_a_phrase_the_reason_is_empty_for_a_code_without_phrase() {
    assert_eq!(reason_for(None, 299), Vec::<u8>::new());
    assert_eq!(reason_for(None, 999), Vec::<u8>::new());
}

#[test]
fn without_a_phrase_the_reason_is_empty_for_what_is_no_status_code() {
    assert_eq!(reason_for(None, 0), Vec::<u8>::new());
    assert_eq!(reason_for(None, 99), Vec::<u8>::new());
    assert_eq!(reason_for(None, 1000), Vec::<u8>::new());
    assert_eq!(reason_for(None, 65535), Vec::<u8>::new());
}

#[test]
fn the_phrase_that_came_is_the_reason() {
    assert_eq!(reason_for(Some(b"Fine By Me"), 200), b"Fine By Me".to_vec());
    assert_eq!(reason_for(Some(b""), 200), Vec::<u8>::new());
    assert_eq!(reason_for(Some(b"odd\rbut\none line"), 404), b"odd\rbut\none line".to_vec());
    assert_eq!(reason_for(Some(b"No Such Code"), 99), b"No Such Code".to_vec());
}

#[test]
fn a_phrase_with_a_line_break_gives_way_to_the_standard_phrase() {
    assert_eq!(reason_for(Some(b"Fine\r\nBy Me"), 200), b"OK".to_vec());
    assert_eq!(reason_for(Some(b"\r\n"), 299), Vec::<u8>::new());
}

#[test]
fn choose_reason_prefers_what_came() {
    assert_eq!(choose_reason(Some(b"Mine"), Some(b"OK".to_vec())), b"Mine".to_vec());
    assert_eq!(choose_reason(Some(b"Mine"), None), b"Mine".to_vec());
    assert_eq!(choose_reason(None, Some(b"OK".to_vec())), b"OK".to_vec());
    assert_eq!(choose_reason(None, None), Vec::<u8>::new());
    assert_eq!(choose_reason(Some(b"Mi\r\nne"), Some(b"OK".to_vec())), b"OK".to_vec());
    assert_eq!(choose_reason(Some(b"Mi\r\nne"), Some(b"O\r\nK".to_vec())), Vec::<u8>::new());
}

#[test]
fn reason_from_keeps_a_phrase_of_one_line() {
    assert_eq!(reason_from(Some(b"OK".to_vec())), b"OK".to_vec());
    assert_eq!(reason_from(Some(b"a\rb\nc".to_vec())), b"a\rb\nc".to_vec());
    assert_eq!(reason_from(Some(Vec::new())), Vec::<u8>::new());
    assert_eq!(reason_from(None), Vec::<u8>::new());
}

#[test]
fn reason_from_drops_a_phrase_with_a_line_break() {
    assert_eq!(reason_from(Some(b"O\r\nK".to_vec())), Vec::<u8>::new());
    assert_eq!(reason_from(Some(b"\r\n".to_vec())), Vec::<u8>::new());
}

#[test]
fn is_single_line_looks_for_cr_lf() {
    assert!(is_single_line(b""));
    assert!(is_single_line(b"\r"));
    assert!(is_single_line(b"\n\r"));
    assert!(!is_single_line(b"\r\n"));
    assert!(!is_single_line(b"a\r\nb"));
}
