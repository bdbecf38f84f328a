use yafsh::multiline::is_incomplete;

#[test]
fn test_complete_simple() {
    assert!(!is_incomplete("hello world"));
}

#[test]
fn test_incomplete_unclosed_quote() {
    assert!(is_incomplete("\"hello world"));
}

#[test]
fn test_complete_closed_quote() {
    assert!(!is_incomplete("\"hello world\""));
}

#[test]
fn test_incomplete_colon_no_semicolon() {
    assert!(is_incomplete(": greet \"hello\""));
}

#[test]
fn test_complete_colon_semicolon() {
    assert!(!is_incomplete(": greet \"hello\" ;"));
}

#[test]
fn test_incomplete_begin_no_until() {
    assert!(is_incomplete("begin 1 +"));
}

#[test]
fn test_complete_begin_until() {
    assert!(!is_incomplete("begin 1 + dup 5 = until"));
}

#[test]
fn test_incomplete_begin_while_no_repeat() {
    assert!(is_incomplete("begin dup 0 > while 1 -"));
}

#[test]
fn test_complete_begin_while_repeat() {
    assert!(!is_incomplete("begin dup 0 > while 1 - repeat"));
}

#[test]
fn test_incomplete_do_no_loop() {
    assert!(is_incomplete("0 5 do i"));
}

#[test]
fn test_complete_do_loop() {
    assert!(!is_incomplete("0 5 do i + loop"));
}

#[test]
fn test_complete_do_plus_loop() {
    assert!(!is_incomplete("0 10 do i 2 +loop"));
}

#[test]
fn test_incomplete_if_no_then() {
    assert!(is_incomplete("1 if 42"));
}

#[test]
fn test_complete_if_then() {
    assert!(!is_incomplete("1 if 42 then"));
}

#[test]
fn test_incomplete_each_no_then() {
    assert!(is_incomplete("each ."));
}

#[test]
fn test_complete_each_then() {
    assert!(!is_incomplete("each . then"));
}

#[test]
fn test_incomplete_nested() {
    assert!(is_incomplete(": foo if 42"));
}

#[test]
fn test_complete_nested() {
    assert!(!is_incomplete(": foo if 42 then ;"));
}

#[test]
fn test_keywords_in_quotes_ignored() {
    // "if" inside quotes should not count
    assert!(!is_incomplete("\"if\" ."));
}

#[test]
fn test_empty_string() {
    assert!(!is_incomplete(""));
}

#[test]
fn test_multiline_definition() {
    assert!(is_incomplete(": greet\n  \"hello\" ."));
    assert!(!is_incomplete(": greet\n  \"hello\" . ;"));
}
