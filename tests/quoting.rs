use backend::token::{decimal_string, quote};

/// Reads one double-quoted shell argument back.
fn shell_read(t: &str) -> String {
    let inner = &t[1..t.len() - 1];
    let mut out = String::new();
    let mut chars = inner.chars().peekable();
    while let Some(c) = chars.next() {
        if c == '\\' && matches!(chars.peek(), Some('"') | Some('\\')) {
            out.push(chars.next().unwrap());
        } else {
            assert_ne!(c, '"');
            out.push(c);
        }
    }
    out
}

#[test]
fn quote_escapes_each_double_quote() {
    assert_eq!(quote("a\"b\"\""), "\"a\\\"b\\\"\\\"\"");
    assert_eq!(quote("plain value"), "\"plain value\"");
    assert_eq!(quote(""), "\"\"");
}

#[test]
fn quote_round_trips_through_a_shell_reading() {
    for s in ["", "\"", "\"\"", "a b", "--opt=\"x y\"", "é\"ü", "'$x'"] {
        assert_eq!(shell_read(&quote(s)), s);
    }
}

#[test]
fn decimal_spelling() {
    assert_eq!(decimal_string(0), "0");
    assert_eq!(decimal_string(5000), "5000");
    assert_eq!(decimal_string(-42), "-42");
    assert_eq!(decimal_string(i32::MIN), "-2147483648");
}
