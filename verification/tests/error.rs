use calnexus::error::{CalcError, ErrorKind};

#[test]
fn error_constructors_set_kind_and_message() {
    let e = CalcError::domain("bad input".to_string());
    assert_eq!(e.kind, ErrorKind::Domain);
    assert_eq!(e.message, "bad input");
    assert_eq!(e.hint, None);
    assert_eq!(e.i18n_key, None);
    assert!(e.i18n_args.is_empty());
    assert_eq!(CalcError::overflow().kind, ErrorKind::Overflow);
    assert_eq!(CalcError::overflow().message, "arithmetic overflow");
    assert_eq!(CalcError::division_by_zero().kind, ErrorKind::DivisionByZero);
    assert_eq!(CalcError::division_by_zero().message, "division by zero");
    assert_eq!(CalcError::eval("x".to_string()).kind, ErrorKind::Eval);
}

#[test]
fn error_with_i18n_and_hint_keep_the_rest() {
    let e = CalcError::domain("asin(2) out of domain".to_string())
        .with_hint("asin domain is [-1, 1]")
        .with_i18n("msg.domain", vec![("value".to_string(), "2".to_string())]);
    assert_eq!(e.kind, ErrorKind::Domain);
    assert_eq!(e.message, "asin(2) out of domain");
    assert_eq!(e.hint.as_deref(), Some("asin domain is [-1, 1]"));
    assert_eq!(e.i18n_key, Some("msg.domain"));
    assert_eq!(e.i18n_args, vec![("value".to_string(), "2".to_string())]);
}
