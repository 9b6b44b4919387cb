use borrow_print::event::{lhs_path_line, Event, Party, Transfer};
use borrow_print::text::{closes_quotes, contains, decimal_string, extract_var_name};

#[test]
fn name_is_what_the_outer_backquotes_enclose() {
    assert_eq!(extract_var_name("path segment `x` (hir_id)"), Some("x".to_string()));
    assert_eq!(extract_var_name("`a` and `b`"), Some("a` and `b".to_string()));
    assert_eq!(extract_var_name("``"), Some(String::new()));
    assert_eq!(extract_var_name("no quotes"), None);
    assert_eq!(extract_var_name(""), None);
}

#[test]
fn name_may_be_of_any_alphabet() {
    assert_eq!(extract_var_name("größe `größe` ✓"), Some("größe".to_string()));
}

#[test]
fn string_from_goes_by_its_short_name() {
    assert_eq!(extract_var_name("expr `String::from`"), Some("String::from".to_string()));
    assert_eq!(
        extract_var_name("expr `std::string::String::from::<&str>`"),
        Some("String::from".to_string())
    );
    assert_eq!(extract_var_name("expr `String::fro`"), Some("String::fro".to_string()));
}

#[test]
fn a_single_backquote_does_not_close() {
    assert!(!closes_quotes("one ` only"));
    assert!(closes_quotes("none"));
    assert!(closes_quotes("`two`"));
    assert!(closes_quotes("`th`ree`"));
}

#[test]
fn substrings_are_found() {
    assert!(contains("abcabd", "abd"));
    assert!(contains("abc", ""));
    assert!(contains("", ""));
    assert!(contains("abc", "abc"));
    assert!(!contains("abc", "abcd"));
    assert!(!contains("abc", "ac"));
}

#[test]
fn numbers_are_spelled_in_decimal() {
    assert_eq!(decimal_string(0), "0");
    assert_eq!(decimal_string(7), "7");
    assert_eq!(decimal_string(10), "10");
    assert_eq!(decimal_string(90210), "90210");
    assert_eq!(decimal_string(usize::MAX), format!("{}", usize::MAX));
}

fn variable(name: &str) -> Party {
    Party::Variable(name.to_string())
}

fn function(name: &str) -> Party {
    Party::Function(name.to_string())
}

#[test]
fn events_read_as_lines() {
    let t = |how: Transfer, from: Party, to: Party| Event::Transfer { how, from, to }.text();
    assert_eq!(Event::Blank.text(), "");
    assert_eq!(Event::FunctionCall("expr `f(x)`".to_string()).text(), "Function Call: expr `f(x)`");
    assert_eq!(Event::AssignExpression("x = 1".to_string()).text(), "Assign Expression: x = 1");
    assert_eq!(Event::OnLine(12).text(), "On line: 12");
    assert_eq!(Event::Statement("let x".to_string()).text(), "Statement: let x");
    assert_eq!(Event::StatementLine(3).text(), "on line: 3");
    assert_eq!(Event::LhsNotListed.text(), "lhs is not listed");
    assert_eq!(Event::InitRefParam("r".to_string()).text(), "InitRefParam(r)");
    assert_eq!(Event::InitOwnerParam("o".to_string()).text(), "InitOwnerParam(o)");
    assert_eq!(Event::Bind("x".to_string()).text(), "Bind(x)");
    assert_eq!(t(Transfer::Move, variable("a"), variable("b")), "Move(a->b)");
    assert_eq!(t(Transfer::Copy, function("f"), variable("b")), "Copy(f()->b)");
    assert_eq!(t(Transfer::Move, variable("a"), Party::Nowhere), "Move(a->none)");
    assert_eq!(t(Transfer::StaticBorrow, variable("a"), variable("b")), "StaticBorrow(a->b)");
    assert_eq!(t(Transfer::MutableBorrow, variable("a"), variable("b")), "MutableBorrow(a->b)");
    assert_eq!(
        t(Transfer::PassByStaticReference, variable("a"), function("f")),
        "PassByStaticReference(a->f())"
    );
    assert_eq!(
        t(Transfer::PassByMutableReference, variable("a"), function("f")),
        "PassByMutableReference(a->f())"
    );
}

#[test]
fn path_patterns_are_written_in_quotes() {
    assert_eq!(Event::LhsPath("demo::LIMIT".to_string()).text(), "lhs path: \"demo::LIMIT\"");
    assert_eq!(Event::LhsPath("a\"b".to_string()).text(), "lhs path: \"a\\\"b\"");
    assert_eq!(lhs_path_line("\"x\""), "lhs path: \"x\"");
}
