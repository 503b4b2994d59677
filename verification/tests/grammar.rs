use clp::arity::ArgSpec;
use clp::grammar::{parse_declaration, read_declaration, FLAG_PATTERN};

#[test]
fn flag_alone_takes_no_parameter() {
    assert_eq!(parse_declaration("--are"), Some(("are", ArgSpec::Never)));
}

#[test]
fn flag_with_parameter_name_needs_one() {
    assert_eq!(parse_declaration("--world param"), Some(("world", ArgSpec::Required)));
}

#[test]
fn flag_with_bracketed_parameter_name_may_have_one() {
    assert_eq!(parse_declaration("--hello [param]"), Some(("hello", ArgSpec::Optional)));
    assert_eq!(parse_declaration("--hello[param]"), Some(("hello", ArgSpec::Optional)));
}

#[test]
fn declaration_needs_two_dashes_and_a_name() {
    assert_eq!(parse_declaration("hello"), None);
    assert_eq!(parse_declaration("-hello"), None);
    assert_eq!(parse_declaration("---hello"), None);
    assert_eq!(parse_declaration("--"), None);
    assert_eq!(parse_declaration(""), None);
}

#[test]
fn declaration_with_unpaired_brackets_is_refused() {
    assert_eq!(parse_declaration("--hello [param"), None);
    assert_eq!(parse_declaration("--hello param]"), None);
    assert_eq!(parse_declaration("--hello []"), None);
    assert_eq!(parse_declaration("--hello ["), None);
    assert_eq!(parse_declaration("--hello ]"), None);
}

#[test]
fn declaration_with_more_words_is_refused() {
    assert_eq!(parse_declaration("--hello one two"), None);
    assert_eq!(parse_declaration(" --hello"), None);
    assert_eq!(parse_declaration("--hello param "), None);
}

#[test]
fn declaration_name_is_part_of_the_text() {
    let text = String::from("--name_1 [x]");
    let (name, arity) = parse_declaration(&text).unwrap();
    assert_eq!(name, "name_1");
    assert_eq!(arity, ArgSpec::Optional);
    assert_ne!(name, text);
}

#[test]
fn read_declaration_by_groups() {
    let whole = Some("--f [v]");
    assert_eq!(
        read_declaration(&vec![whole, Some("f"), None, None, None]),
        Some(("f", ArgSpec::Never))
    );
    assert_eq!(
        read_declaration(&vec![whole, Some("f"), Some("["), Some("v"), Some("]")]),
        Some(("f", ArgSpec::Optional))
    );
    assert_eq!(
        read_declaration(&vec![whole, Some("f"), None, Some("v"), None]),
        Some(("f", ArgSpec::Required))
    );
}

#[test]
fn read_declaration_refuses_other_groups() {
    let whole = Some("--f");
    assert_eq!(read_declaration(&vec![whole, Some("f"), Some("["), None, None]), None);
    assert_eq!(read_declaration(&vec![whole, Some("f"), None, None, Some("]")]), None);
    assert_eq!(read_declaration(&vec![whole, Some("f"), Some("["), Some("v"), None]), None);
    assert_eq!(read_declaration(&vec![whole, Some("f"), None, Some("v"), Some("]")]), None);
    assert_eq!(read_declaration(&vec![whole, Some("f"), Some("["), None, Some("]")]), None);
    assert_eq!(read_declaration(&vec![whole, None, None, None, None]), None);
    assert_eq!(read_declaration(&vec![whole, Some("f"), None, None]), None);
    assert_eq!(read_declaration(&vec![whole, Some("f"), None, None, None, None]), None);
    assert_eq!(read_declaration(&Vec::new()), None);
}

#[test]
fn flag_pattern_text() {
    assert_eq!(FLAG_PATTERN, r"^--(\w+)\s*(\[)?(\w+)?(\])?$");
}
