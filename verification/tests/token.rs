use clp::token::{get_arg, trim_dashes};

#[test]
fn trim_dashes_of_a_long_flag() {
    assert_eq!(trim_dashes("--hello"), ("hello", true));
}

#[test]
fn trim_dashes_of_a_short_flag() {
    assert_eq!(trim_dashes("-h"), ("h", true));
}

#[test]
fn trim_dashes_of_many_dashes() {
    assert_eq!(trim_dashes("-----x-y"), ("x-y", true));
}

#[test]
fn trim_dashes_of_a_value() {
    assert_eq!(trim_dashes("hello"), ("hello", false));
    assert_eq!(trim_dashes("he--llo"), ("he--llo", false));
    assert_eq!(trim_dashes("hello-"), ("hello-", false));
}

#[test]
fn trim_dashes_of_nothing() {
    assert_eq!(trim_dashes(""), ("", false));
}

#[test]
fn trim_dashes_of_dashes_only() {
    assert_eq!(trim_dashes("-"), ("", true));
    assert_eq!(trim_dashes("--"), ("", true));
}

#[test]
fn trim_dashes_counts_characters_not_bytes() {
    assert_eq!(trim_dashes("--héllo"), ("héllo", true));
    assert_eq!(trim_dashes("—x"), ("—x", false));
    assert_eq!(trim_dashes("-—x"), ("—x", true));
}

#[test]
fn get_arg_inside_and_behind() {
    let args = vec!["cmd".to_string(), "--flag".to_string(), "value".to_string()];
    assert_eq!(get_arg(&args, 0), (Some("cmd"), false));
    assert_eq!(get_arg(&args, 1), (Some("flag"), true));
    assert_eq!(get_arg(&args, 2), (Some("value"), false));
    assert_eq!(get_arg(&args, 3), (None, false));
    assert_eq!(get_arg(&args, usize::MAX), (None, false));
}
