use ghostly_core::parser::{
    array_to_string, parse_fixed, parse_int, parse_int_list, remove_enclosed, remove_whitespace,
    serialize, StringParser,
};

#[test]
fn parse_int_basics() {
    assert_eq!(parse_int("42"), 42);
    assert_eq!(parse_int("-17"), -17);
    assert_eq!(parse_int("3.7"), 3);
    assert_eq!(parse_int(" 1 2 "), 12);
    assert_eq!(parse_int("abc"), 0);
    assert_eq!(parse_int(""), 0);
    assert_eq!(parse_int("--5"), 5);
}

#[test]
fn parse_int_list_splits_on_commas() {
    assert_eq!(parse_int_list("1,2, 3"), vec![1, 2, 3]);
    assert_eq!(parse_int_list("7"), vec![7]);
    assert_eq!(parse_int_list("1,,2"), vec![1, 0, 2]);
}

#[test]
fn parse_fixed_thousandths() {
    assert_eq!(parse_fixed("1"), 1000);
    assert_eq!(parse_fixed("1.5"), 1500);
    assert_eq!(parse_fixed("-0.25"), -250);
    assert_eq!(parse_fixed("0.125"), 125);
    assert_eq!(parse_fixed("2.0009"), 2000);
}

#[test]
fn whitespace_and_comments() {
    assert_eq!(remove_whitespace(" a b\nc\t"), "abc");
    assert_eq!(remove_enclosed("x#comment\ny", '#', '\n'), "xy");
    assert_eq!(remove_enclosed("x#unclosed", '#', '\n'), "x");
    assert_eq!(remove_enclosed("plain", '#', '\n'), "plain");
}

#[test]
fn rendering() {
    assert_eq!(array_to_string(&[1, 2, 3]), "1, 2, 3");
    assert_eq!(array_to_string(&[]), "");
    assert_eq!(array_to_string(&[-5]), "-5");
    assert_eq!(serialize("name", "val"), "name = val;\n");
}

#[test]
fn parser_lookup() {
    let p = StringParser::new("a = 1;b = 2,3;# note\nc = x;");
    assert_eq!(p.get_string("a").map(|s| s.as_str()), Some(" 1"));
    assert_eq!(p.get_int_or_def("a", -1), 1);
    assert_eq!(p.get_int_or_def("missing", -1), -1);
    assert_eq!(p.get_as_ints("b"), vec![2, 3]);
    assert_eq!(p.get_as_ints("missing"), Vec::<i32>::new());
    assert_eq!(p.get_string_or_def("b", String::from("d")), " 2");
    assert_eq!(p.get_as_string_literal_or_def("b", "d"), " 2,3");
    assert_eq!(p.get_as_string_literal_or_def("zz", "d"), "d");
    // the comment is stripped from the name, which stays readable
    assert_eq!(p.get_string("c").map(|s| s.as_str()), Some(" x"));
    let strs = p.get_as_strings("b");
    assert_eq!(strs, vec![String::from("2"), String::from("3")]);
}

#[test]
fn parser_fixed_lookup() {
    let p = StringParser::new("timeScale = 0.5;");
    assert_eq!(p.get_fixed_or_def("timeScale", 1000), 500);
    assert_eq!(p.get_fixed_or_def("other", 1000), 1000);
}
