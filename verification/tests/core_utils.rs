use std::cmp::Ordering;

use evilcon_sim::util::{take_n, skip_while, try_reduce, try_sort_by, clamp};
use evilcon_sim::text::{chars_of, string_from_chars, i64_to_string, u64_to_string, str_eq};
use evilcon_sim::numparse::parse_i64_range;
use evilcon_sim::ops::{UnaryOp, BinaryOp, AssignOp};
use evilcon_sim::strfmt::{format_percent, FormatterError};
use evilcon_sim::gdstring::{GdString, StringType, StringPrefix, read_unicode_escape,
    interpret_escape_char};
use evilcon_sim::ident::{Identifier, ResourcePath};

#[derive(Debug, PartialEq, Eq)]
struct CmpError;

#[test]
fn test_try_sort_infallible() {
    let mut arr = vec![9, 6, 7, 5, 8, 4, 3, 1, 2, 0];
    try_sort_by(&mut arr, |a: &i32, b: &i32| Ok::<_, ()>(a.cmp(b))).unwrap();
    assert_eq!(arr, vec![0, 1, 2, 3, 4, 5, 6, 7, 8, 9]);
}

#[test]
fn test_try_sort_fallible() {
    let mut arr = vec![9, 6, 7, 5, 8, 4, 3, 1, 2, 0];
    let err = try_sort_by(&mut arr, |_: &i32, _: &i32| Err(CmpError)).unwrap_err();
    assert_eq!(err, CmpError);
}

#[test]
fn test_take_n_collects_prefix() {
    let items = vec![10, 20, 30, 40];
    assert_eq!(take_n(&items, 0, 2), vec![10, 20]);
    assert_eq!(take_n(&items, 1, 10), vec![20, 30, 40]);
    assert_eq!(take_n(&items, 4, 3), Vec::<i32>::new());
}

#[test]
fn test_skip_while_advances() {
    let items = vec![2, 4, 6, 7, 8];
    let end = skip_while(&items, 0, |x: &i32| x % 2 == 0);
    assert_eq!(end, 3);
    assert_eq!(skip_while(&items, 3, |x: &i32| x % 2 == 0), 3);
}

#[test]
fn test_try_reduce_sums() {
    let items = vec![1i64, 2, 3, 4];
    let total = try_reduce(&items, |a: i64, b: i64| Ok::<_, ()>(a + b)).unwrap();
    assert_eq!(total, Some(10));
    let empty: Vec<i64> = Vec::new();
    assert_eq!(try_reduce(&empty, |a: i64, b: i64| Ok::<_, ()>(a + b)).unwrap(), None);
    let err = try_reduce(&items, |_: i64, _: i64| Err::<i64, &str>("boom")).unwrap_err();
    assert_eq!(err, "boom");
}

#[test]
fn test_try_sort_with_comparator_order() {
    let mut arr = vec![1, 2, 3, 4];
    try_sort_by(&mut arr, |a: &i32, b: &i32| Ok::<_, ()>(b.cmp(a))).unwrap();
    assert_eq!(arr, vec![4, 3, 2, 1]);
}

#[test]
fn test_clamp() {
    assert_eq!(clamp(5, 0, 10), 5);
    assert_eq!(clamp(-5, 0, 10), 0);
    assert_eq!(clamp(15, 0, 10), 10);
}

#[test]
fn test_chars_roundtrip() {
    let chars = chars_of("héllo");
    assert_eq!(chars, vec!['h', 'é', 'l', 'l', 'o']);
    assert_eq!(string_from_chars(&chars), "héllo");
}

#[test]
fn test_int_to_string() {
    assert_eq!(u64_to_string(0), "0");
    assert_eq!(u64_to_string(90210), "90210");
    assert_eq!(i64_to_string(-42), "-42");
    assert_eq!(i64_to_string(i64::MIN), "-9223372036854775808");
    assert_eq!(i64_to_string(i64::MAX), "9223372036854775807");
}

#[test]
fn test_str_eq() {
    assert!(str_eq("abc", "abc"));
    assert!(!str_eq("abc", "abd"));
    assert!(!str_eq("abc", "ab"));
}

#[test]
fn test_parse_i64_range() {
    let chars = chars_of("-123");
    assert_eq!(parse_i64_range(&chars, 0, 4), Some(-123));
    let chars = chars_of("+77");
    assert_eq!(parse_i64_range(&chars, 0, 3), Some(77));
    let chars = chars_of("9223372036854775807");
    assert_eq!(parse_i64_range(&chars, 0, chars.len()), Some(i64::MAX));
    let chars = chars_of("9223372036854775808");
    assert_eq!(parse_i64_range(&chars, 0, chars.len()), None);
    let chars = chars_of("-9223372036854775808");
    assert_eq!(parse_i64_range(&chars, 0, chars.len()), Some(i64::MIN));
    let chars = chars_of("12a");
    assert_eq!(parse_i64_range(&chars, 0, 3), None);
    let chars = chars_of("");
    assert_eq!(parse_i64_range(&chars, 0, 0), None);
}

#[test]
fn test_operator_symbols() {
    assert_eq!(UnaryOp::parse("!").unwrap(), UnaryOp::Not);
    assert_eq!(UnaryOp::parse("not").unwrap(), UnaryOp::Not);
    assert_eq!(UnaryOp::Neg.symbol(), "-");
    assert_eq!(BinaryOp::parse("**").unwrap(), BinaryOp::Pow);
    assert_eq!(BinaryOp::parse("is not").unwrap(), BinaryOp::IsNot);
    assert_eq!(BinaryOp::parse("and").unwrap(), BinaryOp::And);
    assert!(BinaryOp::parse("<>").is_err());
    assert_eq!(BinaryOp::NotIn.symbol(), "not in");
    assert_eq!(AssignOp::parse("+=").unwrap(), AssignOp::AddEq);
    assert!(AssignOp::parse("==").is_err());
}

#[test]
fn test_assign_op_as_binary() {
    assert_eq!(AssignOp::Eq.as_binary(), None);
    assert_eq!(AssignOp::AddEq.as_binary(), Some(BinaryOp::Add));
    assert_eq!(AssignOp::LShiftEq.as_binary(), Some(BinaryOp::LShift));
}

#[test]
fn test_format_percent() {
    let args = vec![String::from("a"), String::from("b")];
    assert_eq!(format_percent("%s-%s!", &args).unwrap(), "a-b!");
    let too_many = vec![String::from("a")];
    assert_eq!(format_percent("plain", &too_many).unwrap_err(), FormatterError::TooManyFormatArgs);
    let too_few: Vec<String> = Vec::new();
    assert_eq!(format_percent("%s", &too_few).unwrap_err(), FormatterError::NotEnoughFormatArgs);
    assert_eq!(format_percent("100%%s?", &vec![String::from("x")]).unwrap(), "100%x?");
}

#[test]
fn test_string_type_delimiters() {
    let t = StringType { prefix: StringPrefix::Plain, triple_quoted: false, quote_type: '"' };
    assert_eq!(t.start_delim(), "\"");
    assert_eq!(t.end_delim(), "\"");
    let r = StringType { prefix: StringPrefix::Raw, triple_quoted: true, quote_type: '\'' };
    assert_eq!(r.start_delim(), "r'''");
    assert_eq!(r.end_delim(), "'''");
    assert!(!r.admits_escape_sequences());
    assert!(t.admits_escape_sequences());
    let g = GdString::simple(String::from("hi"));
    assert_eq!(g.contents, "hi");
}

#[test]
fn test_escape_sequences() {
    let chars = chars_of("n");
    assert_eq!(interpret_escape_char(&chars, 0).unwrap(), ('\n', 1));
    let chars = chars_of("u0041rest");
    assert_eq!(interpret_escape_char(&chars, 0).unwrap(), ('A', 5));
    let chars = chars_of("U00205Efoo");
    assert_eq!(interpret_escape_char(&chars, 0).unwrap(), ('\u{205e}', 7));
    let chars = chars_of("q");
    assert!(interpret_escape_char(&chars, 0).is_err());
    let chars = chars_of("u12");
    assert!(interpret_escape_char(&chars, 0).is_err());
    let chars = chars_of("ud800");
    assert!(read_unicode_escape(&chars, 1, 4).is_err());
}

#[test]
fn test_identifier_wrappers() {
    let id = Identifier::new(String::from("player"));
    assert_eq!(id.0, "player");
    let path = ResourcePath::new(String::from("res://cards/alpha.gd"));
    assert_eq!(path.0, "res://cards/alpha.gd");
    assert_eq!(id, Identifier::new(String::from("player")));
}

#[test]
fn test_gd_string_parse() {
    let g: GdString = "\"a\\nb\"".parse().unwrap();
    assert_eq!(g.contents, "a\nb");
    assert_eq!(g.string_type.prefix, StringPrefix::Plain);
    assert!(!g.string_type.triple_quoted);
    let raw: GdString = "r\"a\\nb\"".parse().unwrap();
    assert_eq!(raw.contents, "a\\nb");
    assert_eq!(raw.string_type.prefix, StringPrefix::Raw);
    let triple: GdString = "'''hi'''".parse().unwrap();
    assert!(triple.string_type.triple_quoted);
    assert_eq!(triple.contents, "hi");
    assert_eq!(triple.string_type.quote_type, '\'');
    let empty: GdString = "\"\"".parse().unwrap();
    assert_eq!(empty.contents, "");
    let name: GdString = "&\"tag\"".parse().unwrap();
    assert_eq!(name.string_type.prefix, StringPrefix::StringName);
    let uni: GdString = "\"\\u0041!\"".parse().unwrap();
    assert_eq!(uni.contents, "A!");
    assert!("abc".parse::<GdString>().is_err());
    // The closing delimiter is trimmed by length, not verified, so the
    // final character stands in for it.
    let trimmed: GdString = "\"unterminated".parse().unwrap();
    assert_eq!(trimmed.contents, "unterminate");
    assert!("\"bad\\q\"".parse::<GdString>().is_err());
}

#[test]
fn test_normalize_path() {
    let p = evilcon_sim::ident::normalize_path("/home/proj", "/home/proj/cards/a.gd").unwrap();
    assert_eq!(p.0, "res://cards/a.gd");
    assert_eq!(evilcon_sim::ident::normalize_path("/home/proj", "/home/proj").unwrap().0, "res://");
    assert!(evilcon_sim::ident::normalize_path("/home/proj", "/elsewhere/x.gd").is_none());
}
