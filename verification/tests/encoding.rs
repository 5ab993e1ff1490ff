use whitespace_compiler::specs::whitespace::decode_number;
use whitespace_compiler::specs::whitespace::encode_number;
use whitespace_compiler::specs::whitespace::number_to_label;
use whitespace_compiler::util::decimal_string;
use whitespace_compiler::util::str_eq;
use whitespace_compiler::util::unbleach;

#[test]
fn positive_number() {
    let input = 823;
    let expect = "sttssttstttn";
    let actual = encode_number(input);
    assert_eq!(expect, unbleach(actual));
}

#[test]
fn negative_number() {
    let input = -823;
    let expect = "tttssttstttn";
    let actual = encode_number(input);
    assert_eq!(expect, unbleach(actual));
}

#[test]
fn zero_encodes_as_one_space_digit() {
    assert_eq!("ssn", unbleach(encode_number(0)));
}

#[test]
fn decode_undoes_encode() {
    for n in [0, 1, -1, 2, 10, 823, -823, 1 << 30, i32::MAX, i32::MIN + 1] {
        let text = encode_number(n);
        assert_eq!(decode_number(text.as_str()), Some(n));
    }
}

#[test]
fn decode_rejects_malformed_text() {
    assert_eq!(decode_number(""), None);
    assert_eq!(decode_number(" \n"), None);
    assert_eq!(decode_number("x \t\n"), None);
    assert_eq!(decode_number(" \tx\n"), None);
    assert_eq!(decode_number(" \t\t"), None);
    // one bit too large for the machine's integers
    assert_eq!(decode_number(" \t                               \n"), None);
}

#[test]
fn labels_have_no_sign_cell() {
    assert_eq!("n", unbleach(number_to_label(&0)));
    assert_eq!("tn", unbleach(number_to_label(&1)));
    assert_eq!("ttssttstttn", unbleach(number_to_label(&823)));
    assert_eq!("n", unbleach(number_to_label(&-5)));
}

#[test]
fn decimal_rendering() {
    assert_eq!(decimal_string(0), "0");
    assert_eq!(decimal_string(11), "11");
    assert_eq!(decimal_string(-823), "-823");
    assert_eq!(decimal_string(i32::MAX), "2147483647");
}

#[test]
fn unbleach_keeps_order_and_drops_strangers() {
    assert_eq!(unbleach(String::from(" \t\nx \t")), "stnst");
}

#[test]
fn str_eq_compares_contents() {
    assert!(str_eq("read", "read"));
    assert!(!str_eq("read", "read "));
    assert!(!str_eq("read", "reaD"));
}
