use clickup_time_in_status_analyzer::services::clickup::timestamps::{
    number_from_text, time_from_text,
};

#[test]
fn whole_numbers_are_read_with_or_without_a_sign() {
    assert_eq!(number_from_text("0"), Some(0));
    assert_eq!(number_from_text("7"), Some(7));
    assert_eq!(number_from_text("1700000000000"), Some(1_700_000_000_000));
    assert_eq!(number_from_text("+5"), Some(5));
    assert_eq!(number_from_text("-5"), Some(-5));
    assert_eq!(number_from_text("-0"), Some(0));
    assert_eq!(number_from_text("0000000000000000000000012"), Some(12));
    assert_eq!(number_from_text("-0000000000000000000000012"), Some(-12));
}

#[test]
fn what_is_not_a_number_is_not_read() {
    for text in ["", "-", "+", "+-5", "--5", "12a", "a12", " 12", "12 ", "1 2", "1.5", "1e3", "１２", "0x10", "1_000"] {
        assert_eq!(number_from_text(text), None, "for {text:?}");
    }
}

#[test]
fn numbers_are_read_up_to_the_ends_of_64_bits() {
    assert_eq!(number_from_text("9223372036854775807"), Some(i64::MAX));
    assert_eq!(number_from_text("+9223372036854775807"), Some(i64::MAX));
    assert_eq!(number_from_text("9223372036854775808"), None);
    assert_eq!(number_from_text("-9223372036854775807"), Some(i64::MIN + 1));
    assert_eq!(number_from_text("-9223372036854775808"), Some(i64::MIN));
    assert_eq!(number_from_text("-9223372036854775809"), None);
    assert_eq!(number_from_text("18446744073709551615"), None);
    assert_eq!(number_from_text("18446744073709551616"), None);
    assert_eq!(number_from_text("99999999999999999999999999999999"), None);
    assert_eq!(number_from_text("-99999999999999999999999999999999"), None);
}

#[test]
fn reading_agrees_with_the_standard_library() {
    let texts = [
        "0", "-1", "+1", "42", "-42", "", "+", "-", "007", "9223372036854775807",
        "9223372036854775808", "-9223372036854775808", "-9223372036854775809", "1a", "a", " 1",
        "92233720368547758070", "1844674407370955161", "18446744073709551620",
    ];
    for text in texts {
        assert_eq!(number_from_text(text), text.parse::<i64>().ok(), "for {text:?}");
    }
}

#[test]
fn a_time_is_a_number_that_the_calendar_knows() {
    assert_eq!(time_from_text("0"), Some(0));
    assert_eq!(time_from_text("1700000000000"), Some(1_700_000_000_000));
    assert_eq!(time_from_text("-86400000"), Some(-86_400_000));
    assert_eq!(time_from_text("9223372036854775807"), None);
    assert_eq!(time_from_text("-9223372036854775808"), None);
    assert_eq!(time_from_text("yesterday"), None);
    assert_eq!(time_from_text(""), None);
}
