use personal_finance_tracker::money::{Money, MoneyError};

#[test]
fn parse_reads_mantissa_and_scale() {
    let m = Money::parse("45.45").unwrap();
    assert_eq!(m.mantissa, 4545);
    assert_eq!(m.scale, 2);
}

#[test]
fn parse_rejects_text_that_is_no_number() {
    assert_eq!(Money::parse("abc"), Err(MoneyError::Malformed));
    assert_eq!(Money::parse(""), Err(MoneyError::Malformed));
}

#[test]
fn format_writes_every_place() {
    let m = Money::new(-4545, 2).unwrap();
    assert_eq!(m.format(), "-45.45");
    assert_eq!(Money::new(7000, 2).unwrap().format(), "70.00");
}
