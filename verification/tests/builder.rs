use grscraper::decimal::parse_decimal;
use grscraper::{Decimal, MetadataRequestBuilder};

fn dec_f32(d: &Decimal) -> f32 {
    d.mantissa as f32 / 10f32.powi(d.scale as i32)
}

#[test]
fn builder_keeps_the_chosen_id() {
    let request = MetadataRequestBuilder::default().with_id("30312855");
    assert_eq!(request.id(), "30312855");
}

#[test]
fn builder_keeps_the_chosen_isbn() {
    let request = MetadataRequestBuilder::new().with_isbn("1481432079");
    assert_eq!(request.isbn(), "1481432079");
}

#[test]
fn builder_keeps_the_chosen_title() {
    let request = MetadataRequestBuilder::default().with_title("Fire");
    assert_eq!(request.title(), "Fire");
}

#[test]
fn builder_keeps_title_and_author() {
    let request = MetadataRequestBuilder::default()
        .with_title("Fire")
        .with_author("Kristin Cashore");
    assert_eq!(request.title(), "Fire");
    assert_eq!(request.author(), "Kristin Cashore");
}

#[test]
fn decimal_parses_whole_numbers() {
    let d = parse_decimal("1").expect("must parse");
    assert_eq!(d, Decimal { mantissa: 1, scale: 0 });
    assert_eq!(dec_f32(&d), 1.0);
    let d = parse_decimal("42").expect("must parse");
    assert_eq!(dec_f32(&d), 42.0);
}

#[test]
fn decimal_parses_fractions_exactly() {
    let d = parse_decimal("1.5").expect("must parse");
    assert_eq!(d, Decimal { mantissa: 15, scale: 1 });
    assert_eq!(dec_f32(&d), 1.5);
    let d = parse_decimal("0.25").expect("must parse");
    assert_eq!(d, Decimal { mantissa: 25, scale: 2 });
}

#[test]
fn decimal_accepts_bare_dot_forms() {
    assert_eq!(parse_decimal("1."), Some(Decimal { mantissa: 1, scale: 0 }));
    assert_eq!(parse_decimal(".5"), Some(Decimal { mantissa: 5, scale: 1 }));
}

#[test]
fn decimal_rejects_what_is_no_number() {
    assert_eq!(parse_decimal(""), None);
    assert_eq!(parse_decimal("."), None);
    assert_eq!(parse_decimal("one"), None);
    assert_eq!(parse_decimal("1.2.3"), None);
    assert_eq!(parse_decimal("-1"), None);
    assert_eq!(parse_decimal("1 "), None);
}

#[test]
fn decimal_rejects_overflowing_mantissas() {
    assert_eq!(parse_decimal("99999999999999999999999"), None);
}
