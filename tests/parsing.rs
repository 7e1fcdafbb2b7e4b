use botzia::commands::color::Color;
use botzia::commands::quote::Quote;
use botzia::commands::res::Res;
use botzia::commands::time::Convert;

#[test]
fn color_tags() {
    assert_eq!(Color::parse_tag("12, -3 ,200"), Some((12, Some(-3), Some(200))));
    assert_eq!(Color::parse_tag("255"), Some((255, None, None)));
    assert_eq!(Color::parse_tag("  ,1,2 ,"), Some((1, Some(2), None)));
    assert_eq!(Color::parse_tag("1,,2"), Some((1, Some(2), None)));
    assert_eq!(Color::parse_tag("1 2"), None);
    assert_eq!(Color::parse_tag("1,2,3,4"), None);
    assert_eq!(Color::parse_tag("1234"), None);
    assert_eq!(Color::parse_tag("-"), None);
    assert_eq!(Color::parse_tag("1-2"), None);
    assert_eq!(Color::parse_tag(""), None);
    assert_eq!(Color::parse_tag(",,"), None);
    assert_eq!(Color::parse_tag("a"), None);
    assert_eq!(Color::parse_tag("-999,999"), Some((-999, Some(999), None)));
}

#[test]
fn resistance_lists() {
    assert_eq!(Res::parse_resistances("10 20 30"), Some(vec![10, 20, 30]));
    assert_eq!(Res::parse_resistances("10  -5\t+3"), Some(vec![10, -5, 3]));
    assert_eq!(Res::parse_resistances("0 0 5"), Some(vec![0, 0, 5]));
    assert_eq!(Res::parse_resistances("-2147483648"), Some(vec![i32::MIN]));
    assert_eq!(Res::parse_resistances(" 1 2"), None);
    assert_eq!(Res::parse_resistances("1 2 "), None);
    assert_eq!(Res::parse_resistances(""), None);
    assert_eq!(Res::parse_resistances("1 x"), None);
    assert_eq!(Res::parse_resistances("-"), None);
    assert_eq!(Res::parse_resistances("2147483648"), None);
}

#[test]
fn quotes_by_name() {
    let names = vec!["kekw".to_string(), "lol".to_string(), "kekw".to_string()];
    assert_eq!(Quote::find_quote(&names, "kekw"), Some(0));
    assert_eq!(Quote::find_quote(&names, "nope"), None);
    assert_eq!(Quote::key_of("KE KW"), "kekw");
    assert_eq!(Quote::suggestions(&names, "KE KW"), vec![0, 2]);
    let many: Vec<String> = (0..30).map(|_| "x".to_string()).collect();
    assert_eq!(Quote::suggestions(&many, "x").len(), 25);
}

#[test]
fn timestamp_shapes() {
    assert_eq!(Convert::timestamp_parts("12:30"), Some((None, "12:30".to_string())));
    assert_eq!(
        Convert::timestamp_parts("2023-07-10 12:28"),
        Some((Some("2023-07-10".to_string()), "12:28".to_string()))
    );
    assert_eq!(
        Convert::timestamp_parts("2023-07-10T12:28"),
        Some((Some("2023-07-10".to_string()), "12:28".to_string()))
    );
    assert_eq!(Convert::timestamp_parts("2023-07-10  12:28"), None);
    assert_eq!(Convert::timestamp_parts("1:30"), None);
    assert_eq!(Convert::timestamp_parts(""), None);
}

#[test]
fn utc_offsets() {
    assert!(Convert::offset_valid("+02:00"));
    assert!(Convert::offset_valid("-12:00"));
    assert!(Convert::offset_valid("+14:59"));
    assert!(!Convert::offset_valid("-13:00"));
    assert!(!Convert::offset_valid("+15:00"));
    assert!(!Convert::offset_valid("02:00"));
    assert!(!Convert::offset_valid("+2:00"));
}

#[test]
fn date_time_to_unix_time() {
    assert_eq!(Convert::unix_timestamp("2023-07-10", "12:28", "+02:00"), Some(1688984880));
    assert_eq!(Convert::unix_timestamp("2023-07-10", "12:28", "Z"), Some(1688992080));
    assert_eq!(Convert::unix_timestamp("2023-13-40", "12:00", "+00:00"), None);
    assert_eq!(Convert::unix_timestamp("2023-07-10", "12:28", ""), None);
    assert_eq!(Convert::utc_date(0), Some("1970-01-01".to_string()));
    assert_eq!(Convert::utc_date(1688947200000), Some("2023-07-10".to_string()));
    assert_eq!(Convert::utc_date(1688947199999), Some("2023-07-09".to_string()));
}
