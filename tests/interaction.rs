use botzia::interaction::{
    get_subcommand, get_value, page_after, LeafOption, LeafValue, OptionKind, PageStep, SubCommandOption,
    TopOption,
};

fn leaf(name: &str, value: LeafValue) -> LeafOption {
    LeafOption { name: name.to_string(), value }
}

fn text(v: Option<&LeafValue>) -> Option<String> {
    match v {
        Some(LeafValue::String(s)) => Some(s.clone()),
        _ => None,
    }
}

#[test]
fn values_are_read_from_plain_options() {
    let options = vec![
        TopOption::Leaf(leaf("timer", LeafValue::String("5m".to_string()))),
        TopOption::Leaf(leaf("count", LeafValue::Integer(3))),
        TopOption::Leaf(leaf("timer", LeafValue::Integer(9))),
    ];
    assert_eq!(text(get_value(&options, "timer", OptionKind::String)), Some("5m".to_string()));
    assert!(matches!(get_value(&options, "timer", OptionKind::Integer), Some(LeafValue::Integer(9))));
    assert!(matches!(get_value(&options, "count", OptionKind::Integer), Some(LeafValue::Integer(3))));
    assert!(get_value(&options, "count", OptionKind::String).is_none());
    assert!(get_value(&vec![], "count", OptionKind::String).is_none());
    assert!(get_subcommand(&options).is_none());
}

#[test]
fn values_are_read_from_the_subcommand() {
    let options = vec![TopOption::SubCommand(SubCommandOption {
        name: "res".to_string(),
        options: vec![leaf("upgrades", LeafValue::Integer(40)), leaf("fix-slot", LeafValue::Integer(2))],
    })];
    assert!(matches!(get_value(&options, "fix-slot", OptionKind::Integer), Some(LeafValue::Integer(2))));
    assert!(get_value(&options, "res", OptionKind::String).is_none());
    assert_eq!(get_subcommand(&options).unwrap().name, "res");
}

#[test]
fn values_are_read_from_the_first_subcommand_of_a_group() {
    let options = vec![TopOption::Group {
        name: "timezone".to_string(),
        subcommands: vec![
            SubCommandOption { name: "set".to_string(), options: vec![leaf("timezone", LeafValue::String("CET".to_string()))] },
            SubCommandOption { name: "get".to_string(), options: vec![] },
        ],
    }];
    assert_eq!(text(get_value(&options, "timezone", OptionKind::String)), Some("CET".to_string()));
    assert_eq!(get_subcommand(&options).unwrap().name, "set");
    let empty = vec![TopOption::Group { name: "g".to_string(), subcommands: vec![] }];
    assert!(get_subcommand(&empty).is_none());
    assert!(get_value(&empty, "x", OptionKind::Boolean).is_none());
}

#[test]
fn pages_turn_within_bounds() {
    assert_eq!(page_after(3, "⏪", 5), PageStep::Show(0));
    assert_eq!(page_after(0, "◀️", 5), PageStep::Show(0));
    assert_eq!(page_after(2, "◀️", 5), PageStep::Show(1));
    assert_eq!(page_after(4, "▶️", 5), PageStep::Show(4));
    assert_eq!(page_after(1, "▶️", 5), PageStep::Show(2));
    assert_eq!(page_after(1, "⏩", 5), PageStep::Show(4));
    assert_eq!(page_after(1, "⏹️", 5), PageStep::Stop);
    assert_eq!(page_after(1, "👍", 5), PageStep::Ignore);
}
