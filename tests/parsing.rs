use clowbot::commands::Marker;
use clowbot::data::{BookOfAnswers, Data, Dice, DrawClowcard, RandomPick, RelationshipCalculator};
use clowbot::interaction::{CommandDataOption, CommandOptionValue, Interaction, InteractionData};
use clowbot::text::{parse_unsigned, split_ascii_whitespace, split_on, trim};

#[test]
fn dice_text_resets_out_of_range() {
    assert_eq!(Dice::from_text("0").amount, 1);
    assert_eq!(Dice::from_text("abc").amount, 1);
    assert_eq!(Dice::from_text("500").amount, 1);
    assert_eq!(Dice::from_text("").amount, 1);
    assert_eq!(Dice::from_text("7").amount, 7);
    assert_eq!(Dice::from_text("100").amount, 100);
    assert_eq!(Dice::from_text("101").amount, 1);
    assert_eq!(Dice::from_text("99999999999999999999").amount, 1);
}

#[test]
fn pick_text_needs_two_choices() {
    let p = RandomPick::from_text("a;b").ok().unwrap();
    assert_eq!(p.choices, vec!["a".to_string(), "b".to_string()]);
    assert!(!p.show_prompt);
    assert!(RandomPick::from_text("a").is_err());
    let p = RandomPick::from_text(" a ; b ").ok().unwrap();
    assert_eq!(p.choices, vec!["a".to_string(), "b".to_string()]);
    assert!(RandomPick::from_text("a; ").is_err());
    let p = RandomPick::from_text("x;;y;z").ok().unwrap();
    assert_eq!(p.choices.len(), 4);
    let p = RandomPick::from_text("a;;b").ok().unwrap();
    assert_eq!(p.choices, vec!["a".to_string(), "".to_string(), "b".to_string()]);
    let p = RandomPick::from_text("a;").ok();
    assert!(p.is_none());
}

#[test]
fn answers_text_empty_is_no_prompt() {
    let b = BookOfAnswers::from_text("");
    assert!(b.prompt.is_none());
    assert!(!b.show_prompt);
    let b = BookOfAnswers::from_text("will it rain");
    assert_eq!(b.prompt.as_deref(), Some("will it rain"));
}

#[test]
fn draw_text_amount_and_prompt() {
    let d = DrawClowcard::from_text("3 my future");
    assert_eq!(d.amount, Some(3));
    assert_eq!(d.prompt.as_deref(), Some("my future"));
    let d = DrawClowcard::from_text("3");
    assert_eq!(d.amount, Some(3));
    assert!(d.prompt.is_none());
    let d = DrawClowcard::from_text("0 luck");
    assert_eq!(d.amount, None);
    assert_eq!(d.prompt.as_deref(), Some("0 luck"));
    let d = DrawClowcard::from_text("");
    assert_eq!(d.amount, None);
    assert!(d.prompt.is_none());
    let mut d = DrawClowcard::from_text("9");
    d.clamp();
    assert_eq!(d.amount, Some(5));
}

#[test]
fn relationship_text_reads_mentions() {
    let r = RelationshipCalculator::from_text("<@123> and <@!456> <@789>");
    assert_eq!(r.targets, vec![123, 456]);
    let mut r = RelationshipCalculator::from_text("hello <@42>");
    assert_eq!(r.targets, vec![42]);
    r.fill(7);
    assert_eq!(r.targets, vec![7, 42]);
    let mut r = RelationshipCalculator::from_text("<@0> nothing");
    assert!(r.targets.is_empty());
    r.fill(9);
    assert_eq!(r.targets, vec![9, 9]);
}

#[test]
fn marker_aliases() {
    assert_eq!(Marker::from_name("pick"), Some(Marker::RandomPick));
    assert_eq!(Marker::from_name("choose"), Some(Marker::RandomPick));
    assert_eq!(Marker::from_name("dc"), Some(Marker::DrawClowcard));
    assert_eq!(Marker::from_name("lc"), Some(Marker::RelationshipCalculator));
    assert_eq!(Marker::from_name("boa"), Some(Marker::BookOfAnswers));
    assert_eq!(Marker::from_name("dice"), Some(Marker::Dice));
    assert_eq!(Marker::from_name("about"), Some(Marker::About));
    assert_eq!(Marker::from_name("Pick"), None);
    assert_eq!(Marker::from_name(""), None);
}

#[test]
fn message_surface() {
    assert!(matches!(Data::from_message("hello", 1), Data::Nothing));
    assert!(matches!(Data::from_message("~unknown x", 1), Data::Nothing));
    assert!(matches!(Data::from_message("~pick a", 1), Data::Nothing));
    match Data::from_message("~  pick  a;b", 1) {
        Data::RandomPick(p) => assert_eq!(p.choices, vec!["a".to_string(), "b".to_string()]),
        _ => panic!("expected a pick"),
    }
    match Data::from_message("~boa", 5) {
        Data::BookOfAnswers(b) => {
            assert!(b.prompt.is_none());
            assert!(!b.show_prompt);
            assert_eq!(b.author, Some(5));
        }
        _ => panic!("expected the book of answers"),
    }
    match Data::from_message("~dice 500", 5) {
        Data::Dice(d) => assert_eq!(d.amount, 1),
        _ => panic!("expected dice"),
    }
    match Data::from_message("~dc 12 love", 8) {
        Data::DrawClowcard(d) => {
            assert_eq!(d.amount, Some(5));
            assert_eq!(d.prompt.as_deref(), Some("love"));
            assert_eq!(d.author, Some(8));
        }
        _ => panic!("expected a draw"),
    }
    match Data::from_message("~lc <@30> <@20>", 8) {
        Data::LoveCalculator(lc) => assert_eq!(lc.targets, vec![20, 30]),
        _ => panic!("expected a relationship"),
    }
    assert!(matches!(Data::from_message("~about", 1), Data::About(_)));
}

fn user_option(name: &str, id: u64) -> CommandDataOption {
    CommandDataOption { name: name.to_string(), value: CommandOptionValue::User(id) }
}

fn command(name: &str, options: Vec<CommandDataOption>, author: u64) -> Interaction {
    Interaction {
        author: Some(author),
        data: Some(InteractionData::ApplicationCommand { name: name.to_string(), options }),
    }
}

#[test]
fn relationship_self_pair() {
    let itr = command("relacalc", vec![user_option("user", 5)], 5);
    match Data::from_interaction(&itr) {
        Data::LoveCalculator(lc) => assert_eq!(lc.targets, vec![5, 5]),
        _ => panic!("expected a relationship"),
    }
}

#[test]
fn relationship_structured_sorted() {
    let itr = command("relacalc", vec![user_option("user", 50), user_option("another_user", 4)], 9);
    match Data::from_interaction(&itr) {
        Data::LoveCalculator(lc) => assert_eq!(lc.targets, vec![4, 50]),
        _ => panic!("expected a relationship"),
    }
    let itr = command("relacalc", vec![user_option("user", 50)], 9);
    match Data::from_interaction(&itr) {
        Data::LoveCalculator(lc) => assert_eq!(lc.targets, vec![9, 50]),
        _ => panic!("expected a relationship"),
    }
}

#[test]
fn structured_commands() {
    let opts = vec![
        CommandDataOption { name: "opt-1".to_string(), value: CommandOptionValue::String("x".to_string()) },
        CommandDataOption { name: "opt-2".to_string(), value: CommandOptionValue::String("y".to_string()) },
    ];
    match Data::from_interaction(&command("pick", opts, 1)) {
        Data::RandomPick(p) => {
            assert_eq!(p.choices, vec!["x".to_string(), "y".to_string()]);
            assert!(p.show_prompt);
        }
        _ => panic!("expected a pick"),
    }
    let opts = vec![
        CommandDataOption { name: "amount".to_string(), value: CommandOptionValue::Integer(9) },
        CommandDataOption { name: "prompt".to_string(), value: CommandOptionValue::String("q".to_string()) },
    ];
    match Data::from_interaction(&command("drawclow", opts, 3)) {
        Data::DrawClowcard(d) => {
            assert_eq!(d.amount, Some(5));
            assert_eq!(d.prompt.as_deref(), Some("q"));
            assert_eq!(d.author, Some(3));
        }
        _ => panic!("expected a draw"),
    }
    for (given, want) in [(0i64, 1usize), (-4, 1), (3, 3), (i64::MAX, 5)] {
        let opts = vec![CommandDataOption { name: "amount".to_string(), value: CommandOptionValue::Integer(given) }];
        match Data::from_interaction(&command("drawclow", opts, 3)) {
            Data::DrawClowcard(d) => assert_eq!(d.amount, Some(want)),
            _ => panic!("expected a draw"),
        }
    }
    let opts = vec![CommandDataOption { name: "amount".to_string(), value: CommandOptionValue::Integer(0) }];
    assert!(matches!(Data::from_interaction(&command("dice", opts, 3)), Data::Error(_)));
    let opts = vec![CommandDataOption { name: "amount".to_string(), value: CommandOptionValue::Integer(30) }];
    match Data::from_interaction(&command("dice", opts, 3)) {
        Data::Dice(d) => assert_eq!(d.amount, 30),
        _ => panic!("expected dice"),
    }
    match Data::from_interaction(&command("dice", vec![], 3)) {
        Data::Dice(d) => assert_eq!(d.amount, 1),
        _ => panic!("expected dice"),
    }
    let opts = vec![CommandDataOption { name: "user".to_string(), value: CommandOptionValue::Integer(4) }];
    match Data::from_interaction(&command("relacalc", opts, 3)) {
        Data::Error(e) => assert_eq!(e.error, "malformed arguments"),
        _ => panic!("expected an error"),
    }
    match Data::from_interaction(&command("nope", vec![], 3)) {
        Data::Error(e) => assert_eq!(e.error, "unknown command"),
        _ => panic!("expected an error"),
    }
    let itr = Interaction { author: Some(1), data: None };
    match Data::from_interaction(&itr) {
        Data::Error(e) => assert_eq!(e.error, "unsupported command type"),
        _ => panic!("expected an error"),
    }
    let itr = Interaction { author: None, data: Some(InteractionData::Other) };
    match Data::from_interaction(&itr) {
        Data::Error(e) => assert_eq!(e.error, "command should come from a user"),
        _ => panic!("expected an error"),
    }
    let itr = Interaction { author: Some(1), data: Some(InteractionData::Other) };
    assert!(matches!(Data::from_interaction(&itr), Data::Error(_)));
}

#[test]
fn text_helpers() {
    assert_eq!(trim("\u{3000} a b \n"), "a b");
    assert_eq!(split_on("a;b;", ';'), vec!["a", "b", ""]);
    assert_eq!(split_ascii_whitespace("  x\ty  z "), vec!["x", "y", "z"]);
    assert_eq!(parse_unsigned("+12", 100), Some(12));
    assert_eq!(parse_unsigned("+", 100), None);
    assert_eq!(parse_unsigned("101", 100), None);
    assert_eq!(parse_unsigned("18446744073709551615", u64::MAX), Some(u64::MAX));
    assert_eq!(parse_unsigned("18446744073709551616", u64::MAX), None);
    assert_eq!(parse_unsigned("1a", 100), None);
}
