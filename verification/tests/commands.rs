use watchbot::command::{Command, DiceRoll};
use watchbot::commands::{chuck, cookie, format_dice_results, list_commands, quote, roll};
use watchbot::messages::OutgoingMessage;

#[test]
fn known_keywords_parse() {
    assert!(matches!(Command::from_str(".chuck"), Some(Command::Chuck)));
    assert!(matches!(Command::from_str(".cookie"), Some(Command::Cookie)));
    assert!(matches!(
        Command::from_str(".quote"),
        Some(Command::Quote(None))
    ));
    assert!(matches!(Command::from_str(".kill"), Some(Command::Kill)));
    assert!(matches!(
        Command::from_str(".list-messages"),
        Some(Command::ListMessages)
    ));
    assert!(matches!(
        Command::from_str(".messages"),
        Some(Command::ListMessages)
    ));
}

#[test]
fn quote_takes_an_optional_category() {
    match Command::from_str(".quote inspire") {
        Some(Command::Quote(Some(category))) => assert_eq!("inspire", category),
        _ => panic!("expected a categorized quote command"),
    }
    assert!(Command::from_str(".quote a b").is_none());
}

#[test]
fn unknown_or_malformed_lines_are_no_command() {
    assert!(Command::from_str("hello there").is_none());
    assert!(Command::from_str("").is_none());
    assert!(Command::from_str(".bogus").is_none());
    assert!(Command::from_str(".chuck extra").is_none());
    assert!(Command::from_str(".nick").is_none());
    assert!(Command::from_str(".nick a b").is_none());
}

#[test]
fn admin_keywords_parse_with_their_argument() {
    match Command::from_str(".nick watcher2") {
        Some(Command::SetNick(n)) => assert_eq!("watcher2", n),
        _ => panic!("expected a nick change"),
    }
    match Command::from_str(".join #lounge") {
        Some(Command::JoinChannel(c)) => assert_eq!("#lounge", c),
        _ => panic!("expected a channel join"),
    }
    match Command::from_str(".leave #lounge") {
        Some(Command::LeaveChannel(c)) => assert_eq!("#lounge", c),
        _ => panic!("expected a channel leave"),
    }
    match Command::from_str(".topic now we know") {
        Some(Command::SetTopic(t)) => assert_eq!("now we know", t),
        _ => panic!("expected a topic change"),
    }
    assert!(matches!(
        Command::from_str(".debug true"),
        Some(Command::SetDebug(true))
    ));
    assert!(matches!(
        Command::from_str(".debug false"),
        Some(Command::SetDebug(false))
    ));
    // Anything that is not literally "true" disables, as a failed bool parse.
    assert!(matches!(
        Command::from_str(".debug maybe"),
        Some(Command::SetDebug(false))
    ));
}

#[test]
fn dice_words_parse_and_default() {
    match Command::from_str(".roll 2d6 1d20") {
        Some(Command::Roll(dice)) => {
            assert_eq!(2, dice.len());
            assert_eq!(DiceRoll { count: 2, sides: 6 }, dice[0]);
            assert_eq!(
                DiceRoll {
                    count: 1,
                    sides: 20
                },
                dice[1]
            );
        }
        _ => panic!("expected a roll"),
    }
    // No parsable dice word: one six-sided die.
    match Command::from_str(".roll") {
        Some(Command::Roll(dice)) => {
            assert_eq!(vec![DiceRoll { count: 1, sides: 6 }], dice);
        }
        _ => panic!("expected the default roll"),
    }
    match Command::from_str(".roll garbage") {
        Some(Command::Roll(dice)) => {
            assert_eq!(vec![DiceRoll { count: 1, sides: 6 }], dice);
        }
        _ => panic!("expected the default roll"),
    }
}

#[test]
fn malformed_dice_words_are_skipped() {
    match Command::from_str(".roll d6 2d 0d6 3d0 4d4") {
        Some(Command::Roll(dice)) => {
            assert_eq!(vec![DiceRoll { count: 4, sides: 4 }], dice);
        }
        _ => panic!("expected a roll"),
    }
}

#[test]
fn dice_results_format_with_commas() {
    assert_eq!("3, 4, 5", format_dice_results(&vec![3, 4, 5]));
    assert_eq!("7", format_dice_results(&vec![7]));
    assert_eq!("", format_dice_results(&vec![]));
    assert_eq!("4294967295", format_dice_results(&vec![u32::MAX]));
}

#[test]
fn one_sided_dice_roll_deterministically() {
    let dice = vec![DiceRoll { count: 3, sides: 1 }];
    match roll("#game", "bob", &dice) {
        OutgoingMessage::ChannelMessage { channel, content } => {
            assert_eq!("#game", channel);
            assert_eq!("bob rolled 1, 1, 1 (3)", content);
        }
        _ => panic!("expected a channel message"),
    }
}

#[test]
fn rolled_values_stay_in_range() {
    let dice = vec![DiceRoll { count: 1, sides: 6 }];
    for _ in 0..50 {
        match roll("#game", "bob", &dice) {
            OutgoingMessage::ChannelMessage { content, .. } => {
                let value: u32 = content
                    .strip_prefix("bob rolled ")
                    .and_then(|rest| rest.split(' ').next())
                    .and_then(|v| v.parse().ok())
                    .expect("a rolled value");
                assert!((1..=6).contains(&value));
            }
            _ => panic!("expected a channel message"),
        }
    }
}

#[test]
fn content_builders_fall_back_to_canned_text() {
    match chuck("#c", Some(String::from("A fresh joke."))) {
        OutgoingMessage::ChannelMessage { channel, content } => {
            assert_eq!("#c", channel);
            assert_eq!("A fresh joke.", content);
        }
        _ => panic!("expected a channel message"),
    }
    match chuck("#c", None) {
        OutgoingMessage::ChannelMessage { content, .. } => assert_eq!(
            "No one really knows Chuck Norris. Not even Chuck Norris!",
            content
        ),
        _ => panic!("expected a channel message"),
    }
    match cookie("#c", None) {
        OutgoingMessage::ChannelMessage { content, .. } => assert_eq!(
            "Man who run in front of car get tired. Man who run behind car get exhausted.",
            content
        ),
        _ => panic!("expected a channel message"),
    }
    match quote("#c", Some((String::from("Talk low."), String::from("John Wayne")))) {
        OutgoingMessage::ChannelMessage { content, .. } => {
            assert_eq!("Talk low. -John Wayne", content)
        }
        _ => panic!("expected a channel message"),
    }
    match quote("#c", None) {
        OutgoingMessage::ChannelMessage { content, .. } => assert_eq!(
            "Talk low, talk slow, and don't say too much. -John Wayne",
            content
        ),
        _ => panic!("expected a channel message"),
    }
    match list_commands("#c") {
        OutgoingMessage::ChannelMessage { content, .. } => {
            assert_eq!(".chuck .cookie .quote .quote <category> .roll <1d6>", content)
        }
        _ => panic!("expected a channel message"),
    }
}
