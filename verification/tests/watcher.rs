use watchbot::config::{Bot, Config, Logging, Server, ServerChannel, Twilio, User};
use watchbot::greetings::Greeting;
use watchbot::messages::{Dispatch, OutgoingMessage};
use watchbot::notifications::NotificationSink;
use watchbot::watcher::{set_debug, set_nick, Watcher};

struct OkSink;

impl NotificationSink for OkSink {
    fn send_message(&self, _recipient: &str, _message: &str) -> Result<(), String> {
        Ok(())
    }
}

fn config() -> Config {
    Config {
        bot: Bot {
            admin: vec![String::from("boss")],
            message_frequency: 60,
            watch_list: vec![String::from("spy")],
        },
        server: Server {
            address: String::from("irc.example.net"),
            channels: vec![
                ServerChannel {
                    name: String::from("#hq"),
                    topic: Some(String::from("welcome home")),
                    admin: true,
                    log_chat: true,
                },
                ServerChannel {
                    name: String::from("#open"),
                    topic: None,
                    admin: false,
                    log_chat: false,
                },
            ],
            greetings: vec![
                Greeting::new(true, Some(String::from("John")), String::from("Hi {nick}!")),
                Greeting::new(false, None, String::from("Welcome!")),
            ],
        },
        user: User {
            nick: String::from("watchbot"),
            user: String::from("watchbot"),
            real: String::from("the watcher"),
        },
        twilio: Twilio {
            sid: String::from("sid"),
            token: String::from("token"),
            number: String::from("+15550001"),
            recipient: String::from("+15550002"),
        },
        logging: Some(Logging {
            path: String::from("logs"),
        }),
    }
}

fn watcher() -> Watcher<OkSink> {
    Watcher::from_config(&config(), OkSink)
}

#[test]
fn non_admin_nick_change_is_silently_dropped() {
    let mut w = watcher();
    let d = w.handle_command("random", "#open", ".nick evil");
    assert!(matches!(d, Dispatch::Silent));
    assert_eq!("watchbot", w.nick());
}

#[test]
fn admin_nick_change_mutates_state_and_replies() {
    let mut w = watcher();
    match w.handle_command("boss", "#open", ".nick sentry") {
        Dispatch::Reply(OutgoingMessage::Nick(n)) => assert_eq!("sentry", n),
        _ => panic!("expected a nick action"),
    }
    assert_eq!("sentry", w.nick());
}

#[test]
fn debug_toggle_is_admin_only() {
    let mut w = watcher();
    assert!(!w.debug());

    assert!(matches!(
        w.handle_command("random", "#open", ".debug true"),
        Dispatch::Silent
    ));
    assert!(!w.debug());

    match w.handle_command("boss", "#open", ".debug true") {
        Dispatch::Reply(OutgoingMessage::PrivateMessage { recipient, content }) => {
            assert_eq!("boss", recipient);
            assert_eq!("debug mode set to true", content);
        }
        _ => panic!("expected a private acknowledgement"),
    }
    assert!(w.debug());
}

#[test]
fn join_and_leave_mutate_the_channel_list() {
    let mut w = watcher();
    assert!(!w.knows_channel("#new"));

    assert!(matches!(
        w.handle_command("random", "#open", ".join #new"),
        Dispatch::Silent
    ));
    assert!(!w.knows_channel("#new"));

    match w.handle_command("boss", "#open", ".join #new") {
        Dispatch::Reply(OutgoingMessage::Join(c)) => assert_eq!("#new", c),
        _ => panic!("expected a join action"),
    }
    assert!(w.knows_channel("#new"));

    // Joining a known channel is a silent no-op.
    assert!(matches!(
        w.handle_command("boss", "#open", ".join #new"),
        Dispatch::Silent
    ));

    match w.handle_command("boss", "#open", ".leave #new") {
        Dispatch::Reply(OutgoingMessage::Part(c)) => assert_eq!("#new", c),
        _ => panic!("expected a part action"),
    }
    assert!(!w.knows_channel("#new"));
}

#[test]
fn topic_change_is_admin_only_and_stateless() {
    let mut w = watcher();
    assert!(matches!(
        w.handle_command("random", "#hq", ".topic the new order"),
        Dispatch::Silent
    ));
    match w.handle_command("boss", "#hq", ".topic the new order") {
        Dispatch::Reply(OutgoingMessage::Topic { channel, topic }) => {
            assert_eq!("#hq", channel);
            assert_eq!("the new order", topic);
        }
        _ => panic!("expected a topic action"),
    }
}

#[test]
fn content_commands_are_unauthenticated() {
    let mut w = watcher();
    assert!(matches!(
        w.handle_command("random", "#open", ".chuck"),
        Dispatch::FetchChuck
    ));
    assert!(matches!(
        w.handle_command("random", "#open", ".cookie"),
        Dispatch::FetchCookie
    ));
    match w.handle_command("random", "#open", ".quote inspire") {
        Dispatch::FetchQuote(Some(category)) => assert_eq!("inspire", category),
        _ => panic!("expected a quote fetch"),
    }
    match w.handle_command("random", "#open", ".roll 2d1") {
        Dispatch::Reply(OutgoingMessage::ChannelMessage { channel, content }) => {
            assert_eq!("#open", channel);
            assert_eq!("random rolled 1, 1 (2)", content);
        }
        _ => panic!("expected a roll reply"),
    }
    assert!(matches!(
        w.handle_command("random", "#open", ".messages"),
        Dispatch::ShowSent
    ));
}

#[test]
fn bot_ignores_its_own_join() {
    let mut w = watcher();
    let (acts, note) = w.user_join("#hq", "watchbot", 1000);
    assert!(note.is_none());
    assert!(acts.is_empty());
    assert!(w.sent_records().is_empty());
}

#[test]
fn admin_joining_admin_channel_gets_op_and_greeting() {
    let mut w = watcher();
    let (acts, note) = w.user_join("#hq", "boss", 1000);
    assert!(matches!(note, Some(Ok(()))));
    assert_eq!(2, acts.len());
    match &acts[0] {
        OutgoingMessage::Raw(line) => assert_eq!("MODE #hq +o boss", line),
        _ => panic!("expected the op grant"),
    }
    match &acts[1] {
        OutgoingMessage::ChannelMessage { channel, content } => {
            assert_eq!("#hq", channel);
            assert_eq!("Welcome!", content);
        }
        _ => panic!("expected the greeting"),
    }
    // The join of an admin channel was reported to the gateway.
    assert_eq!(1, w.sent_records().len());
    assert_eq!((String::from("boss"), 1000), w.sent_records()[0]);
}

#[test]
fn passthrough_greetings_compose_in_order() {
    let mut w = watcher();
    let (acts, _) = w.user_join("#hq", "John", 1000);
    assert_eq!(1, acts.len());
    match &acts[0] {
        OutgoingMessage::ChannelMessage { content, .. } => {
            assert_eq!("Hi John! Welcome!", content)
        }
        _ => panic!("expected the composed greeting"),
    }
}

#[test]
fn watched_user_join_is_notified_without_greeting() {
    let mut w = watcher();
    let (acts, note) = w.user_join("#open", "spy", 1000);
    assert!(matches!(note, Some(Ok(()))));
    assert!(acts.is_empty());
    assert_eq!(1, w.sent_records().len());
    assert_eq!((String::from("spy"), 1000), w.sent_records()[0]);

    // An unwatched user in a plain channel triggers nothing.
    let (acts, note) = w.user_join("#open", "nobody", 1001);
    assert!(note.is_none());
    assert!(acts.is_empty());
    assert_eq!(1, w.sent_records().len());
}

#[test]
fn private_messages_reply_afk_and_notify() {
    let mut w = watcher();
    let (d, note) = w.private_message("carol", "you there?", 1000);
    assert!(matches!(note, Some(Ok(()))));
    match d {
        Dispatch::Reply(OutgoingMessage::PrivateMessage { recipient, content }) => {
            assert_eq!("carol", recipient);
            assert_eq!("AFK", content);
        }
        _ => panic!("expected the away reply"),
    }
    assert_eq!(1, w.sent_records().len());
    assert_eq!((String::from("carol"), 1000), w.sent_records()[0]);
}

#[test]
fn private_command_lines_are_dispatched_with_sender_context() {
    let mut w = watcher();
    assert!(matches!(
        w.private_message("carol", ".chuck", 1000),
        (Dispatch::FetchChuck, Some(Ok(())))
    ));
    // The notification about the private message is still recorded.
    assert_eq!(1, w.sent_records().len());
}

#[test]
fn service_identities_are_ignored_entirely() {
    let mut w = watcher();
    assert!(matches!(
        w.private_message("StatServ", "stats!", 1000),
        (Dispatch::Silent, None)
    ));
    assert!(w.sent_records().is_empty());
}

#[test]
fn channel_chat_is_not_a_command() {
    let mut w = watcher();
    assert!(matches!(
        w.channel_message("carol", "#open", "just chatting"),
        Dispatch::Silent
    ));
    assert!(matches!(
        w.channel_message("carol", "#open", ".cookie"),
        Dispatch::FetchCookie
    ));
}

#[test]
fn welcome_joins_all_channels_and_sets_admin_topics() {
    let w = watcher();
    let acts = w.welcome();
    assert_eq!(3, acts.len());
    match &acts[0] {
        OutgoingMessage::Join(c) => assert_eq!("#hq", c),
        _ => panic!("expected a join"),
    }
    match &acts[1] {
        OutgoingMessage::Topic { channel, topic } => {
            assert_eq!("#hq", channel);
            assert_eq!("welcome home", topic);
        }
        _ => panic!("expected the admin topic"),
    }
    match &acts[2] {
        OutgoingMessage::Join(c) => assert_eq!("#open", c),
        _ => panic!("expected a join"),
    }
}

#[test]
fn logging_follows_path_and_channel_flag() {
    let w = watcher();
    assert!(w.logging());
    assert!(w.should_log("#hq"));
    assert!(!w.should_log("#open"));
    assert!(!w.should_log("#unknown"));

    let mut cfg = config();
    cfg.logging = None;
    let w2: Watcher<OkSink> = Watcher::from_config(&cfg, OkSink);
    assert!(!w2.logging());
    assert!(!w2.should_log("#hq"));
}

#[test]
fn command_helpers_check_the_sender() {
    let mut w = watcher();
    assert!(set_nick(&mut w, "random", String::from("evil")).is_none());
    assert_eq!("watchbot", w.nick());
    assert!(set_debug(&mut w, "boss", true).is_some());
    assert!(w.debug());
}

#[test]
fn membership_checks() {
    let w = watcher();
    assert!(w.is_admin("boss"));
    assert!(!w.is_admin("random"));
    assert!(w.watching("spy"));
    assert!(!w.watching("boss"));
    assert!(w.admin_channel("#hq"));
    assert!(!w.admin_channel("#open"));
    assert!(!w.admin_channel("#nowhere"));
}

#[test]
fn greeting_text_composes_or_stays_silent() {
    let w = watcher();
    assert_eq!(Some(String::from("Hi John! Welcome!")), w.greet_user("John"));
    assert_eq!(Some(String::from("Welcome!")), w.greet_user("Bob"));

    let mut cfg = config();
    cfg.server.greetings = vec![Greeting::new(
        false,
        Some(String::from("Jack")),
        String::from("Hit the road, Jack."),
    )];
    let w2: Watcher<OkSink> = Watcher::from_config(&cfg, OkSink);
    assert_eq!(None, w2.greet_user("Bob"));
}
