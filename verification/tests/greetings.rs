use watchbot::greetings::{filters_valid, Greeting, Greetings};

fn greeting() -> Greeting {
    Greeting::new(
        true,
        Some(String::from("John")),
        String::from("Hello, {nick}!"),
    )
}

#[test]
fn plain_matches_are_accepted() {
    assert!(greeting().is_valid("John"));
}

#[test]
fn message_value() {
    assert_eq!("Hello, John!", greeting().message("John"));
}

#[test]
fn iterator_handles_filter_and_passthru_correctly() {
    let greetings = vec![
        Greeting::new(
            false,
            Some(String::from("Jack")),
            String::from("Hit the road, Jack."),
        ),
        greeting(),
        greeting(),
        Greeting::new(false, None, String::from("Hello, {nick}!")),
        greeting(),
    ];

    let mut it = greetings.for_user("John");
    let mut count: usize = 0;
    while let Some(_) = it.next() {
        count += 1;
    }
    assert_eq!(3, count);
}

#[test]
fn chain_yields_rules_in_declaration_order() {
    let rules = vec![
        Greeting::new(
            false,
            Some(String::from("Jack")),
            String::from("Hit the road, Jack."),
        ),
        Greeting::new(true, Some(String::from("John")), String::from("Hi {nick}!")),
        Greeting::new(false, None, String::from("Welcome!")),
    ];

    let collect = |user: &str| {
        let mut it = rules.for_user(user);
        let mut msgs: Vec<String> = Vec::new();
        while let Some(g) = it.next() {
            msgs.push(g.message(user));
        }
        msgs
    };

    assert_eq!(vec![String::from("Hi John!"), String::from("Welcome!")], collect("John"));
    assert_eq!(vec![String::from("Hit the road, Jack.")], collect("Jack"));
    assert_eq!(vec![String::from("Welcome!")], collect("Bob"));
}

#[test]
fn regex_filters_really_match() {
    let rule = Greeting::new(false, Some(String::from("Ja.k")), String::from("m"));
    assert!(rule.is_valid("Jack"));
    assert!(rule.is_valid("Jaxk"));
    assert!(!rule.is_valid("John"));
}

#[test]
fn invalid_filter_matches_nothing_and_fails_validation() {
    let bad = Greeting::new(false, Some(String::from("(")), String::from("m"));
    assert!(!bad.filter_valid());
    assert!(!bad.is_valid("anything"));
    assert!(!filters_valid(&vec![bad]));
    assert!(filters_valid(&vec![greeting(), Greeting::new(false, None, String::from("m"))]));
}

#[test]
fn placeholder_is_replaced_everywhere() {
    let rule = Greeting::new(false, None, String::from("{nick} and {nick} again"));
    assert_eq!("Bob and Bob again", rule.message("Bob"));
}

#[test]
fn cursor_is_not_restartable_after_a_stopping_match() {
    let rules = vec![
        Greeting::new(false, None, String::from("first")),
        Greeting::new(false, None, String::from("second")),
    ];
    let mut it = rules.for_user("anyone");
    assert!(it.next().is_some());
    assert!(it.next().is_none());
    assert!(it.next().is_none());
}
