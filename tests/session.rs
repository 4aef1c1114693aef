use hsb::card::CardData;
use hsb::deck::DeckData;
use hsb::error::DecodeError;
use hsb::session::{run, Action, Authorization, Event, MimironArgs, Session, SessionError};
use hsb::taxonomy::ClassData;

fn args(card_name: Option<Vec<&str>>, deck: Option<&str>, token: bool) -> MimironArgs {
    MimironArgs {
        card_name: card_name.map(|v| v.into_iter().map(String::from).collect()),
        deck: deck.map(String::from),
        token,
    }
}

fn auth() -> Authorization {
    Authorization {
        access_token: "tok123".to_string(),
        expires_in: 86399,
        token_type: "bearer".to_string(),
    }
}

#[test]
fn credentials_are_base64_without_padding() {
    let (next, action) = run(
        Session::Start(args(None, None, true)),
        Event::Credentials { client_id: "id".to_string(), client_secret: "secret".to_string() },
    );
    assert!(matches!(next, Session::AwaitingToken(_)));
    match action {
        Action::RequestToken { credentials } => assert_eq!(credentials, "aWQ6c2VjcmV0"),
        other => panic!("unexpected {other:?}"),
    }
    let (_, action) = run(
        Session::Start(args(None, None, true)),
        Event::Credentials { client_id: "ab".to_string(), client_secret: "c".to_string() },
    );
    assert!(matches!(action, Action::RequestToken { credentials } if credentials == "YWI6Yw"));
}

#[test]
fn token_mode_prints_the_token() {
    let (next, action) = run(Session::AwaitingToken(args(Some(vec!["x"]), None, true)), Event::Token(auth()));
    assert!(matches!(next, Session::Finished));
    assert!(matches!(action, Action::Print { text } if text == "tok123"));
}

#[test]
fn card_mode_searches_joined_words() {
    let (next, action) = run(
        Session::AwaitingToken(args(Some(vec!["ragnaros", "the", "firelord"]), None, false)),
        Event::Token(auth()),
    );
    assert!(matches!(next, Session::AwaitingCards));
    assert!(matches!(action, Action::SearchCards { text_filter, access_token }
        if text_filter == "ragnaros the firelord" && access_token == "tok123"));
}

#[test]
fn deck_mode_fetches_the_deck() {
    let (next, action) = run(Session::AwaitingToken(args(None, Some("AAEC"), false)), Event::Token(auth()));
    assert!(matches!(next, Session::AwaitingDeck));
    assert!(matches!(action, Action::FetchDeck { code, access_token } if code == "AAEC" && access_token == "tok123"));
    let (next, action) = run(Session::AwaitingToken(args(None, None, false)), Event::Token(auth()));
    assert!(matches!(next, Session::Finished));
    assert!(matches!(action, Action::Done));
}

fn record(id: usize, card_type_id: u8) -> CardData {
    CardData {
        id,
        card_type_id,
        class_id: 12,
        multi_class_ids: vec![],
        rarity_id: 1,
        card_set_id: 2,
        name: format!("C{id}"),
        text: "t".to_string(),
        mana_cost: 1,
        rune_cost: None,
        attack: None,
        health: None,
        durability: None,
        armor: None,
        minion_type_id: None,
        multi_type_ids: None,
        spell_school_id: None,
        image: "i".to_string(),
        copy_of_card_id: None,
    }
}

#[test]
fn card_reply_is_listed_or_rejected() {
    let (next, action) = run(Session::AwaitingCards, Event::Cards(vec![record(1, 5)]));
    assert!(matches!(next, Session::Finished));
    assert!(matches!(action, Action::Print { text } if text == "C1 common Neutral 1 mana spell.\nSet 2.\nt\nImage: i\n"));
    let (_, action) = run(Session::AwaitingCards, Event::Cards(vec![record(1, 5), record(2, 99)]));
    assert!(matches!(action, Action::Fail { error: SessionError::Decode(DecodeError::UnknownCardType { id: 99 }) }));
}

#[test]
fn deck_reply_is_rendered() {
    let d = DeckData {
        deck_code: "CODE".to_string(),
        format: "wild".to_string(),
        class: ClassData { id: 2 },
        cards: vec![record(1, 5)],
        sideboard_cards: None,
    };
    let (_, action) = run(Session::AwaitingDeck, Event::Deck(d));
    assert!(matches!(action, Action::Print { text } if text == "wild Druid deck.\nCODE\n    C1 common Neutral 1 mana spell.\n"));
}

#[test]
fn out_of_place_event_fails() {
    let (next, action) = run(Session::AwaitingDeck, Event::Token(auth()));
    assert!(matches!(next, Session::Finished));
    assert!(matches!(action, Action::Fail { error: SessionError::UnexpectedEvent }));
}
