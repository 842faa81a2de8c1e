use rust_confessional::config::TwilioPollConfig;
use rust_confessional::twilio_poll::{
    InboundMessage, MessagesReply, PollState, RawMessage, TwilioClient,
};

fn client() -> TwilioClient {
    TwilioClient::from_config(&TwilioPollConfig {
        account_sid: "AC1".to_owned(),
        auth_username: "SK1".to_owned(),
        auth_password: "shh".to_owned(),
        number: "+15551234567".to_owned(),
        poll_interval: 4,
    })
}

fn raw(sid: &str, body: Option<&str>, direction: Option<&str>) -> RawMessage {
    RawMessage {
        sid: sid.to_owned(),
        body: body.map(str::to_owned),
        direction: direction.map(str::to_owned),
    }
}

fn message(sid: &str, body: &str) -> InboundMessage {
    InboundMessage {
        sid: sid.to_owned(),
        body: body.to_owned(),
    }
}

#[test]
fn the_request_asks_for_the_watched_number() {
    assert_eq!(
        client().messages_url(),
        "https://api.twilio.com/2010-04-01/Accounts/AC1/Messages.json"
    );
    assert_eq!(
        client().messages_query(),
        vec![
            ("To".to_owned(), "+15551234567".to_owned()),
            ("PageSize".to_owned(), "50".to_owned()),
        ]
    );
    assert_eq!(client().username, "SK1");
    assert_eq!(client().password, "shh");
}

#[test]
fn only_inbound_messages_with_visible_text_are_fetched() {
    let reply = MessagesReply {
        status: 200,
        body: String::new(),
        page: Some(vec![
            raw("1", Some("hi "), Some("inbound")),
            raw("2", Some("hi"), Some("outbound-api")),
            raw("3", Some(" \n"), Some("inbound")),
            raw("4", None, Some("inbound")),
            raw("5", Some("yo"), None),
            raw("6", Some("yo"), Some("inbound")),
        ]),
    };
    assert_eq!(
        client().fetch_inbound(reply),
        Ok(vec![message("1", "hi "), message("6", "yo")])
    );
}

#[test]
fn replies_that_are_no_page_are_errors() {
    let reply = |status: u16, body: &str| MessagesReply {
        status,
        body: body.to_owned(),
        page: None,
    };
    assert_eq!(
        client().fetch_inbound(reply(404, "gone")),
        Err("Twilio Messages returned HTTP 404 Not Found: gone".to_owned())
    );
    assert_eq!(
        client().fetch_inbound(reply(200, "<html>")),
        Err("decoding Twilio Messages response".to_owned())
    );
}

#[test]
fn the_backlog_is_recorded_and_not_submitted() {
    let mut state = PollState::new();
    assert!(state.accept(&vec![message("1", "old"), message("2", "older")]).is_empty());
    assert!(state.baselined);
    let fresh = state.accept(&vec![message("1", "old"), message("3", "new")]);
    assert_eq!(fresh, vec![("new".to_owned(), "twilio-3".to_owned())]);
}

#[test]
fn each_message_is_submitted_once_and_commands_never() {
    let mut state = PollState::new();
    assert!(state.accept(&Vec::new()).is_empty());
    let page = vec![
        message("a", "one"),
        message("b", " stop "),
        message("a", "one again"),
        message("c", "three"),
    ];
    assert_eq!(
        state.accept(&page),
        vec![
            ("one".to_owned(), "twilio-a".to_owned()),
            ("three".to_owned(), "twilio-c".to_owned()),
        ]
    );
    assert!(state.accept(&page).is_empty());
    assert_eq!(state.seen, ["a", "b", "c"]);
}
