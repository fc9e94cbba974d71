use ltlive::model::{Page, Presentation, Service, User};
use ltlive::overlay::ScreenAction;

#[test]
fn timeline_flush_serializes_to_tagged_json() {
    assert_eq!(ScreenAction::TimelineClear.serialize(), "{\"type\":\"timeline.flush\"}");
}

#[test]
fn notification_update_carries_the_text() {
    let a = ScreenAction::NotificationUpdate { text: "short break".to_string() };
    assert_eq!(
        a.serialize(),
        "{\"type\":\"notification.update\",\"args\":{\"new\":\"short break\"}}"
    );
}

#[test]
fn switch_page_names_the_page() {
    assert_eq!(
        ScreenAction::SwitchPage(Page::WaitingScreen).serialize(),
        "{\"type\":\"screen.update\",\"args\":{\"new\":\"WaitingScreen\"}}"
    );
    assert_eq!(
        ScreenAction::SwitchPage(Page::LTScreen).serialize(),
        "{\"type\":\"screen.update\",\"args\":{\"new\":\"LTScreen\"}}"
    );
}

#[test]
fn timeline_push_serializes_user_service_and_content() {
    let a = ScreenAction::TimelinePush {
        user: User {
            icon: Some("https://i.test/p.png".to_string()),
            ident: None,
            name: "Ann".to_string(),
        },
        service: Service::Discord,
        content: "hi there".to_string(),
    };
    assert_eq!(
        a.serialize(),
        "{\"type\":\"timeline.add\",\"args\":{\"new\":{\"user\":{\"userIcon\":\"https://i.test/p.png\",\"identifier\":null,\"name\":\"Ann\"},\"service\":\"discord\",\"content\":\"hi there\"}}}"
    );
}

#[test]
fn json_strings_are_escaped() {
    let a = ScreenAction::NotificationUpdate { text: "a\"b\\c\nd\te\u{1}".to_string() };
    assert_eq!(
        a.serialize(),
        "{\"type\":\"notification.update\",\"args\":{\"new\":\"a\\\"b\\\\c\\nd\\te\\u0001\"}}"
    );
}

#[test]
fn pending_list_serializes_every_presentation() {
    let a = ScreenAction::UpcomingPresentationsUpdate {
        pending: vec![
            Presentation {
                presenter: User { icon: None, ident: Some("ann#1".to_string()), name: "Ann".to_string() },
                title: "One".to_string(),
            },
            Presentation {
                presenter: User { icon: None, ident: None, name: "Bob".to_string() },
                title: "Two".to_string(),
            },
        ],
    };
    assert_eq!(
        a.serialize(),
        "{\"type\":\"waiting.pending.update\",\"args\":{\"new\":[{\"presenter\":{\"icon\":null,\"ident\":\"ann#1\",\"name\":\"Ann\"},\"title\":\"One\"},{\"presenter\":{\"icon\":null,\"ident\":null,\"name\":\"Bob\"},\"title\":\"Two\"}]}}"
    );
}
