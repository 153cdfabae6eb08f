use zangra::directory::{Directory, EmojiRef, RoleRef};
use zangra::events::Event;
use zangra::registry::{Directive, SessionRegistry};
use zangra::render::{publish, Control};
use zangra::session::{Action, Notice, Phase};
use zangra::wizard::SelectorSession;

fn directory() -> Directory {
    let roster = vec![
        RoleRef { id: 1, name: "apple".to_string() },
        RoleRef { id: 2, name: "Banana".to_string() },
        RoleRef { id: 3, name: "Cherry".to_string() },
    ];
    let emojis = vec![
        EmojiRef { id: 71, name: "red".to_string() },
        EmojiRef { id: 72, name: "yellow".to_string() },
    ];
    Directory::from_roster(&roster, emojis)
}

fn press(message_id: u64, custom_id: &str, values: &[&str]) -> Event {
    Event::Component {
        message_id,
        custom_id: custom_id.to_string(),
        values: values.iter().map(|v| v.to_string()).collect(),
    }
}

#[test]
fn registry_hands_events_to_the_owner_of_the_message() {
    let mut registry = SessionRegistry::new();
    assert!(registry.register(SelectorSession::open(10, 20, directory())));
    assert!(registry.register(SelectorSession::open(11, 20, directory())));
    assert!(!registry.register(SelectorSession::open(10, 21, directory())));
    assert_eq!(registry.len(), 2);
    assert!(registry.contains(10));
    assert!(!registry.contains(12));

    assert!(matches!(registry.handle(12, press(12, "cancel", &[])), Directive::Nothing));
    // The event names another message than the session's own: ignored.
    assert!(matches!(registry.handle(10, press(11, "cancel", &[])), Directive::Nothing));
    assert_eq!(registry.len(), 2);

    match registry.handle(10, press(10, "select_guild_roles", &["2", "1"])) {
        Directive::Show { message_id, screen, notice } => {
            assert_eq!(message_id, 10);
            assert_eq!(notice, None);
            assert_eq!(screen.phase, Phase::RoleSelection);
            assert_eq!(screen.listed, vec!["Banana".to_string(), "apple".to_string()]);
            let go_on = screen.buttons.iter().find(|b| b.control == Control::Continue).unwrap();
            assert!(!go_on.disabled);
        }
        other => panic!("directed {:?}", other),
    }
    match registry.handle(10, press(10, "select_guild_roles", &["x"])) {
        Directive::Show { notice, .. } => assert_eq!(notice, Some(Notice::InvalidSelection)),
        other => panic!("directed {:?}", other),
    }
}

#[test]
fn cancelled_and_timed_out_sessions_leave_without_a_record() {
    let mut registry = SessionRegistry::new();
    registry.register(SelectorSession::open(10, 20, directory()));
    registry.register(SelectorSession::open(11, 20, directory()));
    registry.handle(10, press(10, "select_guild_roles", &["1"]));
    registry.handle(10, press(10, "continue", &[]));
    match registry.handle(10, Event::Timeout) {
        Directive::Delete { message_id } => assert_eq!(message_id, 10),
        other => panic!("directed {:?}", other),
    }
    assert!(!registry.contains(10));
    assert!(registry.contains(11));
    assert!(matches!(registry.handle(10, press(10, "alphabetical", &[])), Directive::Nothing));
    match registry.handle(11, press(11, "cancel", &[])) {
        Directive::Delete { message_id } => assert_eq!(message_id, 11),
        other => panic!("directed {:?}", other),
    }
    assert_eq!(registry.len(), 0);
}

#[test]
fn finished_session_leaves_with_its_publication() {
    let mut registry = SessionRegistry::new();
    registry.register(SelectorSession::open(10, 20, directory()));
    registry.handle(10, press(10, "select_guild_roles", &["3", "1"]));
    registry.handle(10, press(10, "continue", &[]));
    registry.handle(10, press(10, "alphabetical", &[]));
    registry.handle(10, press(10, "no", &[]));
    registry.handle(10, press(10, "max_selections", &["2"]));
    match registry.handle(10, press(10, "done", &[])) {
        Directive::Publish(publication) => {
            assert_eq!(publication.record, Some(10));
            assert_eq!(publication.menu.max_values, 2);
            let values: Vec<&str> =
                publication.menu.options.iter().map(|o| o.value.as_str()).collect();
            assert_eq!(values, vec!["3", "1"]);
        }
        other => panic!("directed {:?}", other),
    }
    assert_eq!(registry.len(), 0);
}

#[test]
fn sessions_that_are_over_are_not_registered() {
    let mut session = SelectorSession::open(10, 20, directory());
    session.apply(Action::Cancel);
    let mut registry = SessionRegistry::new();
    assert!(!registry.register(session));
    assert_eq!(registry.len(), 0);
}

#[test]
fn emoji_is_shown_once_every_role_has_one() {
    let mut session = SelectorSession::open(10, 20, directory());
    session.apply(Action::SelectRoles(vec![1, 2]));
    assert!(!session.assign_emoji(3, 71));
    assert!(!session.assign_emoji(1, 99));
    assert!(session.assign_emoji(1, 72));
    assert!(session.assign_emoji(1, 71));
    assert_eq!(session.role_emojis(), &vec![(1, 71)]);
    assert_eq!(session.emoji_for(1), Some(71));
    assert_eq!(session.emoji_for(2), None);
    session.apply(Action::Continue);
    session.apply(Action::Alphabetical);
    session.apply(Action::WithoutDescriptions);
    session.apply(Action::ChooseMaximum(1));
    session.apply(Action::Done);
    let bare = publish(&session).expect("a publication");
    assert_eq!(bare.menu.options[0].emoji, None);
    assert_eq!(bare.menu.options[1].emoji, None);
    assert!(!session.assign_emoji(2, 72));

    let mut session = SelectorSession::open(10, 20, directory());
    session.apply(Action::SelectRoles(vec![1, 2]));
    assert!(session.assign_emoji(1, 71));
    assert!(session.assign_emoji(2, 72));
    session.apply(Action::Continue);
    session.apply(Action::Alphabetical);
    session.apply(Action::WithoutDescriptions);
    session.apply(Action::ChooseMaximum(1));
    session.apply(Action::Done);
    let shown = publish(&session).expect("a publication");
    assert_eq!(shown.menu.options[0].label, "Banana");
    assert_eq!(shown.menu.options[0].emoji, Some(72));
    assert_eq!(shown.menu.options[1].emoji, Some(71));
}
