use zangra::directory::{Directory, RoleRef};
use zangra::events::{component_action, parse_ids, read_event, reply_to_delete, Event};
use zangra::numbers::{decimal_text, parse_u64};
use zangra::render::{custom_id, Control};
use zangra::runtime::{plan_member_roles, selector_control, MemberPlan, SelectorControl};
use zangra::session::{Action, Notice, Outcome, Phase};
use zangra::wizard::SelectorSession;

fn fruit_directory() -> Directory {
    let roster = vec![
        RoleRef { id: 1, name: "apple".to_string() },
        RoleRef { id: 2, name: "Banana".to_string() },
        RoleRef { id: 3, name: "Cherry".to_string() },
    ];
    Directory::from_roster(&roster, Vec::new())
}

fn component(message_id: u64, custom_id: &str, values: &[&str]) -> Event {
    Event::Component {
        message_id,
        custom_id: custom_id.to_string(),
        values: values.iter().map(|v| v.to_string()).collect(),
    }
}

fn reply(channel_id: u64, referenced: Option<u64>, content: &str) -> Event {
    Event::Reply {
        message_id: 900,
        channel_id,
        referenced_message_id: referenced,
        content: content.to_string(),
    }
}

#[test]
fn decimal_text_is_read_back() {
    assert_eq!(decimal_text(0), "0");
    assert_eq!(decimal_text(7), "7");
    assert_eq!(decimal_text(10), "10");
    assert_eq!(decimal_text(716047715208921110), "716047715208921110");
    assert_eq!(decimal_text(u64::MAX), "18446744073709551615");
    for n in [0u64, 9, 10, 99, 100, 12345, u64::MAX] {
        assert_eq!(parse_u64(&decimal_text(n)), Some(n));
    }
}

#[test]
fn numbers_are_read_as_the_standard_library_reads_them() {
    for text in [
        "", "+", "-", "0", "007", "+12", "-12", "12a", " 12", "12 ", "１２", "+-1", "++1",
        "18446744073709551615", "18446744073709551616", "99999999999999999999999",
    ] {
        assert_eq!(parse_u64(text), text.parse::<u64>().ok(), "reading {:?}", text);
    }
}

#[test]
fn ids_are_read_all_or_none() {
    let values = vec!["3".to_string(), "1".to_string()];
    assert_eq!(parse_ids(&values), Some(vec![3, 1]));
    let values = vec!["3".to_string(), "one".to_string()];
    assert_eq!(parse_ids(&values), None);
    assert_eq!(parse_ids(&Vec::new()), Some(Vec::new()));
}

#[test]
fn controls_are_read_against_the_phase() {
    let none: Vec<String> = Vec::new();
    assert!(matches!(
        component_action(Phase::RoleSelection, "previous_page", &none),
        Action::PreviousPage
    ));
    assert!(matches!(component_action(Phase::RoleSelection, "next_page", &none), Action::NextPage));
    assert!(matches!(component_action(Phase::RoleSelection, "continue", &none), Action::Continue));
    assert!(matches!(component_action(Phase::RoleSelection, "cancel", &none), Action::Cancel));
    assert!(matches!(component_action(Phase::RoleSelection, "yes", &none), Action::Ignored));
    assert!(matches!(
        component_action(Phase::OrderingChoice, "alphabetical", &none),
        Action::Alphabetical
    ));
    assert!(matches!(component_action(Phase::OrderingChoice, "manual", &none), Action::Manual));
    assert!(matches!(component_action(Phase::OrderingChoice, "continue", &none), Action::Ignored));
    assert!(matches!(
        component_action(Phase::DescriptionChoice, "yes", &none),
        Action::WithDescriptions
    ));
    assert!(matches!(
        component_action(Phase::DescriptionChoice, "no", &none),
        Action::WithoutDescriptions
    ));
    assert!(matches!(component_action(Phase::BodyAuthoring, "set_message", &none), Action::SetMessage));
    assert!(matches!(component_action(Phase::BodyAuthoring, "add_embed", &none), Action::AddEmbed));
    assert!(matches!(component_action(Phase::BodyAuthoring, "done", &none), Action::Done));
    assert!(matches!(component_action(Phase::BodyAuthoring, "cancel", &none), Action::Cancel));
    assert!(matches!(component_action(Phase::ManualOrdering, "cancel", &none), Action::Ignored));
    assert!(matches!(component_action(Phase::AwaitingEmbed, "cancel", &none), Action::Ignored));
    assert!(matches!(component_action(Phase::Published, "done", &none), Action::Ignored));
}

#[test]
fn submissions_carry_their_values() {
    let values = vec!["2".to_string(), "1".to_string()];
    match component_action(Phase::RoleSelection, "select_guild_roles", &values) {
        Action::SelectRoles(ids) => assert_eq!(ids, vec![2, 1]),
        other => panic!("read as {:?}", other),
    }
    match component_action(Phase::ManualOrdering, "manual_selection", &values) {
        Action::Reorder(ids) => assert_eq!(ids, vec![2, 1]),
        other => panic!("read as {:?}", other),
    }
    match component_action(Phase::MaxSelectionChoice, "max_selections", &values) {
        Action::ChooseMaximum(n) => assert_eq!(n, 2),
        other => panic!("read as {:?}", other),
    }
    let bad = vec!["two".to_string()];
    assert!(matches!(
        component_action(Phase::RoleSelection, "select_guild_roles", &bad),
        Action::Malformed
    ));
    assert!(matches!(
        component_action(Phase::MaxSelectionChoice, "max_selections", &bad),
        Action::Malformed
    ));
    assert!(matches!(
        component_action(Phase::MaxSelectionChoice, "max_selections", &Vec::new()),
        Action::Malformed
    ));
}

#[test]
fn every_control_is_recognised_under_its_own_id() {
    let none: Vec<String> = Vec::new();
    let pairs = [
        (Phase::RoleSelection, Control::PreviousPage),
        (Phase::RoleSelection, Control::NextPage),
        (Phase::RoleSelection, Control::Continue),
        (Phase::RoleSelection, Control::Cancel),
        (Phase::RoleSelection, Control::SelectGuildRoles),
        (Phase::OrderingChoice, Control::Alphabetical),
        (Phase::OrderingChoice, Control::Manual),
        (Phase::ManualOrdering, Control::ManualSelection),
        (Phase::DescriptionChoice, Control::Yes),
        (Phase::DescriptionChoice, Control::No),
        (Phase::BodyAuthoring, Control::SetMessage),
        (Phase::BodyAuthoring, Control::AddEmbed),
        (Phase::BodyAuthoring, Control::Done),
    ];
    for (phase, control) in pairs {
        let action = component_action(phase, custom_id(control), &none);
        assert!(!matches!(action, Action::Ignored), "{:?} in {:?}", control, phase);
    }
    assert_eq!(selector_control(custom_id(Control::SelectMenu)), SelectorControl::Menu);
}

#[test]
fn events_for_other_messages_are_ignored() {
    let mut session = SelectorSession::open(10, 20, fruit_directory());
    assert!(matches!(read_event(&session, component(11, "cancel", &[])), Action::Ignored));
    assert_eq!(session.handle_event(component(11, "cancel", &[])), Outcome::Ignored);
    assert_eq!(session.phase(), Phase::RoleSelection);
    assert_eq!(session.handle_event(component(10, "unheard_of", &[])), Outcome::Ignored);
    assert_eq!(session.handle_event(component(10, "select_guild_roles", &["2", "3"])), Outcome::Updated);
    assert_eq!(session.selected_roles(), &vec![2, 3]);
    assert_eq!(
        session.handle_event(component(10, "select_guild_roles", &["x"])),
        Outcome::Rejected(Notice::InvalidSelection)
    );
    assert_eq!(session.selected_roles(), &vec![2, 3]);
}

#[test]
fn replies_count_only_when_awaited_in_the_channel_and_to_the_setup_message() {
    let mut session = SelectorSession::open(10, 20, fruit_directory());
    session.handle_event(component(10, "select_guild_roles", &["2"]));
    // No reply is awaited while roles are selected.
    assert_eq!(session.handle_event(reply(20, Some(10), "early")), Outcome::Ignored);
    session.handle_event(component(10, "continue", &[]));
    session.handle_event(component(10, "alphabetical", &[]));
    session.handle_event(component(10, "yes", &[]));
    assert_eq!(session.phase(), Phase::DescriptionEntry);
    assert_eq!(session.handle_event(reply(21, Some(10), "elsewhere")), Outcome::Ignored);
    assert_eq!(session.handle_event(reply(20, Some(11), "to another")), Outcome::Ignored);
    assert_eq!(session.handle_event(reply(20, None, "chatter")), Outcome::Ignored);
    assert_eq!(session.handle_event(component(10, "cancel", &[])), Outcome::Ignored);
    assert!(session.role_descriptions().is_empty());
    assert_eq!(reply_to_delete(&session, &reply(21, Some(10), "elsewhere")), None);
    assert_eq!(reply_to_delete(&session, &reply(20, None, "chatter")), None);
    assert_eq!(reply_to_delete(&session, &component(10, "cancel", &[])), None);
    assert_eq!(reply_to_delete(&session, &Event::Timeout), None);
    assert_eq!(reply_to_delete(&session, &reply(20, Some(10), "yellow")), Some(900));
    assert_eq!(session.handle_event(reply(20, Some(10), "yellow")), Outcome::Updated);
    assert_eq!(reply_to_delete(&session, &reply(20, Some(10), "late")), None);
    assert_eq!(session.role_descriptions(), &vec!["yellow".to_string()]);
    assert_eq!(session.phase(), Phase::MaxSelectionChoice);
    assert_eq!(
        session.handle_event(component(10, "max_selections", &["many"])),
        Outcome::Rejected(Notice::InvalidMaximum)
    );
    assert_eq!(session.handle_event(component(10, "max_selections", &["1"])), Outcome::Updated);
    session.handle_event(component(10, "add_embed", &[]));
    assert_eq!(
        session.handle_event(reply(20, Some(10), "{\"title\": 1")),
        Outcome::Rejected(Notice::InvalidEmbed)
    );
    session.handle_event(component(10, "set_message", &[]));
    assert_eq!(session.handle_event(reply(20, Some(10), "Choose")), Outcome::Updated);
    assert_eq!(session.handle_event(component(10, "done", &[])), Outcome::Published);
}

#[test]
fn member_gains_what_was_submitted_and_loses_the_rest_of_the_menu() {
    // Roles: A = 1, B = 2, C = 3. The member holds A and an unrelated role.
    let plan = plan_member_roles(
        true,
        SelectorControl::Menu,
        false,
        &vec![1, 2, 3],
        &vec![2, 3],
        &vec![1, 50],
    );
    match plan {
        MemberPlan::ChangeRoles { add, remove } => {
            assert_eq!(add, vec![2, 3]);
            assert_eq!(remove, vec![1]);
        }
        other => panic!("planned {:?}", other),
    }
}

#[test]
fn member_keeps_held_roles_that_are_submitted_again() {
    let plan = plan_member_roles(
        true,
        SelectorControl::Menu,
        false,
        &vec![1, 2, 3],
        &vec![1, 3, 3],
        &vec![1, 2, 50],
    );
    match plan {
        MemberPlan::ChangeRoles { add, remove } => {
            assert_eq!(add, vec![3]);
            assert_eq!(remove, vec![2]);
        }
        other => panic!("planned {:?}", other),
    }
}

#[test]
fn clicks_on_messages_that_are_no_selectors_do_nothing() {
    let plan = plan_member_roles(false, SelectorControl::Menu, true, &vec![1], &vec![1], &vec![]);
    assert!(matches!(plan, MemberPlan::Nothing));
    let plan = plan_member_roles(true, SelectorControl::Unknown, true, &vec![1], &vec![1], &vec![]);
    assert!(matches!(plan, MemberPlan::Nothing));
}

#[test]
fn clearing_takes_the_roles_of_the_menu_only() {
    let plan = plan_member_roles(
        true,
        SelectorControl::ClearRoles,
        false,
        &vec![1, 2, 3],
        &vec![],
        &vec![3, 50, 1],
    );
    match plan {
        MemberPlan::ChangeRoles { add, remove } => {
            assert!(add.is_empty());
            assert_eq!(remove, vec![1, 3]);
        }
        other => panic!("planned {:?}", other),
    }
}

#[test]
fn editing_is_for_administrators() {
    let none: Vec<u64> = Vec::new();
    let plan = plan_member_roles(true, SelectorControl::Edit, true, &none, &none, &none);
    assert!(matches!(plan, MemberPlan::OpenEdit));
    let plan = plan_member_roles(true, SelectorControl::Edit, false, &none, &none, &none);
    assert!(matches!(plan, MemberPlan::Nothing));
    assert_eq!(selector_control("edit_selector"), SelectorControl::Edit);
    assert_eq!(selector_control("clear_roles"), SelectorControl::ClearRoles);
    assert_eq!(selector_control("selectmenu"), SelectorControl::Menu);
    assert_eq!(selector_control("select_guild_roles"), SelectorControl::Unknown);
}
