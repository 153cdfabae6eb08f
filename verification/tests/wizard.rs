use zangra::directory::{Directory, EmojiRef, RoleRef};
use zangra::events::Event;
use zangra::render::{publish, render, Control};
use zangra::session::{Action, Notice, Outcome, Phase};
use zangra::wizard::SelectorSession;

fn role(id: u64, name: &str) -> RoleRef {
    RoleRef { id, name: name.to_string() }
}

fn numbered_directory(count: u64) -> Directory {
    let roster: Vec<RoleRef> = (0..count).map(|k| role(100 + k, &format!("role {}", k))).collect();
    Directory::from_roster(&roster, Vec::new())
}

fn abc_directory() -> Directory {
    let roster = vec![role(3, "Cherry"), role(1, "apple"), role(2, "Banana")];
    Directory::from_roster(&roster, Vec::new())
}

fn option_values(session: &SelectorSession) -> Vec<String> {
    let screen = render(session);
    screen.menu.expect("a menu").options.into_iter().map(|o| o.value).collect()
}

fn disabled(session: &SelectorSession, control: Control) -> bool {
    let screen = render(session);
    screen.buttons.iter().find(|b| b.control == control).expect("the button").disabled
}

#[test]
fn thirty_roles_make_two_pages() {
    let mut session = SelectorSession::open(10, 20, numbered_directory(30));
    let first: Vec<String> = (100..125u64).map(|id| id.to_string()).collect();
    assert_eq!(option_values(&session), first);
    assert!(!disabled(&session, Control::NextPage));
    assert!(disabled(&session, Control::PreviousPage));
    let screen = render(&session);
    assert_eq!(screen.page, 1);
    assert_eq!(screen.pages, 2);

    assert_eq!(session.apply(Action::NextPage), Outcome::Updated);
    assert_eq!(session.page_index(), 1);
    let second: Vec<String> = (125..130u64).map(|id| id.to_string()).collect();
    assert_eq!(option_values(&session), second);
    assert!(disabled(&session, Control::NextPage));
    assert!(!disabled(&session, Control::PreviousPage));
    assert_eq!(render(&session).page, 2);
}

#[test]
fn page_turns_are_clamped() {
    let mut session = SelectorSession::open(10, 20, numbered_directory(30));
    assert_eq!(session.apply(Action::PreviousPage), Outcome::Updated);
    assert_eq!(session.page_index(), 0);
    for _ in 0..5 {
        session.apply(Action::NextPage);
    }
    assert_eq!(session.page_index(), 1);
    session.apply(Action::PreviousPage);
    assert_eq!(session.page_index(), 0);
}

#[test]
fn exactly_fifty_roles_make_two_pages() {
    let mut session = SelectorSession::open(10, 20, numbered_directory(50));
    assert_eq!(render(&session).pages, 2);
    session.apply(Action::NextPage);
    session.apply(Action::NextPage);
    assert_eq!(session.page_index(), 1);
    assert!(disabled(&session, Control::NextPage));
}

#[test]
fn empty_directory_has_one_empty_page() {
    let mut session = SelectorSession::open(10, 20, numbered_directory(0));
    let screen = render(&session);
    assert_eq!(screen.pages, 1);
    assert!(screen.menu.is_none());
    assert!(disabled(&session, Control::NextPage));
    assert!(disabled(&session, Control::PreviousPage));
    assert!(disabled(&session, Control::Continue));
    assert_eq!(session.apply(Action::NextPage), Outcome::Updated);
    assert_eq!(session.page_index(), 0);
    assert_eq!(session.apply(Action::Continue), Outcome::Ignored);
    assert_eq!(session.phase(), Phase::RoleSelection);
}

#[test]
fn manual_order_is_taken_as_submitted() {
    let mut session = SelectorSession::open(10, 20, abc_directory());
    assert_eq!(session.apply(Action::SelectRoles(vec![1, 2, 3])), Outcome::Updated);
    assert_eq!(session.selected_roles(), &vec![1, 2, 3]);
    assert_eq!(session.apply(Action::Continue), Outcome::Updated);
    assert_eq!(session.apply(Action::Manual), Outcome::Updated);
    assert_eq!(session.phase(), Phase::ManualOrdering);
    let screen = render(&session);
    let menu = screen.menu.expect("a menu");
    assert_eq!(menu.min_values, 3);
    assert_eq!(menu.max_values, 3);
    assert_eq!(session.apply(Action::Reorder(vec![3, 1, 2])), Outcome::Updated);
    assert_eq!(session.selected_roles(), &vec![3, 1, 2]);
    assert_eq!(session.phase(), Phase::DescriptionChoice);
}

#[test]
fn manual_order_must_list_each_role_once() {
    let mut session = SelectorSession::open(10, 20, abc_directory());
    session.apply(Action::SelectRoles(vec![1, 2, 3]));
    session.apply(Action::Continue);
    session.apply(Action::Manual);
    assert_eq!(
        session.apply(Action::Reorder(vec![3, 1])),
        Outcome::Rejected(Notice::InvalidOrder)
    );
    assert_eq!(
        session.apply(Action::Reorder(vec![3, 1, 1])),
        Outcome::Rejected(Notice::InvalidOrder)
    );
    assert_eq!(
        session.apply(Action::Reorder(vec![3, 1, 9])),
        Outcome::Rejected(Notice::InvalidOrder)
    );
    assert_eq!(session.apply(Action::Malformed), Outcome::Rejected(Notice::InvalidOrder));
    assert_eq!(session.apply(Action::Cancel), Outcome::Ignored);
    assert_eq!(session.selected_roles(), &vec![1, 2, 3]);
    assert_eq!(session.phase(), Phase::ManualOrdering);
}

#[test]
fn alphabetical_order_goes_by_name_as_stored() {
    let mut session = SelectorSession::open(10, 20, abc_directory());
    session.apply(Action::SelectRoles(vec![1, 2, 3]));
    session.apply(Action::Continue);
    assert_eq!(session.apply(Action::Alphabetical), Outcome::Updated);
    // Upper case sorts before lower case: Banana, Cherry, apple.
    assert_eq!(session.selected_roles(), &vec![2, 3, 1]);
    assert_eq!(session.phase(), Phase::DescriptionChoice);
}

#[test]
fn alphabetical_order_keeps_equal_names_in_place() {
    let roster = vec![role(5, "same"), role(4, "same"), role(6, "a"), role(7, "same")];
    let directory = Directory::from_roster(&roster, Vec::new());
    let mut session = SelectorSession::open(10, 20, directory);
    session.apply(Action::SelectRoles(vec![7, 5, 6, 4]));
    assert_eq!(session.selected_roles(), &vec![7, 5, 6, 4]);
    session.apply(Action::Continue);
    session.apply(Action::Alphabetical);
    assert_eq!(session.selected_roles(), &vec![6, 7, 5, 4]);
}

#[test]
fn timeout_during_ordering_cancels_without_publication() {
    let mut session = SelectorSession::open(10, 20, abc_directory());
    session.apply(Action::SelectRoles(vec![1]));
    session.apply(Action::Continue);
    assert_eq!(session.phase(), Phase::OrderingChoice);
    assert_eq!(session.handle_event(Event::Timeout), Outcome::Cancelled);
    assert_eq!(session.phase(), Phase::Cancelled);
    assert!(publish(&session).is_none());
    assert_eq!(session.apply(Action::Alphabetical), Outcome::Ignored);
    assert_eq!(session.phase(), Phase::Cancelled);
}

#[test]
fn submission_touches_only_the_page_shown() {
    let mut session = SelectorSession::open(10, 20, numbered_directory(30));
    session.apply(Action::SelectRoles(vec![101, 103]));
    session.apply(Action::NextPage);
    // 101 is not on the second page: it is neither added again nor removed.
    session.apply(Action::SelectRoles(vec![126, 101, 999]));
    assert_eq!(session.selected_roles(), &vec![101, 103, 126]);
    session.apply(Action::SelectRoles(vec![127]));
    assert_eq!(session.selected_roles(), &vec![101, 103, 127]);
    session.apply(Action::PreviousPage);
    session.apply(Action::SelectRoles(vec![103]));
    assert_eq!(session.selected_roles(), &vec![103, 127]);
}

#[test]
fn same_submission_twice_changes_nothing() {
    let mut session = SelectorSession::open(10, 20, numbered_directory(30));
    session.apply(Action::SelectRoles(vec![104, 102, 104]));
    let once = session.selected_roles().clone();
    assert_eq!(once, vec![104, 102]);
    session.apply(Action::SelectRoles(vec![104, 102, 104]));
    assert_eq!(session.selected_roles(), &once);
}

#[test]
fn page_menu_leaves_room_for_roles_selected_elsewhere() {
    let mut session = SelectorSession::open(10, 20, numbered_directory(30));
    let first: Vec<u64> = (100..123).collect();
    session.apply(Action::SelectRoles(first));
    assert_eq!(render(&session).menu.expect("a menu").max_values, 25);
    session.apply(Action::NextPage);
    // 23 roles are selected on the other page: room for two more.
    assert_eq!(render(&session).menu.expect("a menu").max_values, 2);
    assert_eq!(
        session.apply(Action::SelectRoles(vec![125, 126, 127])),
        Outcome::Rejected(Notice::InvalidSelection)
    );
    assert_eq!(session.selected_roles().len(), 23);
    assert_eq!(session.apply(Action::SelectRoles(vec![125, 126])), Outcome::Updated);
    assert_eq!(session.selected_roles().len(), 25);
}

#[test]
fn descriptions_are_asked_role_by_role() {
    let mut session = SelectorSession::open(10, 20, abc_directory());
    session.apply(Action::SelectRoles(vec![1, 2]));
    session.apply(Action::Continue);
    session.apply(Action::Manual);
    session.apply(Action::Reorder(vec![2, 1]));
    assert_eq!(session.apply(Action::WithDescriptions), Outcome::Updated);
    assert_eq!(session.phase(), Phase::DescriptionEntry);
    assert_eq!(render(&session).subject, Some("Banana".to_string()));
    session.apply(Action::Reply("yellow".to_string()));
    assert_eq!(session.phase(), Phase::DescriptionEntry);
    assert_eq!(render(&session).subject, Some("apple".to_string()));
    session.apply(Action::Reply("red".to_string()));
    assert_eq!(session.phase(), Phase::MaxSelectionChoice);
    assert_eq!(session.role_descriptions(), &vec!["yellow".to_string(), "red".to_string()]);
}

#[test]
fn maximum_must_lie_between_one_and_the_number_of_roles() {
    let mut session = SelectorSession::open(10, 20, abc_directory());
    session.apply(Action::SelectRoles(vec![1, 2]));
    session.apply(Action::Continue);
    session.apply(Action::Alphabetical);
    session.apply(Action::WithoutDescriptions);
    assert_eq!(session.phase(), Phase::MaxSelectionChoice);
    let values: Vec<String> = option_values(&session);
    assert_eq!(values, vec!["1".to_string(), "2".to_string()]);
    assert_eq!(
        session.apply(Action::ChooseMaximum(0)),
        Outcome::Rejected(Notice::InvalidMaximum)
    );
    assert_eq!(
        session.apply(Action::ChooseMaximum(3)),
        Outcome::Rejected(Notice::InvalidMaximum)
    );
    assert_eq!(session.apply(Action::Malformed), Outcome::Rejected(Notice::InvalidMaximum));
    assert_eq!(session.phase(), Phase::MaxSelectionChoice);
    assert_eq!(session.max_selections(), 0);
    assert_eq!(session.apply(Action::ChooseMaximum(2)), Outcome::Updated);
    assert_eq!(session.max_selections(), 2);
    assert_eq!(session.phase(), Phase::BodyAuthoring);
}

fn at_body_authoring(edit: Option<u64>) -> SelectorSession {
    let mut session = match edit {
        Some(target) => SelectorSession::open_edit(10, 20, abc_directory(), target, &vec![3, 1]),
        None => {
            let mut s = SelectorSession::open(10, 20, abc_directory());
            s.apply(Action::SelectRoles(vec![3, 1]));
            s
        }
    };
    session.apply(Action::Continue);
    session.apply(Action::Manual);
    session.apply(Action::Reorder(vec![3, 1]));
    session.apply(Action::WithDescriptions);
    session.apply(Action::Reply("stone fruit".to_string()));
    session.apply(Action::Reply("pome".to_string()));
    session.apply(Action::ChooseMaximum(1));
    assert_eq!(session.phase(), Phase::BodyAuthoring);
    session
}

#[test]
fn body_takes_a_message_and_embeds() {
    let mut session = at_body_authoring(None);
    assert_eq!(session.apply(Action::SetMessage), Outcome::Updated);
    assert_eq!(session.phase(), Phase::AwaitingMessage);
    assert_eq!(session.apply(Action::Reply("Pick a fruit".to_string())), Outcome::Updated);
    assert_eq!(session.body_content(), "Pick a fruit");
    assert_eq!(session.phase(), Phase::BodyAuthoring);

    assert_eq!(session.apply(Action::AddEmbed), Outcome::Updated);
    assert_eq!(session.phase(), Phase::AwaitingEmbed);
    assert_eq!(
        session.apply(Action::Reply("{\"title\": \"Fruit\"}".to_string())),
        Outcome::Updated
    );
    assert_eq!(session.phase(), Phase::BodyAuthoring);
    assert_eq!(session.body_embeds().len(), 1);
    let stored: serde_json::Value = serde_json::from_str(&session.body_embeds()[0]).unwrap();
    assert_eq!(stored["title"], "Fruit");
    assert_eq!(stored["type"], "rich");
}

#[test]
fn embed_that_is_no_json_object_is_turned_down() {
    let mut session = at_body_authoring(None);
    session.apply(Action::AddEmbed);
    assert_eq!(
        session.apply(Action::Reply("not json".to_string())),
        Outcome::Rejected(Notice::InvalidEmbed)
    );
    assert_eq!(session.phase(), Phase::BodyAuthoring);
    assert!(session.body_embeds().is_empty());
    session.apply(Action::AddEmbed);
    assert_eq!(
        session.apply(Action::Reply("[1, 2]".to_string())),
        Outcome::Rejected(Notice::InvalidEmbed)
    );
    assert!(session.body_embeds().is_empty());
}

#[test]
fn accept_embed_outside_the_wait_does_nothing() {
    let mut session = at_body_authoring(None);
    assert_eq!(session.accept_embed(Some("{}".to_string())), Outcome::Ignored);
    assert!(session.body_embeds().is_empty());
    session.apply(Action::AddEmbed);
    assert_eq!(session.accept_embed(Some("{}".to_string())), Outcome::Updated);
    assert_eq!(session.body_embeds(), &vec!["{}".to_string()]);
    session.apply(Action::AddEmbed);
    assert_eq!(session.accept_embed(None), Outcome::Rejected(Notice::InvalidEmbed));
    assert_eq!(session.phase(), Phase::BodyAuthoring);
}

#[test]
fn finished_selector_offers_the_selected_roles() {
    let mut session = at_body_authoring(None);
    session.apply(Action::SetMessage);
    session.apply(Action::Reply("Pick a fruit".to_string()));
    assert!(publish(&session).is_none());
    assert_eq!(session.apply(Action::Done), Outcome::Published);
    assert_eq!(session.phase(), Phase::Published);
    let publication = publish(&session).expect("a publication");
    assert_eq!(publication.selector_message_id, 10);
    assert_eq!(publication.record, Some(10));
    assert_eq!(publication.discard, None);
    assert_eq!(publication.content, "Pick a fruit");
    assert_eq!(publication.menu.control, Control::SelectMenu);
    assert_eq!(publication.menu.min_values, 0);
    assert_eq!(publication.menu.max_values, 1);
    let options = publication.menu.options;
    assert_eq!(options.len(), 2);
    assert_eq!(options[0].value, "3");
    assert_eq!(options[0].label, "Cherry");
    assert_eq!(options[0].description, Some("stone fruit".to_string()));
    assert_eq!(options[1].value, "1");
    assert_eq!(options[1].label, "apple");
    assert_eq!(options[1].description, Some("pome".to_string()));
    assert_eq!(session.apply(Action::Cancel), Outcome::Ignored);
    assert_eq!(session.phase(), Phase::Published);
}

#[test]
fn selector_without_descriptions_has_bare_options() {
    let mut session = SelectorSession::open(10, 20, abc_directory());
    session.apply(Action::SelectRoles(vec![2]));
    session.apply(Action::Continue);
    session.apply(Action::Alphabetical);
    session.apply(Action::WithoutDescriptions);
    session.apply(Action::ChooseMaximum(1));
    session.apply(Action::Done);
    let publication = publish(&session).expect("a publication");
    assert_eq!(publication.menu.options[0].description, None);
    assert_eq!(publication.content, "");
    assert!(publication.embeds.is_empty());
}

#[test]
fn edit_starts_from_the_published_roles_and_overwrites_in_place() {
    let mut first = at_body_authoring(None);
    first.apply(Action::Done);
    let published = publish(&first).expect("a publication");
    let offered: Vec<u64> =
        published.menu.options.iter().map(|o| o.value.parse().unwrap()).collect();
    assert_eq!(&offered, first.selected_roles());

    let edit = SelectorSession::open_edit(77, 20, abc_directory(), 10, &offered);
    assert_eq!(edit.phase(), Phase::RoleSelection);
    assert_eq!(edit.selected_roles(), first.selected_roles());
    assert_eq!(edit.edit_target(), Some(10));

    let mut edit = at_body_authoring(Some(10));
    edit.apply(Action::Done);
    let publication = publish(&edit).expect("a publication");
    assert_eq!(publication.selector_message_id, 10);
    assert_eq!(publication.record, None);
    assert_eq!(publication.discard, Some(10));
}

#[test]
fn edit_drops_roles_the_directory_no_longer_has() {
    let edit = SelectorSession::open_edit(77, 20, abc_directory(), 10, &vec![3, 9, 1, 3]);
    assert_eq!(edit.selected_roles(), &vec![3, 1]);
}

#[test]
fn cancel_is_a_control_of_four_phases() {
    let mut session = SelectorSession::open(10, 20, abc_directory());
    assert_eq!(session.apply(Action::Cancel), Outcome::Cancelled);
    assert_eq!(session.phase(), Phase::Cancelled);

    let mut session = SelectorSession::open(10, 20, abc_directory());
    session.apply(Action::SelectRoles(vec![1]));
    session.apply(Action::Continue);
    session.apply(Action::Alphabetical);
    assert_eq!(session.apply(Action::Cancel), Outcome::Cancelled);

    let mut session = at_body_authoring(None);
    assert_eq!(session.apply(Action::Cancel), Outcome::Cancelled);

    let mut session = at_body_authoring(None);
    session.apply(Action::SetMessage);
    assert_eq!(session.apply(Action::Cancel), Outcome::Ignored);
    assert_eq!(session.apply(Action::Timeout), Outcome::Cancelled);
}

#[test]
fn roster_is_ordered_by_id_and_keeps_the_first_of_each_id() {
    let roster = vec![role(3, "c"), role(1, "a"), role(3, "again"), role(2, "b")];
    let emojis = vec![EmojiRef { id: 8, name: "wave".to_string() }];
    let directory = Directory::from_roster(&roster, emojis);
    assert_eq!(directory.role_ids(), vec![1, 2, 3]);
    assert_eq!(directory.role_at(2).name, "c");
    assert_eq!(directory.position(2), Some(1));
    assert_eq!(directory.position(4), None);
    assert!(directory.contains(3));
    assert!(directory.has_emoji(8));
    assert!(!directory.has_emoji(9));
    assert_eq!(directory.len(), 3);
    assert_eq!(directory.last_page(), 0);
    assert_eq!(directory.page_bounds(0), (0, 3));
}
