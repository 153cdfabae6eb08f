//! What a session shows: the controls of each phase, and the menu of the
//! finished selector. Rendering reads a session and changes nothing.
use vstd::prelude::*;
use crate::directory::{last_page_of, Directory, RoleRef};
use crate::numbers::{decimal_digits, decimal_text, law_decimal_round_trip, parsed_u64};
use crate::ordering::{lemma_name_of, name_of};
use crate::selection::{pick, pick_ids};
use crate::session::{
    continue_enabled, current_page, emoji_of, emojis_cover, next_enabled, previous_enabled, Phase,
    SessionView, MAX_ROLES,
};
use crate::text::texts_of;
use crate::wizard::SelectorSession;

verus! {

/// A control that a screen can hold.
#[derive(Clone, Copy, Debug, PartialEq, Eq, Structural)]
pub enum Control {
    PreviousPage,
    NextPage,
    Continue,
    Cancel,
    SelectGuildRoles,
    Alphabetical,
    Manual,
    ManualSelection,
    Yes,
    No,
    MaxSelections,
    SetMessage,
    AddEmbed,
    Done,
    /// The menu of a published selector.
    SelectMenu,
}

/// A button of a screen.
#[derive(Clone, Copy, Debug, PartialEq, Eq, Structural)]
pub struct Button {
    pub control: Control,
    pub disabled: bool,
}

/// One option of a select menu.
#[derive(Debug)]
pub struct MenuOption {
    pub value: String,
    pub label: String,
    pub description: Option<String>,
    /// The id of the emoji shown with the option.
    pub emoji: Option<u64>,
}

/// A select menu.
#[derive(Debug)]
pub struct Menu {
    pub control: Control,
    pub min_values: usize,
    pub max_values: usize,
    pub options: Vec<MenuOption>,
}

/// What the setup message shows in one phase.
#[derive(Debug)]
pub struct Screen {
    /// The phase the screen belongs to; it decides the prompt.
    pub phase: Phase,
    /// Names of the roles selected so far, shown while roles are selected.
    pub listed: Vec<String>,
    /// The name of the role that a description is asked for.
    pub subject: Option<String>,
    /// Number of the page shown, counted from one.
    pub page: usize,
    /// Number of pages of the directory.
    pub pages: usize,
    /// The text of the message.
    pub content: String,
    pub buttons: Vec<Button>,
    pub menu: Option<Menu>,
}

/// An option as the contracts see it.
pub struct OptionView {
    pub value: Seq<char>,
    pub label: Seq<char>,
    pub description: Option<Seq<char>>,
    pub emoji: Option<u64>,
}

/// A menu as the contracts see it.
pub struct MenuView {
    pub control: Control,
    pub min_values: nat,
    pub max_values: nat,
    pub options: Seq<OptionView>,
}

/// A screen as the contracts see it.
pub struct ScreenView {
    pub phase: Phase,
    pub listed: Seq<Seq<char>>,
    pub subject: Option<Seq<char>>,
    pub page: nat,
    pub pages: nat,
    pub content: Seq<char>,
    pub buttons: Seq<Button>,
    pub menu: Option<MenuView>,
}

impl View for MenuOption {
    type V = OptionView;

    open spec fn view(&self) -> OptionView {
        OptionView {
            value: self.value@,
            label: self.label@,
            description: match self.description {
                Some(d) => Some(d@),
                None => None,
            },
            emoji: self.emoji,
        }
    }
}

/// The options of a list as the contracts see them.
pub open spec fn options_of(list: Seq<MenuOption>) -> Seq<OptionView> {
    Seq::new(list.len(), |k: int| list[k]@)
}

impl View for Menu {
    type V = MenuView;

    open spec fn view(&self) -> MenuView {
        MenuView {
            control: self.control,
            min_values: self.min_values as nat,
            max_values: self.max_values as nat,
            options: options_of(self.options@),
        }
    }
}

impl View for Screen {
    type V = ScreenView;

    open spec fn view(&self) -> ScreenView {
        ScreenView {
            phase: self.phase,
            listed: texts_of(self.listed@),
            subject: match self.subject {
                Some(t) => Some(t@),
                None => None,
            },
            page: self.page as nat,
            pages: self.pages as nat,
            content: self.content@,
            buttons: self.buttons@,
            menu: match self.menu {
                Some(m) => Some(m@),
                None => None,
            },
        }
    }
}

/// The custom id under which a control is sent and recognised.
pub open spec fn custom_id_of(control: Control) -> Seq<char> {
    match control {
        Control::PreviousPage => "previous_page"@,
        Control::NextPage => "next_page"@,
        Control::Continue => "continue"@,
        Control::Cancel => "cancel"@,
        Control::SelectGuildRoles => "select_guild_roles"@,
        Control::Alphabetical => "alphabetical"@,
        Control::Manual => "manual"@,
        Control::ManualSelection => "manual_selection"@,
        Control::Yes => "yes"@,
        Control::No => "no"@,
        Control::MaxSelections => "max_selections"@,
        Control::SetMessage => "set_message"@,
        Control::AddEmbed => "add_embed"@,
        Control::Done => "done"@,
        Control::SelectMenu => "selectmenu"@,
    }
}

/// The custom id under which a control is sent and recognised.
pub fn custom_id(control: Control) -> (id: &'static str)
    ensures
        id@ == custom_id_of(control),
{
    match control {
        Control::PreviousPage => "previous_page",
        Control::NextPage => "next_page",
        Control::Continue => "continue",
        Control::Cancel => "cancel",
        Control::SelectGuildRoles => "select_guild_roles",
        Control::Alphabetical => "alphabetical",
        Control::Manual => "manual",
        Control::ManualSelection => "manual_selection",
        Control::Yes => "yes",
        Control::No => "no",
        Control::MaxSelections => "max_selections",
        Control::SetMessage => "set_message",
        Control::AddEmbed => "add_embed",
        Control::Done => "done",
        Control::SelectMenu => "selectmenu",
    }
}

/// The option that offers the role `id`: its value is the id in decimal, its
/// label the role's name.
pub open spec fn role_option(
    roles: Seq<RoleRef>,
    id: u64,
    description: Option<Seq<char>>,
    emoji: Option<u64>,
) -> OptionView {
    OptionView { value: decimal_digits(id as nat), label: name_of(roles, id), description, emoji }
}

/// One option for each of `ids`, in order, without descriptions.
pub open spec fn plain_options(roles: Seq<RoleRef>, ids: Seq<u64>) -> Seq<OptionView> {
    Seq::new(ids.len(), |k: int| role_option(roles, ids[k], None, None))
}

/// One option for each selected role, in order; each with its description if
/// every selected role has one, and with its emoji if every selected role has
/// one.
pub open spec fn selector_options(s: SessionView) -> Seq<OptionView> {
    Seq::new(
        s.selected.len(),
        |k: int|
            role_option(
                s.roles,
                s.selected[k],
                if s.descriptions.len() == s.selected.len() {
                    Some(s.descriptions[k])
                } else {
                    None
                },
                if emojis_cover(s) {
                    emoji_of(s.emojis, s.selected[k])
                } else {
                    None
                },
            ),
    )
}

/// The options `1` to `count`, each labelled by its number.
pub open spec fn number_options(count: nat) -> Seq<OptionView> {
    Seq::new(
        count,
        |k: int|
            OptionView {
                value: decimal_digits((k + 1) as nat),
                label: decimal_digits((k + 1) as nat),
                description: None,
                emoji: None,
            },
    )
}

/// The selected roles that are not on the page shown.
pub open spec fn selected_elsewhere(s: SessionView) -> Seq<u64> {
    pick(s.selected, current_page(s), s.selected)
}

/// Most roles that one submission from the page shown may hold: what is left
/// of a selector's capacity after the roles selected on other pages, and no
/// more than the page holds.
pub open spec fn page_capacity(s: SessionView) -> nat {
    let left = (MAX_ROLES - selected_elsewhere(s).len()) as nat;
    let shown = current_page(s).len();
    if left <= shown {
        left
    } else {
        shown
    }
}

/// The names of the selected roles, in order.
pub open spec fn selected_names(s: SessionView) -> Seq<Seq<char>> {
    Seq::new(s.selected.len(), |k: int| name_of(s.roles, s.selected[k]))
}

/// The menu of the finished selector: the selected roles, none required, at
/// most the chosen maximum.
pub open spec fn selector_menu(s: SessionView) -> MenuView {
    MenuView {
        control: Control::SelectMenu,
        min_values: 0,
        max_values: s.max_selections,
        options: selector_options(s),
    }
}

/// The buttons of a phase.
pub open spec fn buttons_of(s: SessionView) -> Seq<Button> {
    match s.phase {
        Phase::RoleSelection => seq![
            Button { control: Control::PreviousPage, disabled: !previous_enabled(s) },
            Button { control: Control::NextPage, disabled: !next_enabled(s) },
            Button { control: Control::Continue, disabled: !continue_enabled(s) },
            Button { control: Control::Cancel, disabled: false },
        ],
        Phase::OrderingChoice => seq![
            Button { control: Control::Alphabetical, disabled: false },
            Button { control: Control::Manual, disabled: false },
            Button { control: Control::Cancel, disabled: false },
        ],
        Phase::DescriptionChoice => seq![
            Button { control: Control::Yes, disabled: false },
            Button { control: Control::No, disabled: false },
            Button { control: Control::Cancel, disabled: false },
        ],
        Phase::BodyAuthoring => seq![
            Button { control: Control::SetMessage, disabled: false },
            Button { control: Control::AddEmbed, disabled: false },
            Button { control: Control::Done, disabled: false },
            Button { control: Control::Cancel, disabled: false },
        ],
        _ => Seq::empty(),
    }
}

/// The menu of a phase, if it has one.
pub open spec fn menu_of(s: SessionView) -> Option<MenuView> {
    match s.phase {
        Phase::RoleSelection => if page_capacity(s) > 0 {
            Some(
                MenuView {
                    control: Control::SelectGuildRoles,
                    min_values: 0,
                    max_values: page_capacity(s),
                    options: plain_options(s.roles, current_page(s)),
                },
            )
        } else {
            None
        },
        Phase::ManualOrdering => Some(
            MenuView {
                control: Control::ManualSelection,
                min_values: s.selected.len(),
                max_values: s.selected.len(),
                options: plain_options(s.roles, s.selected),
            },
        ),
        Phase::MaxSelectionChoice => Some(
            MenuView {
                control: Control::MaxSelections,
                min_values: 1,
                max_values: 1,
                options: number_options(s.selected.len()),
            },
        ),
        Phase::Published => Some(selector_menu(s)),
        _ => None,
    }
}

/// What a session in state `s` shows.
pub open spec fn screen_of(s: SessionView) -> ScreenView {
    ScreenView {
        phase: s.phase,
        listed: if s.phase == Phase::RoleSelection {
            selected_names(s)
        } else {
            Seq::empty()
        },
        subject: if s.phase == Phase::DescriptionEntry {
            Some(name_of(s.roles, s.selected[s.descriptions.len() as int]))
        } else {
            None
        },
        page: s.page_index + 1,
        pages: last_page_of(s.roles.len()) + 1,
        content: s.body_content,
        buttons: buttons_of(s),
        menu: menu_of(s),
    }
}

/// The values of a finished selector's options are read back as the selected
/// roles, one for one.
pub proof fn law_options_read_back(s: SessionView, k: int)
    requires
        0 <= k < s.selected.len(),
    ensures
        selector_menu(s).options.len() == s.selected.len(),
        parsed_u64(selector_menu(s).options[k].value) == Some(s.selected[k]),
{
    law_decimal_round_trip(s.selected[k]);
}

/// The name the directory gives to `id`; empty if it has no such role.
pub fn role_name(directory: &Directory, id: u64) -> (name: String)
    requires
        directory.wf(),
    ensures
        name@ == name_of(directory.roles(), id),
{
    match directory.position(id) {
        Some(k) => {
            proof {
                lemma_name_of(directory.roles(), k as int);
            }
            directory.role_at(k).name.clone()
        },
        None => String::new(),
    }
}

/// One option for each of `ids`, in order, without descriptions.
pub fn role_options(directory: &Directory, ids: &Vec<u64>) -> (options: Vec<MenuOption>)
    requires
        directory.wf(),
    ensures
        options_of(options@) == plain_options(directory.roles(), ids@),
{
    let mut options: Vec<MenuOption> = Vec::new();
    let mut k: usize = 0;
    while k < ids.len()
        invariant
            k <= ids.len(),
            directory.wf(),
            options@.len() == k,
            forall|e: int|
                0 <= e < k ==> (#[trigger] options@[e])@ == role_option(
                    directory.roles(),
                    ids@[e],
                    None,
                    None,
                ),
        decreases ids.len() - k,
    {
        options.push(
            MenuOption {
                value: decimal_text(ids[k]),
                label: role_name(directory, ids[k]),
                description: None,
                emoji: None,
            },
        );
        k = k + 1;
    }
    assert(options_of(options@) =~= plain_options(directory.roles(), ids@));
    options
}

/// The options `1` to `count`, each labelled by its number.
pub fn numbered_options(count: usize) -> (options: Vec<MenuOption>)
    ensures
        options_of(options@) == number_options(count as nat),
{
    let mut options: Vec<MenuOption> = Vec::new();
    let mut k: usize = 0;
    while k < count
        invariant
            k <= count,
            options@.len() == k,
            forall|e: int|
                0 <= e < k ==> (#[trigger] options@[e])@ == number_options(count as nat)[e],
        decreases count - k,
    {
        let number: u64 = (k + 1) as u64;
        options.push(
            MenuOption {
                value: decimal_text(number),
                label: decimal_text(number),
                description: None,
                emoji: None,
            },
        );
        k = k + 1;
    }
    assert(options_of(options@) =~= number_options(count as nat));
    options
}

/// Whether every selected role has an emoji.
pub fn every_role_has_emoji(session: &SelectorSession) -> (covered: bool)
    ensures
        covered == emojis_cover(session@),
{
    let selected = session.selected_roles();
    let mut k: usize = 0;
    while k < selected.len()
        invariant
            k <= selected.len(),
            selected@ == session@.selected,
            forall|e: int|
                0 <= e < k ==> emoji_of(session@.emojis, #[trigger] selected@[e]).is_some(),
        decreases selected.len() - k,
    {
        if session.emoji_for(selected[k]).is_none() {
            return false;
        }
        k = k + 1;
    }
    true
}

/// The options of the finished selector.
pub fn selector_role_options(session: &SelectorSession) -> (options: Vec<MenuOption>)
    requires
        session.wf(),
    ensures
        options_of(options@) == selector_options(session@),
{
    proof {
        session.lemma_wf();
    }
    let directory = session.directory();
    let selected = session.selected_roles();
    let descriptions = session.role_descriptions();
    let described: bool = descriptions.len() == selected.len();
    let covered: bool = every_role_has_emoji(session);
    let mut options: Vec<MenuOption> = Vec::new();
    let mut k: usize = 0;
    while k < selected.len()
        invariant
            k <= selected.len(),
            directory.wf(),
            directory.roles() == session@.roles,
            selected@ == session@.selected,
            texts_of(descriptions@) == session@.descriptions,
            described == (descriptions@.len() == selected@.len()),
            covered == emojis_cover(session@),
            options@.len() == k,
            forall|e: int|
                0 <= e < k ==> (#[trigger] options@[e])@ == selector_options(session@)[e],
        decreases selected.len() - k,
    {
        let description: Option<String> = if described {
            assert(texts_of(descriptions@)[k as int] == descriptions@[k as int]@);
            Some(descriptions[k].clone())
        } else {
            None
        };
        let emoji: Option<u64> = if covered {
            session.emoji_for(selected[k])
        } else {
            None
        };
        options.push(
            MenuOption {
                value: decimal_text(selected[k]),
                label: role_name(directory, selected[k]),
                description,
                emoji,
            },
        );
        k = k + 1;
    }
    assert(options_of(options@) =~= selector_options(session@));
    options
}

/// The names of the selected roles, in order.
pub fn names_of_selected(session: &SelectorSession) -> (names: Vec<String>)
    requires
        session.wf(),
    ensures
        texts_of(names@) == selected_names(session@),
{
    proof {
        session.lemma_wf();
    }
    let directory = session.directory();
    let selected = session.selected_roles();
    let mut names: Vec<String> = Vec::new();
    let mut k: usize = 0;
    while k < selected.len()
        invariant
            k <= selected.len(),
            directory.wf(),
            directory.roles() == session@.roles,
            selected@ == session@.selected,
            names@.len() == k,
            forall|e: int|
                0 <= e < k ==> (#[trigger] names@[e])@ == name_of(session@.roles, selected@[e]),
        decreases selected.len() - k,
    {
        names.push(role_name(directory, selected[k]));
        k = k + 1;
    }
    assert(texts_of(names@) =~= selected_names(session@));
    names
}

/// The buttons of the phase the session is at.
pub fn phase_buttons(session: &SelectorSession) -> (buttons: Vec<Button>)
    requires
        session.wf(),
    ensures
        buttons@ == buttons_of(session@),
{
    proof {
        session.lemma_wf();
    }
    let mut buttons: Vec<Button> = Vec::new();
    match session.phase() {
        Phase::RoleSelection => {
            let first = session.page_index() == 0;
            let last = session.page_index() >= session.directory().last_page();
            let nothing = session.selected_roles().len() == 0;
            buttons.push(Button { control: Control::PreviousPage, disabled: first });
            buttons.push(Button { control: Control::NextPage, disabled: last });
            buttons.push(Button { control: Control::Continue, disabled: nothing });
            buttons.push(Button { control: Control::Cancel, disabled: false });
        },
        Phase::OrderingChoice => {
            buttons.push(Button { control: Control::Alphabetical, disabled: false });
            buttons.push(Button { control: Control::Manual, disabled: false });
            buttons.push(Button { control: Control::Cancel, disabled: false });
        },
        Phase::DescriptionChoice => {
            buttons.push(Button { control: Control::Yes, disabled: false });
            buttons.push(Button { control: Control::No, disabled: false });
            buttons.push(Button { control: Control::Cancel, disabled: false });
        },
        Phase::BodyAuthoring => {
            buttons.push(Button { control: Control::SetMessage, disabled: false });
            buttons.push(Button { control: Control::AddEmbed, disabled: false });
            buttons.push(Button { control: Control::Done, disabled: false });
            buttons.push(Button { control: Control::Cancel, disabled: false });
        },
        _ => {},
    }
    assert(buttons@ =~= buttons_of(session@));
    buttons
}

/// The menu of the phase the session is at, if it has one.
pub fn phase_menu(session: &SelectorSession) -> (menu: Option<Menu>)
    requires
        session.wf(),
    ensures
        match menu {
            Some(m) => menu_of(session@) == Some(m@),
            None => menu_of(session@).is_none(),
        },
{
    proof {
        session.lemma_wf();
    }
    let directory = session.directory();
    let selected = session.selected_roles();
    match session.phase() {
        Phase::RoleSelection => {
            let page = directory.page_role_ids(session.page_index());
            let elsewhere = pick_ids(selected, &page, selected);
            proof {
                crate::selection::lemma_pick(selected@, page@, selected@);
            }
            let left: usize = MAX_ROLES - elsewhere.len();
            let capacity: usize = if left <= page.len() {
                left
            } else {
                page.len()
            };
            if capacity > 0 {
                Some(
                    Menu {
                        control: Control::SelectGuildRoles,
                        min_values: 0,
                        max_values: capacity,
                        options: role_options(directory, &page),
                    },
                )
            } else {
                None
            }
        },
        Phase::ManualOrdering => Some(
            Menu {
                control: Control::ManualSelection,
                min_values: selected.len(),
                max_values: selected.len(),
                options: role_options(directory, selected),
            },
        ),
        Phase::MaxSelectionChoice => Some(
            Menu {
                control: Control::MaxSelections,
                min_values: 1,
                max_values: 1,
                options: numbered_options(selected.len()),
            },
        ),
        Phase::Published => Some(
            Menu {
                control: Control::SelectMenu,
                min_values: 0,
                max_values: session.max_selections(),
                options: selector_role_options(session),
            },
        ),
        _ => None,
    }
}

/// What the session shows in the state it is in.
pub fn render(session: &SelectorSession) -> (screen: Screen)
    requires
        session.wf(),
    ensures
        screen@ == screen_of(session@),
{
    proof {
        session.lemma_wf();
    }
    let phase = session.phase();
    let listed: Vec<String> = if phase == Phase::RoleSelection {
        names_of_selected(session)
    } else {
        let none: Vec<String> = Vec::new();
        assert(texts_of(none@) =~= Seq::<Seq<char>>::empty());
        none
    };
    let subject: Option<String> = if phase == Phase::DescriptionEntry {
        let entered = session.role_descriptions();
        let next: usize = entered.len();
        assert(texts_of(entered@).len() == next);
        Some(role_name(session.directory(), session.selected_roles()[next]))
    } else {
        None
    };
    let size: usize = session.directory().len();
    assert(last_page_of(size as nat) < usize::MAX);
    Screen {
        phase,
        listed,
        subject,
        page: session.page_index() + 1,
        pages: session.directory().last_page() + 1,
        content: session.body_content().clone(),
        buttons: phase_buttons(session),
        menu: phase_menu(session),
    }
}

/// The finished selector, and what is to be done with the messages involved.
#[derive(Debug)]
pub struct Publication {
    /// The message that carries the selector from now on: the selector that
    /// was edited, or else the setup message itself.
    pub selector_message_id: u64,
    /// The message to record as a live selector; nothing after an edit, whose
    /// selector is recorded already.
    pub record: Option<u64>,
    /// The setup message to delete, after an edit.
    pub discard: Option<u64>,
    /// The text of the selector message.
    pub content: String,
    /// The embeds of the selector message, each as JSON text.
    pub embeds: Vec<String>,
    pub menu: Menu,
}

/// A publication as the contracts see it.
pub struct PublicationView {
    pub selector_message_id: u64,
    pub record: Option<u64>,
    pub discard: Option<u64>,
    pub content: Seq<char>,
    pub embeds: Seq<Seq<char>>,
    pub menu: MenuView,
}

impl View for Publication {
    type V = PublicationView;

    open spec fn view(&self) -> PublicationView {
        PublicationView {
            selector_message_id: self.selector_message_id,
            record: self.record,
            discard: self.discard,
            content: self.content@,
            embeds: texts_of(self.embeds@),
            menu: self.menu@,
        }
    }
}

/// What a finished session publishes.
pub open spec fn publication_of(s: SessionView) -> PublicationView {
    PublicationView {
        selector_message_id: match s.edit_target {
            Some(target) => target,
            None => s.owner_message_id,
        },
        record: match s.edit_target {
            Some(_) => None,
            None => Some(s.owner_message_id),
        },
        discard: match s.edit_target {
            Some(_) => Some(s.owner_message_id),
            None => None,
        },
        content: s.body_content,
        embeds: s.body_embeds,
        menu: selector_menu(s),
    }
}

/// A copy of each string of `list`.
pub fn copy_texts(list: &Vec<String>) -> (copy: Vec<String>)
    ensures
        texts_of(copy@) == texts_of(list@),
{
    let mut copy: Vec<String> = Vec::new();
    let mut k: usize = 0;
    while k < list.len()
        invariant
            k <= list.len(),
            copy@.len() == k,
            forall|e: int| 0 <= e < k ==> (#[trigger] copy@[e])@ == list@[e]@,
        decreases list.len() - k,
    {
        copy.push(list[k].clone());
        k = k + 1;
    }
    assert(texts_of(copy@) =~= texts_of(list@));
    copy
}

/// The finished selector of a session that has reached publication; `None`
/// in any other phase.
pub fn publish(session: &SelectorSession) -> (publication: Option<Publication>)
    requires
        session.wf(),
    ensures
        match publication {
            Some(p) => session@.phase == Phase::Published && p@ == publication_of(session@),
            None => session@.phase != Phase::Published,
        },
{
    if session.phase() != Phase::Published {
        return None;
    }
    let owner = session.owner_message_id();
    let (selector_message_id, record, discard) = match session.edit_target() {
        Some(target) => (target, None, Some(owner)),
        None => (owner, Some(owner), None),
    };
    Some(
        Publication {
            selector_message_id,
            record,
            discard,
            content: session.body_content().clone(),
            embeds: copy_texts(session.body_embeds()),
            menu: Menu {
                control: Control::SelectMenu,
                min_values: 0,
                max_values: session.max_selections(),
                options: selector_role_options(session),
            },
        },
    )
}

} // verus!
