//! The state of one role-selector setup and the rule by which an operator's
//! action moves it from one phase to the next.
use vstd::prelude::*;
use crate::directory::{ascending, has_id, ids_of, last_page_of, page_ids, RoleRef};
use crate::embed::rich_embed;
use crate::ordering::sorted_by_name;
use crate::selection::{append_new, select_on_page};

verus! {

/// Most roles a selector can offer: a select menu holds no more options.
pub const MAX_ROLES: usize = 25;

/// Seconds a session waits for the operator; when they have passed without a
/// qualifying event, the caller hands the session a timeout.
pub const INACTIVITY_TIMEOUT_SECONDS: u64 = 600;

/// The step a setup session is at.
#[derive(Clone, Copy, Debug, PartialEq, Eq, Structural)]
pub enum Phase {
    /// Paging through the directory and choosing the roles to offer.
    RoleSelection,
    /// Choosing between alphabetical and manual order.
    OrderingChoice,
    /// Waiting for the selection to be submitted again, in the wanted order.
    ManualOrdering,
    /// Choosing whether each role gets a description.
    DescriptionChoice,
    /// Waiting for the description of the next role.
    DescriptionEntry,
    /// Choosing how many roles a member may hold at once.
    MaxSelectionChoice,
    /// Composing the body of the selector message.
    BodyAuthoring,
    /// Waiting for the text of the message body.
    AwaitingMessage,
    /// Waiting for the description of one more embed.
    AwaitingEmbed,
    /// The selector is finished and is to be published.
    Published,
    /// The setup was given up; nothing is to be kept.
    Cancelled,
}

/// Why a recognised action was turned down.
#[derive(Clone, Copy, Debug, PartialEq, Eq, Structural)]
pub enum Notice {
    /// The submitted roles cannot be read, or would exceed what a selector can offer.
    InvalidSelection,
    /// The submitted order does not list the selected roles, each once.
    InvalidOrder,
    /// The submitted maximum is not a number between one and the number of roles.
    InvalidMaximum,
    /// The reply is not a JSON object.
    InvalidEmbed,
}

/// What the caller has to do after an action was applied.
#[derive(Clone, Copy, Debug, PartialEq, Eq, Structural)]
pub enum Outcome {
    /// Nothing changed; nothing is to be shown.
    Ignored,
    /// The session moved on; its screen is to be shown.
    Updated,
    /// The action was turned down; the screen is to be shown with the notice.
    Rejected(Notice),
    /// The setup message is to be deleted and the session dropped.
    Cancelled,
    /// The selector is to be published and recorded.
    Published,
}

/// What an operator did, once it has been read against the session's phase.
#[derive(Debug)]
pub enum Action {
    /// Not meant for this session, or not a control of its phase.
    Ignored,
    /// A control of the phase whose payload cannot be read.
    Malformed,
    /// Nothing arrived within the waiting time.
    Timeout,
    Cancel,
    PreviousPage,
    NextPage,
    Continue,
    /// The roles checked on the page that is shown.
    SelectRoles(Vec<u64>),
    Alphabetical,
    Manual,
    /// The selected roles in the order wanted.
    Reorder(Vec<u64>),
    WithDescriptions,
    WithoutDescriptions,
    ChooseMaximum(u64),
    SetMessage,
    AddEmbed,
    Done,
    /// The text of a reply to the setup message.
    Reply(String),
}

/// An action as the contracts see it.
pub enum ActionView {
    Ignored,
    Malformed,
    Timeout,
    Cancel,
    PreviousPage,
    NextPage,
    Continue,
    SelectRoles(Seq<u64>),
    Alphabetical,
    Manual,
    Reorder(Seq<u64>),
    WithDescriptions,
    WithoutDescriptions,
    ChooseMaximum(u64),
    SetMessage,
    AddEmbed,
    Done,
    Reply(Seq<char>),
}

impl View for Action {
    type V = ActionView;

    open spec fn view(&self) -> ActionView {
        match self {
            Action::Ignored => ActionView::Ignored,
            Action::Malformed => ActionView::Malformed,
            Action::Timeout => ActionView::Timeout,
            Action::Cancel => ActionView::Cancel,
            Action::PreviousPage => ActionView::PreviousPage,
            Action::NextPage => ActionView::NextPage,
            Action::Continue => ActionView::Continue,
            Action::SelectRoles(ids) => ActionView::SelectRoles(ids@),
            Action::Alphabetical => ActionView::Alphabetical,
            Action::Manual => ActionView::Manual,
            Action::Reorder(order) => ActionView::Reorder(order@),
            Action::WithDescriptions => ActionView::WithDescriptions,
            Action::WithoutDescriptions => ActionView::WithoutDescriptions,
            Action::ChooseMaximum(n) => ActionView::ChooseMaximum(*n),
            Action::SetMessage => ActionView::SetMessage,
            Action::AddEmbed => ActionView::AddEmbed,
            Action::Done => ActionView::Done,
            Action::Reply(text) => ActionView::Reply(text@),
        }
    }
}

/// The session as the contracts see it.
pub struct SessionView {
    pub owner_message_id: u64,
    pub channel_id: u64,
    /// The published selector that is being edited, if any.
    pub edit_target: Option<u64>,
    /// The role directory, ordered by id.
    pub roles: Seq<RoleRef>,
    pub phase: Phase,
    pub page_index: nat,
    pub selected: Seq<u64>,
    /// Descriptions entered so far: entry `k` describes `selected[k]`.
    pub descriptions: Seq<Seq<char>>,
    pub max_selections: nat,
    pub body_content: Seq<char>,
    pub body_embeds: Seq<Seq<char>>,
    /// The emoji given to roles, each entry a role and its emoji.
    pub emojis: Seq<(u64, u64)>,
}

/// `order` lists the entries of `selected`, each once.
pub open spec fn is_rearrangement(order: Seq<u64>, selected: Seq<u64>) -> bool {
    &&& order.len() == selected.len()
    &&& order.no_duplicates()
    &&& forall|k: int| 0 <= k < order.len() ==> selected.contains(#[trigger] order[k])
}

/// The phase has passed the question of descriptions.
pub open spec fn descriptions_settled(phase: Phase) -> bool {
    phase == Phase::MaxSelectionChoice || maximum_settled(phase)
}

/// The phase has passed the choice of the maximum.
pub open spec fn maximum_settled(phase: Phase) -> bool {
    phase == Phase::BodyAuthoring || phase == Phase::AwaitingMessage || phase
        == Phase::AwaitingEmbed || phase == Phase::Published
}

/// What holds of every session, whatever was done to it.
pub open spec fn inv(s: SessionView) -> bool {
    &&& ascending(s.roles)
    &&& s.page_index <= last_page_of(s.roles.len())
    &&& s.selected.no_duplicates()
    &&& s.selected.len() <= MAX_ROLES
    &&& forall|k: int| 0 <= k < s.selected.len() ==> has_id(s.roles, #[trigger] s.selected[k])
    &&& s.phase != Phase::RoleSelection && s.phase != Phase::Cancelled ==> s.selected.len() >= 1
    &&& s.phase == Phase::DescriptionEntry ==> s.descriptions.len() < s.selected.len()
    &&& s.phase == Phase::RoleSelection || s.phase == Phase::OrderingChoice || s.phase
        == Phase::ManualOrdering || s.phase == Phase::DescriptionChoice
        ==> s.descriptions.len() == 0
    &&& descriptions_settled(s.phase) ==> s.descriptions.len() == 0 || s.descriptions.len()
        == s.selected.len()
    &&& maximum_settled(s.phase) ==> 1 <= s.max_selections <= s.selected.len()
    &&& forall|i: int, j: int| 0 <= i < j < s.emojis.len() ==> s.emojis[i].0 != s.emojis[j].0
}

/// The state with only its phase changed.
pub open spec fn at_phase(s: SessionView, phase: Phase) -> SessionView {
    SessionView { phase, ..s }
}

/// The roles shown on the page the session is at.
pub open spec fn current_page(s: SessionView) -> Seq<u64> {
    page_ids(ids_of(s.roles), s.page_index)
}

/// One step while roles are being selected.
pub open spec fn step_role_selection(s: SessionView, a: ActionView) -> (SessionView, Outcome) {
    match a {
        ActionView::PreviousPage => (
            SessionView {
                page_index: if s.page_index > 0 {
                    (s.page_index - 1) as nat
                } else {
                    0
                },
                ..s
            },
            Outcome::Updated,
        ),
        ActionView::NextPage => (
            SessionView {
                page_index: if s.page_index < last_page_of(s.roles.len()) {
                    s.page_index + 1
                } else {
                    s.page_index
                },
                ..s
            },
            Outcome::Updated,
        ),
        ActionView::Continue => if s.selected.len() > 0 {
            (at_phase(s, Phase::OrderingChoice), Outcome::Updated)
        } else {
            (s, Outcome::Ignored)
        },
        ActionView::SelectRoles(ids) => {
            let chosen = select_on_page(s.selected, current_page(s), ids);
            if chosen.len() <= MAX_ROLES {
                (SessionView { selected: chosen, ..s }, Outcome::Updated)
            } else {
                (s, Outcome::Rejected(Notice::InvalidSelection))
            }
        },
        ActionView::Malformed => (s, Outcome::Rejected(Notice::InvalidSelection)),
        ActionView::Cancel => (at_phase(s, Phase::Cancelled), Outcome::Cancelled),
        _ => (s, Outcome::Ignored),
    }
}

/// One step while the order is being chosen.
pub open spec fn step_ordering(s: SessionView, a: ActionView) -> (SessionView, Outcome) {
    match (s.phase, a) {
        (Phase::OrderingChoice, ActionView::Alphabetical) => (
            SessionView {
                selected: sorted_by_name(s.roles, s.selected),
                phase: Phase::DescriptionChoice,
                ..s
            },
            Outcome::Updated,
        ),
        (Phase::OrderingChoice, ActionView::Manual) => (
            at_phase(s, Phase::ManualOrdering),
            Outcome::Updated,
        ),
        (Phase::OrderingChoice, ActionView::Cancel) => (
            at_phase(s, Phase::Cancelled),
            Outcome::Cancelled,
        ),
        (Phase::ManualOrdering, ActionView::Reorder(order)) => if is_rearrangement(
            order,
            s.selected,
        ) {
            (
                SessionView { selected: order, phase: Phase::DescriptionChoice, ..s },
                Outcome::Updated,
            )
        } else {
            (s, Outcome::Rejected(Notice::InvalidOrder))
        },
        (Phase::ManualOrdering, ActionView::Malformed) => (
            s,
            Outcome::Rejected(Notice::InvalidOrder),
        ),
        _ => (s, Outcome::Ignored),
    }
}

/// One step while descriptions are being asked for and entered.
pub open spec fn step_descriptions(s: SessionView, a: ActionView) -> (SessionView, Outcome) {
    match (s.phase, a) {
        (Phase::DescriptionChoice, ActionView::WithDescriptions) => (
            at_phase(s, Phase::DescriptionEntry),
            Outcome::Updated,
        ),
        (Phase::DescriptionChoice, ActionView::WithoutDescriptions) => (
            at_phase(s, Phase::MaxSelectionChoice),
            Outcome::Updated,
        ),
        (Phase::DescriptionChoice, ActionView::Cancel) => (
            at_phase(s, Phase::Cancelled),
            Outcome::Cancelled,
        ),
        (Phase::DescriptionEntry, ActionView::Reply(text)) => (
            SessionView {
                descriptions: s.descriptions.push(text),
                phase: if s.descriptions.len() + 1 >= s.selected.len() {
                    Phase::MaxSelectionChoice
                } else {
                    Phase::DescriptionEntry
                },
                ..s
            },
            Outcome::Updated,
        ),
        _ => (s, Outcome::Ignored),
    }
}

/// One step while the maximum is being chosen.
pub open spec fn step_maximum(s: SessionView, a: ActionView) -> (SessionView, Outcome) {
    match a {
        ActionView::ChooseMaximum(n) => if 1 <= n <= s.selected.len() {
            (
                SessionView { max_selections: n as nat, phase: Phase::BodyAuthoring, ..s },
                Outcome::Updated,
            )
        } else {
            (s, Outcome::Rejected(Notice::InvalidMaximum))
        },
        ActionView::Malformed => (s, Outcome::Rejected(Notice::InvalidMaximum)),
        _ => (s, Outcome::Ignored),
    }
}

/// One step while the body of the selector is being composed.
pub open spec fn step_body(s: SessionView, a: ActionView) -> (SessionView, Outcome) {
    match (s.phase, a) {
        (Phase::BodyAuthoring, ActionView::SetMessage) => (
            at_phase(s, Phase::AwaitingMessage),
            Outcome::Updated,
        ),
        (Phase::BodyAuthoring, ActionView::AddEmbed) => (
            at_phase(s, Phase::AwaitingEmbed),
            Outcome::Updated,
        ),
        (Phase::BodyAuthoring, ActionView::Done) => (
            at_phase(s, Phase::Published),
            Outcome::Published,
        ),
        (Phase::BodyAuthoring, ActionView::Cancel) => (
            at_phase(s, Phase::Cancelled),
            Outcome::Cancelled,
        ),
        (Phase::AwaitingMessage, ActionView::Reply(text)) => (
            SessionView { body_content: text, phase: Phase::BodyAuthoring, ..s },
            Outcome::Updated,
        ),
        (Phase::AwaitingEmbed, ActionView::Reply(text)) => accept_embed(s, rich_embed(text)),
        _ => (s, Outcome::Ignored),
    }
}

/// The step that ends the wait for an embed, given what the reply was read as.
pub open spec fn accept_embed(s: SessionView, embed: Option<Seq<char>>) -> (SessionView, Outcome) {
    match embed {
        Some(json) => (
            SessionView {
                body_embeds: s.body_embeds.push(json),
                phase: Phase::BodyAuthoring,
                ..s
            },
            Outcome::Updated,
        ),
        None => (at_phase(s, Phase::BodyAuthoring), Outcome::Rejected(Notice::InvalidEmbed)),
    }
}

/// The state after `a`, and what the caller has to do.
///
/// A finished or cancelled session ignores everything. A timeout cancels any
/// other. An action that is no control of the phase changes nothing.
pub open spec fn step(s: SessionView, a: ActionView) -> (SessionView, Outcome) {
    if s.phase == Phase::Published || s.phase == Phase::Cancelled {
        (s, Outcome::Ignored)
    } else if a is Timeout {
        (at_phase(s, Phase::Cancelled), Outcome::Cancelled)
    } else if a is Ignored {
        (s, Outcome::Ignored)
    } else {
        match s.phase {
            Phase::RoleSelection => step_role_selection(s, a),
            Phase::OrderingChoice | Phase::ManualOrdering => step_ordering(s, a),
            Phase::DescriptionChoice | Phase::DescriptionEntry => step_descriptions(s, a),
            Phase::MaxSelectionChoice => step_maximum(s, a),
            _ => step_body(s, a),
        }
    }
}

/// The selection an edit starts from: the roles the published selector
/// offers, as far as the directory still has them, each once, and no more
/// than a selector can offer.
pub open spec fn seed_of(ids: Seq<u64>, existing: Seq<u64>) -> Seq<u64> {
    let known = append_new(Seq::empty(), ids, existing);
    if known.len() <= MAX_ROLES {
        known
    } else {
        known.subrange(0, MAX_ROLES as int)
    }
}

/// The Previous control can be used: there is a page before the one shown.
pub open spec fn previous_enabled(s: SessionView) -> bool {
    s.page_index > 0
}

/// The Next control can be used: there is a page after the one shown.
pub open spec fn next_enabled(s: SessionView) -> bool {
    s.page_index < last_page_of(s.roles.len())
}

/// The Continue control can be used: something is selected.
pub open spec fn continue_enabled(s: SessionView) -> bool {
    s.selected.len() > 0
}

/// The roles that have a description.
pub open spec fn described_roles(s: SessionView) -> Set<u64> {
    Set::new(|id: u64| exists|k: int| 0 <= k < s.descriptions.len() && k < s.selected.len()
        && #[trigger] s.selected[k] == id)
}

/// A session that has just been opened on a directory, with `seed` selected.
pub open spec fn opened(
    owner_message_id: u64,
    channel_id: u64,
    edit_target: Option<u64>,
    roles: Seq<RoleRef>,
    seed: Seq<u64>,
) -> SessionView {
    SessionView {
        owner_message_id,
        channel_id,
        edit_target,
        roles,
        phase: Phase::RoleSelection,
        page_index: 0,
        selected: seed,
        descriptions: Seq::empty(),
        max_selections: 0,
        body_content: Seq::empty(),
        body_embeds: Seq::empty(),
        emojis: Seq::empty(),
    }
}

/// Position of the entry that gives `role` its emoji, searched from `from`.
pub open spec fn emoji_entry(emojis: Seq<(u64, u64)>, role: u64, from: int) -> Option<int>
    decreases emojis.len() - from + 1,
{
    if from < 0 || from >= emojis.len() {
        None
    } else if emojis[from].0 == role {
        Some(from)
    } else {
        emoji_entry(emojis, role, from + 1)
    }
}

/// The emoji given to `role`, if any.
pub open spec fn emoji_of(emojis: Seq<(u64, u64)>, role: u64) -> Option<u64> {
    match emoji_entry(emojis, role, 0) {
        Some(k) => Some(emojis[k].1),
        None => None,
    }
}

/// The entries after `role` was given `emoji`: its entry is replaced where it
/// has one, and added at the end where it has none.
pub open spec fn with_emoji(emojis: Seq<(u64, u64)>, role: u64, emoji: u64) -> Seq<(u64, u64)> {
    match emoji_entry(emojis, role, 0) {
        Some(k) => emojis.update(k, (role, emoji)),
        None => emojis.push((role, emoji)),
    }
}

/// Every selected role has an emoji.
pub open spec fn emojis_cover(s: SessionView) -> bool {
    forall|k: int| 0 <= k < s.selected.len() ==> emoji_of(s.emojis, #[trigger] s.selected[k]).is_some()
}

/// The state after `role` was to be given `emoji`, and whether it was. It is,
/// if the session is not over, the role is selected, and the emoji is `known`
/// to the directory.
pub open spec fn assigned(s: SessionView, known: bool, role: u64, emoji: u64) -> (
    SessionView,
    bool,
) {
    if s.phase != Phase::Published && s.phase != Phase::Cancelled && known && s.selected.contains(
        role,
    ) {
        (SessionView { emojis: with_emoji(s.emojis, role, emoji), ..s }, true)
    } else {
        (s, false)
    }
}

/// `emoji_entry` returns the first entry for the role at or after `from`, and
/// `None` only if there is none.
pub proof fn lemma_emoji_entry(emojis: Seq<(u64, u64)>, role: u64, from: int)
    requires
        0 <= from,
    ensures
        match emoji_entry(emojis, role, from) {
            Some(k) => from <= k < emojis.len() && emojis[k].0 == role,
            None => forall|i: int| from <= i < emojis.len() ==> (#[trigger] emojis[i]).0 != role,
        },
    decreases emojis.len() - from + 1,
{
    if from < emojis.len() && emojis[from].0 != role {
        lemma_emoji_entry(emojis, role, from + 1);
    }
}

/// Giving a role an emoji leaves a session inside the invariant.
pub proof fn lemma_assigned_inv(s: SessionView, known: bool, role: u64, emoji: u64)
    requires
        inv(s),
    ensures
        inv(assigned(s, known, role, emoji).0),
{
    lemma_emoji_entry(s.emojis, role, 0);
}

} // verus!
