//! Reading what the gateway delivers against the phase of a session: which
//! control was used, and with what payload.
use vstd::prelude::*;
use crate::numbers::{parse_u64, parsed_u64};
use crate::session::{Action, ActionView, Phase, SessionView};
use crate::text::same_text;
use crate::wizard::SelectorSession;

verus! {

/// What the gateway delivered while a session was waiting.
#[derive(Debug)]
pub enum Event {
    /// A button was pressed or a select menu submitted on a message.
    Component { message_id: u64, custom_id: String, values: Vec<String> },
    /// The message `message_id` was posted in a channel, possibly in reply to
    /// another.
    Reply { message_id: u64, channel_id: u64, referenced_message_id: Option<u64>, content: String },
    /// Nothing arrived within the waiting time.
    Timeout,
}

/// Every value is decimal text of an id.
pub open spec fn all_ids(values: Seq<String>) -> bool {
    forall|k: int| 0 <= k < values.len() ==> parsed_u64(#[trigger] values[k]@).is_some()
}

/// The ids that the values denote, in order; `None` if one of them is no id.
pub open spec fn parsed_ids(values: Seq<String>) -> Option<Seq<u64>> {
    if all_ids(values) {
        Some(Seq::new(values.len(), |k: int| parsed_u64(values[k]@).unwrap()))
    } else {
        None
    }
}

/// The phase waits for a reply to the setup message.
pub open spec fn awaits_reply(phase: Phase) -> bool {
    phase == Phase::DescriptionEntry || phase == Phase::AwaitingMessage || phase
        == Phase::AwaitingEmbed
}

/// A submission of roles, or of an order, as an action.
pub open spec fn read_ids(values: Seq<String>, reorder: bool) -> ActionView {
    match parsed_ids(values) {
        Some(ids) => if reorder {
            ActionView::Reorder(ids)
        } else {
            ActionView::SelectRoles(ids)
        },
        None => ActionView::Malformed,
    }
}

/// A submission of the maximum as an action: its first value, read as a number.
pub open spec fn read_maximum(values: Seq<String>) -> ActionView {
    if values.len() > 0 && parsed_u64(values[0]@).is_some() {
        ActionView::ChooseMaximum(parsed_u64(values[0]@).unwrap())
    } else {
        ActionView::Malformed
    }
}

/// The action that a control of the setup message stands for in `phase`.
pub open spec fn read_component(phase: Phase, id: Seq<char>, values: Seq<String>) -> ActionView {
    match phase {
        Phase::RoleSelection => if id == "previous_page"@ {
            ActionView::PreviousPage
        } else if id == "next_page"@ {
            ActionView::NextPage
        } else if id == "continue"@ {
            ActionView::Continue
        } else if id == "cancel"@ {
            ActionView::Cancel
        } else if id == "select_guild_roles"@ {
            read_ids(values, false)
        } else {
            ActionView::Ignored
        },
        Phase::OrderingChoice => if id == "alphabetical"@ {
            ActionView::Alphabetical
        } else if id == "manual"@ {
            ActionView::Manual
        } else if id == "cancel"@ {
            ActionView::Cancel
        } else {
            ActionView::Ignored
        },
        Phase::ManualOrdering => if id == "manual_selection"@ {
            read_ids(values, true)
        } else {
            ActionView::Ignored
        },
        Phase::DescriptionChoice => if id == "yes"@ {
            ActionView::WithDescriptions
        } else if id == "no"@ {
            ActionView::WithoutDescriptions
        } else if id == "cancel"@ {
            ActionView::Cancel
        } else {
            ActionView::Ignored
        },
        Phase::MaxSelectionChoice => if id == "max_selections"@ {
            read_maximum(values)
        } else {
            ActionView::Ignored
        },
        Phase::BodyAuthoring => if id == "set_message"@ {
            ActionView::SetMessage
        } else if id == "add_embed"@ {
            ActionView::AddEmbed
        } else if id == "done"@ {
            ActionView::Done
        } else if id == "cancel"@ {
            ActionView::Cancel
        } else {
            ActionView::Ignored
        },
        _ => ActionView::Ignored,
    }
}

/// The action that `event` stands for in the state `s`.
///
/// A component counts only on the session's own message. A reply counts only
/// while one is awaited, in the session's channel, and in reply to that
/// message.
pub open spec fn reading(s: SessionView, event: Event) -> ActionView {
    match event {
        Event::Timeout => ActionView::Timeout,
        Event::Component { message_id, custom_id, values } => if message_id
            == s.owner_message_id {
            read_component(s.phase, custom_id@, values@)
        } else {
            ActionView::Ignored
        },
        Event::Reply { message_id, channel_id, referenced_message_id, content } => if awaits_reply(
            s.phase,
        ) && channel_id == s.channel_id && referenced_message_id == Some(s.owner_message_id) {
            ActionView::Reply(content@)
        } else {
            ActionView::Ignored
        },
    }
}

/// The message to delete once `event` has been handled: the reply that the
/// session takes, and no other message.
pub open spec fn reply_taken(s: SessionView, event: Event) -> Option<u64> {
    match event {
        Event::Reply { message_id, channel_id, referenced_message_id, content } => if reading(
            s,
            event,
        ) is Reply {
            Some(message_id)
        } else {
            None
        },
        _ => None,
    }
}

/// Reads each value as an id. `None` if one of them is no id.
pub fn parse_ids(values: &Vec<String>) -> (ids: Option<Vec<u64>>)
    ensures
        match ids {
            Some(list) => parsed_ids(values@) == Some(list@),
            None => parsed_ids(values@).is_none(),
        },
{
    let mut list: Vec<u64> = Vec::new();
    let mut k: usize = 0;
    while k < values.len()
        invariant
            k <= values.len(),
            list@.len() == k,
            forall|e: int| 0 <= e < k ==> parsed_u64(#[trigger] values@[e]@) == Some(list@[e]),
        decreases values.len() - k,
    {
        match parse_u64(values[k].as_str()) {
            Some(id) => {
                list.push(id);
            },
            None => {
                return None;
            },
        }
        k = k + 1;
    }
    assert(list@ =~= parsed_ids(values@).unwrap());
    Some(list)
}

/// Reads a submission of roles, or of an order.
fn ids_action(values: &Vec<String>, reorder: bool) -> (action: Action)
    ensures
        action@ == read_ids(values@, reorder),
{
    match parse_ids(values) {
        Some(ids) => if reorder {
            Action::Reorder(ids)
        } else {
            Action::SelectRoles(ids)
        },
        None => Action::Malformed,
    }
}

/// Reads a submission of the maximum.
fn maximum_action(values: &Vec<String>) -> (action: Action)
    ensures
        action@ == read_maximum(values@),
{
    if values.len() == 0 {
        return Action::Malformed;
    }
    match parse_u64(values[0].as_str()) {
        Some(n) => Action::ChooseMaximum(n),
        None => Action::Malformed,
    }
}

/// Reads a control of the setup message against the phase.
pub fn component_action(phase: Phase, custom_id: &str, values: &Vec<String>) -> (action: Action)
    ensures
        action@ == read_component(phase, custom_id@, values@),
{
    match phase {
        Phase::RoleSelection => {
            if same_text(custom_id, "previous_page") {
                Action::PreviousPage
            } else if same_text(custom_id, "next_page") {
                Action::NextPage
            } else if same_text(custom_id, "continue") {
                Action::Continue
            } else if same_text(custom_id, "cancel") {
                Action::Cancel
            } else if same_text(custom_id, "select_guild_roles") {
                ids_action(values, false)
            } else {
                Action::Ignored
            }
        },
        Phase::OrderingChoice => {
            if same_text(custom_id, "alphabetical") {
                Action::Alphabetical
            } else if same_text(custom_id, "manual") {
                Action::Manual
            } else if same_text(custom_id, "cancel") {
                Action::Cancel
            } else {
                Action::Ignored
            }
        },
        Phase::ManualOrdering => {
            if same_text(custom_id, "manual_selection") {
                ids_action(values, true)
            } else {
                Action::Ignored
            }
        },
        Phase::DescriptionChoice => {
            if same_text(custom_id, "yes") {
                Action::WithDescriptions
            } else if same_text(custom_id, "no") {
                Action::WithoutDescriptions
            } else if same_text(custom_id, "cancel") {
                Action::Cancel
            } else {
                Action::Ignored
            }
        },
        Phase::MaxSelectionChoice => {
            if same_text(custom_id, "max_selections") {
                maximum_action(values)
            } else {
                Action::Ignored
            }
        },
        Phase::BodyAuthoring => {
            if same_text(custom_id, "set_message") {
                Action::SetMessage
            } else if same_text(custom_id, "add_embed") {
                Action::AddEmbed
            } else if same_text(custom_id, "done") {
                Action::Done
            } else if same_text(custom_id, "cancel") {
                Action::Cancel
            } else {
                Action::Ignored
            }
        },
        _ => Action::Ignored,
    }
}

/// Reads an event against the session it was delivered for.
pub fn read_event(session: &SelectorSession, event: Event) -> (action: Action)
    ensures
        action@ == reading(session@, event),
{
    match event {
        Event::Timeout => Action::Timeout,
        Event::Component { message_id, custom_id, values } => {
            if message_id == session.owner_message_id() {
                component_action(session.phase(), custom_id.as_str(), &values)
            } else {
                Action::Ignored
            }
        },
        Event::Reply { message_id, channel_id, referenced_message_id, content } => {
            if takes_reply(session, channel_id, referenced_message_id) {
                Action::Reply(content)
            } else {
                Action::Ignored
            }
        },
    }
}

/// Whether the session takes a reply posted in `channel_id` in reply to
/// `referenced_message_id`.
fn takes_reply(session: &SelectorSession, channel_id: u64, referenced_message_id: Option<u64>) -> (taken:
    bool)
    ensures
        taken == (awaits_reply(session@.phase) && channel_id == session@.channel_id
            && referenced_message_id == Some(session@.owner_message_id)),
{
    let phase = session.phase();
    let awaited = phase == Phase::DescriptionEntry || phase == Phase::AwaitingMessage || phase
        == Phase::AwaitingEmbed;
    let to_owner = match referenced_message_id {
        Some(id) => id == session.owner_message_id(),
        None => false,
    };
    awaited && channel_id == session.channel_id() && to_owner
}

/// The message to delete once `event` has been handled: the reply that the
/// session takes, and no other message.
pub fn reply_to_delete(session: &SelectorSession, event: &Event) -> (message: Option<u64>)
    ensures
        message == reply_taken(session@, *event),
{
    match event {
        Event::Reply { message_id, channel_id, referenced_message_id, content } => {
            if takes_reply(session, *channel_id, *referenced_message_id) {
                Some(*message_id)
            } else {
                None
            }
        },
        _ => None,
    }
}

} // verus!
