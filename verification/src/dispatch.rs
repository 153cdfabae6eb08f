//! Routing what the gateway delivers to the feature it belongs to, and the
//! fixed rules of single guilds.
use vstd::prelude::*;
use vstd::string::*;
use crate::numbers::{decimal_digits, decimal_text};
use crate::runtime::{control_named, selector_control, SelectorControl};
use crate::text::same_text;

verus! {

/// The guild whose new members are greeted.
pub const WELCOME_GUILD_ID: u64 = 713889872359981076;

/// The message whose reactions grant the role of that guild.
pub const RULES_MESSAGE_ID: u64 = 716047715208921110;

/// The role that a reaction to the rules grants, and every new member gets.
pub const RULES_ROLE_ID: u64 = 715247696663019560;

/// The guild whose voice channels are logged.
pub const VOICE_LOG_GUILD_ID: u64 = 687876072045412560;

/// The feature that an application command belongs to.
#[derive(Clone, Copy, Debug, PartialEq, Eq, Structural)]
pub enum CommandRoute {
    CreateRoleSelector,
    Mutex,
    WebBlock,
    EditRoleSelector,
    Unknown,
}

/// The feature that a message component belongs to.
#[derive(Clone, Copy, Debug, PartialEq, Eq, Structural)]
pub enum ComponentRoute {
    /// A control of a published role selector.
    RoleSelector,
    Unknown,
}

/// The feature that the command `name` belongs to.
pub open spec fn command_route_of(name: Seq<char>) -> CommandRoute {
    if name == "createroleselector"@ {
        CommandRoute::CreateRoleSelector
    } else if name == "mutex"@ {
        CommandRoute::Mutex
    } else if name == "webblock"@ {
        CommandRoute::WebBlock
    } else if name == "Edit Role Selector"@ {
        CommandRoute::EditRoleSelector
    } else {
        CommandRoute::Unknown
    }
}

/// Routes an application command by its name.
pub fn command_route(name: &str) -> (route: CommandRoute)
    ensures
        route == command_route_of(name@),
{
    if same_text(name, "createroleselector") {
        CommandRoute::CreateRoleSelector
    } else if same_text(name, "mutex") {
        CommandRoute::Mutex
    } else if same_text(name, "webblock") {
        CommandRoute::WebBlock
    } else if same_text(name, "Edit Role Selector") {
        CommandRoute::EditRoleSelector
    } else {
        CommandRoute::Unknown
    }
}

/// Routes a message component by its custom id: the controls of a published
/// selector go to the role selector.
pub fn component_route(custom_id: &str) -> (route: ComponentRoute)
    ensures
        route == if control_named(custom_id@) == SelectorControl::Unknown {
            ComponentRoute::Unknown
        } else {
            ComponentRoute::RoleSelector
        },
{
    match selector_control(custom_id) {
        SelectorControl::Unknown => ComponentRoute::Unknown,
        _ => ComponentRoute::RoleSelector,
    }
}

/// Whether a member who joined `guild_id` is greeted and given the role.
pub fn greets_new_members(guild_id: u64) -> (greets: bool)
    ensures
        greets == (guild_id == WELCOME_GUILD_ID),
{
    guild_id == WELCOME_GUILD_ID
}

/// Whether the voice channels of `guild_id` are logged; a voice state that
/// names no guild is not.
pub fn logs_voice(guild_id: Option<u64>) -> (logs: bool)
    ensures
        logs == (guild_id == Some(VOICE_LOG_GUILD_ID)),
{
    match guild_id {
        Some(id) => id == VOICE_LOG_GUILD_ID,
        None => false,
    }
}

/// The role that a reaction to the message `message_id` grants, if any.
pub fn role_for_reaction(message_id: u64) -> (role: Option<u64>)
    ensures
        role == if message_id == RULES_MESSAGE_ID {
            Some(RULES_ROLE_ID)
        } else {
            None::<u64>
        },
{
    if message_id == RULES_MESSAGE_ID {
        Some(RULES_ROLE_ID)
    } else {
        None
    }
}

/// The greeting for the member `user_id`.
pub open spec fn welcome_of(user_id: u64) -> Seq<char> {
    "Welcome <@"@ + decimal_digits(user_id as nat)
        + "> to Limited Budgetworks,\nhope you enjoy your stay!"@
}

/// The greeting for a new member, who is mentioned by id.
pub fn welcome_text(user_id: u64) -> (text: String)
    ensures
        text@ == welcome_of(user_id),
{
    let mut text: String = "Welcome <@".to_owned();
    text.append(decimal_text(user_id).as_str());
    text.append("> to Limited Budgetworks,\nhope you enjoy your stay!");
    text
}

} // verus!
