//! The actions that can be asked of the bot from outside, by name.
use vstd::prelude::*;
use crate::text::same_text;

verus! {

/// An action that can be asked of the bot from outside.
#[derive(Clone, Copy, Debug, PartialEq, Eq, Structural)]
pub enum DiscordAction {
    EmbedCreate,
    EmbedDelete,
    EmbedEdit,
    EmbedGet,
    RoleSelectorCreate,
    RoleSelectorDelete,
    RoleSelectorEdit,
}

/// The action that `name` names, if it names one. Names are matched exactly.
pub open spec fn action_named(name: Seq<char>) -> Option<DiscordAction> {
    if name == "EmbedCreate"@ {
        Some(DiscordAction::EmbedCreate)
    } else if name == "EmbedDelete"@ {
        Some(DiscordAction::EmbedDelete)
    } else if name == "EmbedEdit"@ {
        Some(DiscordAction::EmbedEdit)
    } else if name == "EmbedGet"@ {
        Some(DiscordAction::EmbedGet)
    } else if name == "RoleSelectorCreate"@ {
        Some(DiscordAction::RoleSelectorCreate)
    } else if name == "RoleSelectorDelete"@ {
        Some(DiscordAction::RoleSelectorDelete)
    } else if name == "RoleSelectorEdit"@ {
        Some(DiscordAction::RoleSelectorEdit)
    } else {
        None
    }
}

impl DiscordAction {
    /// Reads an action from its name.
    pub fn from_str(s: &str) -> (action: Result<DiscordAction, ()>)
        ensures
            match action {
                Ok(a) => action_named(s@) == Some(a),
                Err(_) => action_named(s@).is_none(),
            },
    {
        if same_text(s, "EmbedCreate") {
            Ok(DiscordAction::EmbedCreate)
        } else if same_text(s, "EmbedDelete") {
            Ok(DiscordAction::EmbedDelete)
        } else if same_text(s, "EmbedEdit") {
            Ok(DiscordAction::EmbedEdit)
        } else if same_text(s, "EmbedGet") {
            Ok(DiscordAction::EmbedGet)
        } else if same_text(s, "RoleSelectorCreate") {
            Ok(DiscordAction::RoleSelectorCreate)
        } else if same_text(s, "RoleSelectorDelete") {
            Ok(DiscordAction::RoleSelectorDelete)
        } else if same_text(s, "RoleSelectorEdit") {
            Ok(DiscordAction::RoleSelectorEdit)
        } else {
            Err(())
        }
    }
}

} // verus!
