//! Telling what changed between two voice states of a member.
use vstd::prelude::*;

verus! {

/// What a member did, or what was done to them, in voice.
#[derive(Clone, Copy, Debug, PartialEq, Eq, Structural)]
pub enum VoiceStateChange {
    LeftVoiceChannel,
    JoinedVoiceChannel,
    MovedVoiceChannel,
    ServerDeafened,
    ServerMuted,
    SelfDeafened,
    SelfMuted,
    _SelfStream,
    SelfVideo,
    Suppress,
}

/// The part of a member's voice state that changes are read from.
#[derive(Clone, Copy, Debug, PartialEq, Eq, Structural)]
pub struct VoiceSnapshot {
    pub channel_id: Option<u64>,
    pub deaf: bool,
    pub mute: bool,
    pub self_deaf: bool,
    pub self_mute: bool,
    pub self_video: bool,
    pub suppress: bool,
}

/// The change from `old` to `new`. Of several changes at once the first in
/// this order is named: joining, moving, leaving, then the flags.
pub open spec fn change_between(old: Option<VoiceSnapshot>, new: VoiceSnapshot) -> Option<
    VoiceStateChange,
> {
    match old {
        None => Some(VoiceStateChange::JoinedVoiceChannel),
        Some(before) => if before.channel_id.is_some() && new.channel_id.is_some()
            && before.channel_id != new.channel_id {
            Some(VoiceStateChange::MovedVoiceChannel)
        } else if new.channel_id.is_none() {
            Some(VoiceStateChange::LeftVoiceChannel)
        } else if before.deaf != new.deaf {
            Some(VoiceStateChange::ServerDeafened)
        } else if before.mute != new.mute {
            Some(VoiceStateChange::ServerMuted)
        } else if before.self_deaf != new.self_deaf {
            Some(VoiceStateChange::SelfDeafened)
        } else if before.self_mute != new.self_mute {
            Some(VoiceStateChange::SelfMuted)
        } else if before.self_video != new.self_video {
            Some(VoiceStateChange::SelfVideo)
        } else if before.suppress != new.suppress {
            Some(VoiceStateChange::Suppress)
        } else {
            None
        },
    }
}

/// Names the change from `old_state` to `new`; `None` if nothing that is
/// tracked has changed.
pub fn identify_state(old_state: &Option<VoiceSnapshot>, new: &VoiceSnapshot) -> (change: Option<
    VoiceStateChange,
>)
    ensures
        change == change_between(*old_state, *new),
{
    let before = match old_state {
        None => {
            return Some(VoiceStateChange::JoinedVoiceChannel);
        },
        Some(before) => before,
    };
    if let Some(old_id) = before.channel_id {
        if let Some(new_id) = new.channel_id {
            if old_id != new_id {
                return Some(VoiceStateChange::MovedVoiceChannel);
            }
        }
    }
    if new.channel_id.is_none() {
        return Some(VoiceStateChange::LeftVoiceChannel);
    }
    if before.deaf != new.deaf {
        return Some(VoiceStateChange::ServerDeafened);
    }
    if before.mute != new.mute {
        return Some(VoiceStateChange::ServerMuted);
    }
    if before.self_deaf != new.self_deaf {
        return Some(VoiceStateChange::SelfDeafened);
    }
    if before.self_mute != new.self_mute {
        return Some(VoiceStateChange::SelfMuted);
    }
    if before.self_video != new.self_video {
        return Some(VoiceStateChange::SelfVideo);
    }
    if before.suppress != new.suppress {
        return Some(VoiceStateChange::Suppress);
    }
    None
}

/// The words a change is logged with.
pub open spec fn words_of(change: VoiceStateChange) -> Seq<char> {
    match change {
        VoiceStateChange::LeftVoiceChannel => "Left voice channel"@,
        VoiceStateChange::JoinedVoiceChannel => "Joined voice channel"@,
        VoiceStateChange::MovedVoiceChannel => "Moved voice channel"@,
        VoiceStateChange::ServerDeafened => "Server deafened"@,
        VoiceStateChange::ServerMuted => "Server muted"@,
        VoiceStateChange::SelfDeafened => "Self deafened"@,
        VoiceStateChange::SelfMuted => "Self muted"@,
        VoiceStateChange::_SelfStream => "Self stream"@,
        VoiceStateChange::SelfVideo => "Self video"@,
        VoiceStateChange::Suppress => "Suppress"@,
    }
}

impl VoiceStateChange {
    /// The words the change is logged with.
    pub fn describe(&self) -> (words: &'static str)
        ensures
            words@ == words_of(*self),
    {
        match self {
            VoiceStateChange::LeftVoiceChannel => "Left voice channel",
            VoiceStateChange::JoinedVoiceChannel => "Joined voice channel",
            VoiceStateChange::MovedVoiceChannel => "Moved voice channel",
            VoiceStateChange::ServerDeafened => "Server deafened",
            VoiceStateChange::ServerMuted => "Server muted",
            VoiceStateChange::SelfDeafened => "Self deafened",
            VoiceStateChange::SelfMuted => "Self muted",
            VoiceStateChange::_SelfStream => "Self stream",
            VoiceStateChange::SelfVideo => "Self video",
            VoiceStateChange::Suppress => "Suppress",
        }
    }
}

} // verus!
