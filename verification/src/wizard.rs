//! A setup session in memory: the directory it owns, what the operator has
//! chosen so far, and the one entry point that applies the next action.
use vstd::prelude::*;
use crate::directory::{has_emoji_id, has_id, Directory, EmojiRef};
use crate::embed::mark_rich;
use crate::events::{read_event, reading, Event};
use crate::invariants::{lemma_accept_embed_inv, lemma_opened_inv, lemma_step_preserves_inv};
use crate::ordering::sort_by_name;
use crate::selection::{
    all_distinct, contains_id, keep_checked, lemma_append_new, select_roles_on_page,
};
use crate::text::{text_of, texts_of};
use crate::session::{
    accept_embed, assigned, emoji_entry, emoji_of, inv, is_rearrangement, lemma_assigned_inv,
    opened, seed_of, step, Action, Notice, Outcome, Phase, SessionView, MAX_ROLES,
};

verus! {

/// Whether `order` lists the entries of `selected`, each once.
pub fn lists_each_once(order: &Vec<u64>, selected: &Vec<u64>) -> (valid: bool)
    ensures
        valid == is_rearrangement(order@, selected@),
{
    if order.len() != selected.len() || !all_distinct(order) {
        return false;
    }
    let mut k: usize = 0;
    while k < order.len()
        invariant
            k <= order.len(),
            forall|e: int| 0 <= e < k ==> selected@.contains(#[trigger] order@[e]),
        decreases order.len() - k,
    {
        if !contains_id(selected, order[k]) {
            return false;
        }
        k = k + 1;
    }
    true
}

/// One role-selector setup in progress.
pub struct SelectorSession {
    owner_message_id: u64,
    channel_id: u64,
    edit_target: Option<u64>,
    directory: Directory,
    phase: Phase,
    page_index: usize,
    selected_roles: Vec<u64>,
    role_descriptions: Vec<String>,
    max_selections: usize,
    body_content: String,
    body_embeds: Vec<String>,
    role_emojis: Vec<(u64, u64)>,
}

impl View for SelectorSession {
    type V = SessionView;

    closed spec fn view(&self) -> SessionView {
        SessionView {
            owner_message_id: self.owner_message_id,
            channel_id: self.channel_id,
            edit_target: self.edit_target,
            roles: self.directory.roles(),
            phase: self.phase,
            page_index: self.page_index as nat,
            selected: self.selected_roles@,
            descriptions: texts_of(self.role_descriptions@),
            max_selections: self.max_selections as nat,
            body_content: self.body_content@,
            body_embeds: texts_of(self.body_embeds@),
            emojis: self.role_emojis@,
        }
    }
}

impl SelectorSession {
    /// The session satisfies the invariant of all sessions.
    pub closed spec fn wf(&self) -> bool {
        inv(self@)
    }

    /// A well-formed session satisfies the invariant.
    pub proof fn lemma_wf(&self)
        requires
            self.wf(),
        ensures
            inv(self@),
    {
    }

    /// Opens a session on the message `owner_message_id`, with nothing
    /// selected yet.
    pub fn open(owner_message_id: u64, channel_id: u64, directory: Directory) -> (session: Self)
        requires
            directory.wf(),
        ensures
            session.wf(),
            session@ == opened(
                owner_message_id,
                channel_id,
                None,
                directory.roles(),
                Seq::empty(),
            ),
    {
        proof {
            lemma_opened_inv(
                owner_message_id,
                channel_id,
                None,
                directory.roles(),
                Seq::empty(),
            );
        }
        let session = SelectorSession {
            owner_message_id,
            channel_id,
            edit_target: None,
            directory,
            phase: Phase::RoleSelection,
            page_index: 0,
            selected_roles: Vec::new(),
            role_descriptions: Vec::new(),
            max_selections: 0,
            body_content: String::new(),
            body_embeds: Vec::new(),
            role_emojis: Vec::new(),
        };
        assert(session@.descriptions =~= Seq::empty());
        assert(session@.body_embeds =~= Seq::empty());
        session
    }

    /// Opens a session that edits the published selector `target`, starting
    /// from the roles it offers: those of `existing` that the directory still
    /// has, each once, in their order.
    pub fn open_edit(
        owner_message_id: u64,
        channel_id: u64,
        directory: Directory,
        target: u64,
        existing: &Vec<u64>,
    ) -> (session: Self)
        requires
            directory.wf(),
        ensures
            session.wf(),
            session@ == opened(
                owner_message_id,
                channel_id,
                Some(target),
                directory.roles(),
                seed_of(directory.ids(), existing@),
            ),
    {
        let ids = directory.role_ids();
        let nothing: Vec<u64> = Vec::new();
        let mut seed = select_roles_on_page(&nothing, &ids, existing);
        let ghost known = seed@;
        proof {
            assert(keep_checked(nothing@, ids@, existing@) =~= Seq::<u64>::empty());
            lemma_append_new(Seq::<u64>::empty(), ids@, existing@);
        }
        if seed.len() > MAX_ROLES {
            seed.truncate(MAX_ROLES);
        }
        proof {
            assert(seed@ =~= seed_of(ids@, existing@));
            assert forall|k: int| 0 <= k < seed@.len() implies has_id(
                directory.roles(),
                #[trigger] seed@[k],
            ) by {
                assert(seed@[k] == known[k]);
                assert(known.contains(known[k]));
                assert(ids@.contains(known[k]));
                let e = choose|e: int| 0 <= e < ids@.len() && ids@[e] == known[k];
                assert(directory.roles()[e].id == known[k]);
            }
            assert(seed@.no_duplicates()) by {
                assert forall|i: int, j: int|
                    0 <= i < seed@.len() && 0 <= j < seed@.len() && i != j implies seed@[i]
                    != seed@[j] by {
                    assert(seed@[i] == known[i] && seed@[j] == known[j]);
                }
            }
            lemma_opened_inv(
                owner_message_id,
                channel_id,
                Some(target),
                directory.roles(),
                seed@,
            );
        }
        let session = SelectorSession {
            owner_message_id,
            channel_id,
            edit_target: Some(target),
            directory,
            phase: Phase::RoleSelection,
            page_index: 0,
            selected_roles: seed,
            role_descriptions: Vec::new(),
            max_selections: 0,
            body_content: String::new(),
            body_embeds: Vec::new(),
            role_emojis: Vec::new(),
        };
        assert(session@.descriptions =~= Seq::empty());
        assert(session@.body_embeds =~= Seq::empty());
        session
    }

    /// Takes the reply that was awaited as an embed, given what it was read
    /// as: `None` where it was no JSON object. Outside the wait for an embed
    /// nothing happens.
    pub fn accept_embed(&mut self, embed: Option<String>) -> (outcome: Outcome)
        requires
            old(self).wf(),
        ensures
            final(self).wf(),
            old(self)@.phase == Phase::AwaitingEmbed ==> (final(self)@, outcome) == accept_embed(
                old(self)@,
                text_of(embed),
            ),
            old(self)@.phase != Phase::AwaitingEmbed ==> final(self)@ == old(self)@ && outcome
                == Outcome::Ignored,
    {
        if self.phase != Phase::AwaitingEmbed {
            return Outcome::Ignored;
        }
        proof {
            lemma_accept_embed_inv(self@, text_of(embed));
        }
        self.phase = Phase::BodyAuthoring;
        match embed {
            Some(json) => {
                let ghost before = self.body_embeds@;
                self.body_embeds.push(json);
                assert(texts_of(self.body_embeds@) =~= texts_of(before).push(json@));
                Outcome::Updated
            },
            None => Outcome::Rejected(Notice::InvalidEmbed),
        }
    }

    /// Applies one action and says what the caller has to do next.
    pub fn apply(&mut self, action: Action) -> (outcome: Outcome)
        requires
            old(self).wf(),
        ensures
            final(self).wf(),
            (final(self)@, outcome) == step(old(self)@, action@),
    {
        proof {
            lemma_step_preserves_inv(self@, action@);
        }
        if self.phase == Phase::Published || self.phase == Phase::Cancelled {
            return Outcome::Ignored;
        }
        match (self.phase, action) {
            (_, Action::Timeout) => {
                self.phase = Phase::Cancelled;
                Outcome::Cancelled
            },
            (_, Action::Ignored) => Outcome::Ignored,
            (Phase::RoleSelection, Action::PreviousPage) => {
                if self.page_index > 0 {
                    self.page_index = self.page_index - 1;
                }
                Outcome::Updated
            },
            (Phase::RoleSelection, Action::NextPage) => {
                if self.page_index < self.directory.last_page() {
                    self.page_index = self.page_index + 1;
                }
                Outcome::Updated
            },
            (Phase::RoleSelection, Action::Continue) => {
                if self.selected_roles.len() > 0 {
                    self.phase = Phase::OrderingChoice;
                    Outcome::Updated
                } else {
                    Outcome::Ignored
                }
            },
            (Phase::RoleSelection, Action::SelectRoles(ids)) => {
                let page = self.directory.page_role_ids(self.page_index);
                let chosen = select_roles_on_page(&self.selected_roles, &page, &ids);
                if chosen.len() <= MAX_ROLES {
                    self.selected_roles = chosen;
                    Outcome::Updated
                } else {
                    Outcome::Rejected(Notice::InvalidSelection)
                }
            },
            (Phase::RoleSelection, Action::Malformed) => Outcome::Rejected(
                Notice::InvalidSelection,
            ),
            (Phase::OrderingChoice, Action::Alphabetical) => {
                self.selected_roles = sort_by_name(&self.directory, &self.selected_roles);
                self.phase = Phase::DescriptionChoice;
                Outcome::Updated
            },
            (Phase::OrderingChoice, Action::Manual) => {
                self.phase = Phase::ManualOrdering;
                Outcome::Updated
            },
            (Phase::ManualOrdering, Action::Reorder(order)) => {
                if lists_each_once(&order, &self.selected_roles) {
                    self.selected_roles = order;
                    self.phase = Phase::DescriptionChoice;
                    Outcome::Updated
                } else {
                    Outcome::Rejected(Notice::InvalidOrder)
                }
            },
            (Phase::ManualOrdering, Action::Malformed) => Outcome::Rejected(Notice::InvalidOrder),
            (Phase::DescriptionChoice, Action::WithDescriptions) => {
                self.phase = Phase::DescriptionEntry;
                Outcome::Updated
            },
            (Phase::DescriptionChoice, Action::WithoutDescriptions) => {
                self.phase = Phase::MaxSelectionChoice;
                Outcome::Updated
            },
            (Phase::DescriptionEntry, Action::Reply(text)) => {
                let ghost before = self.role_descriptions@;
                self.role_descriptions.push(text);
                assert(texts_of(self.role_descriptions@) =~= texts_of(before).push(text@));
                if self.role_descriptions.len() >= self.selected_roles.len() {
                    self.phase = Phase::MaxSelectionChoice;
                }
                Outcome::Updated
            },
            (Phase::MaxSelectionChoice, Action::ChooseMaximum(n)) => {
                if 1 <= n && n <= self.selected_roles.len() as u64 {
                    self.max_selections = n as usize;
                    self.phase = Phase::BodyAuthoring;
                    Outcome::Updated
                } else {
                    Outcome::Rejected(Notice::InvalidMaximum)
                }
            },
            (Phase::MaxSelectionChoice, Action::Malformed) => Outcome::Rejected(
                Notice::InvalidMaximum,
            ),
            (Phase::BodyAuthoring, Action::SetMessage) => {
                self.phase = Phase::AwaitingMessage;
                Outcome::Updated
            },
            (Phase::BodyAuthoring, Action::AddEmbed) => {
                self.phase = Phase::AwaitingEmbed;
                Outcome::Updated
            },
            (Phase::BodyAuthoring, Action::Done) => {
                self.phase = Phase::Published;
                Outcome::Published
            },
            (Phase::AwaitingMessage, Action::Reply(text)) => {
                self.body_content = text;
                self.phase = Phase::BodyAuthoring;
                Outcome::Updated
            },
            (Phase::AwaitingEmbed, Action::Reply(text)) => {
                let embed = mark_rich(text.as_str());
                self.accept_embed(embed)
            },
            (Phase::RoleSelection, Action::Cancel)
            | (Phase::OrderingChoice, Action::Cancel)
            | (Phase::DescriptionChoice, Action::Cancel)
            | (Phase::BodyAuthoring, Action::Cancel) => {
                self.phase = Phase::Cancelled;
                Outcome::Cancelled
            },
            _ => Outcome::Ignored,
        }
    }

    /// Handles the next event delivered for this session: reads it against
    /// the phase, applies the action, and says what the caller has to do.
    pub fn handle_event(&mut self, event: Event) -> (outcome: Outcome)
        requires
            old(self).wf(),
        ensures
            final(self).wf(),
            (final(self)@, outcome) == step(old(self)@, reading(old(self)@, event)),
    {
        let action = read_event(self, event);
        self.apply(action)
    }

    /// The step the session is at.
    pub fn phase(&self) -> (phase: Phase)
        ensures
            phase == self@.phase,
    {
        self.phase
    }

    /// The message that shows the setup.
    pub fn owner_message_id(&self) -> (id: u64)
        ensures
            id == self@.owner_message_id,
    {
        self.owner_message_id
    }

    /// The channel the setup message is in.
    pub fn channel_id(&self) -> (id: u64)
        ensures
            id == self@.channel_id,
    {
        self.channel_id
    }

    /// The published selector that is being edited, if any.
    pub fn edit_target(&self) -> (id: Option<u64>)
        ensures
            id == self@.edit_target,
    {
        self.edit_target
    }

    /// The page of the directory that is shown.
    pub fn page_index(&self) -> (page: usize)
        ensures
            page == self@.page_index,
    {
        self.page_index
    }

    /// The roles chosen so far, in their order.
    pub fn selected_roles(&self) -> (roles: &Vec<u64>)
        ensures
            roles@ == self@.selected,
    {
        &self.selected_roles
    }

    /// How many roles a member may hold at once; zero until it was chosen.
    pub fn max_selections(&self) -> (max: usize)
        ensures
            max == self@.max_selections,
    {
        self.max_selections
    }

    /// The text of the selector message.
    pub fn body_content(&self) -> (text: &String)
        ensures
            text@ == self@.body_content,
    {
        &self.body_content
    }

    /// The embeds of the selector message, each as JSON text.
    pub fn body_embeds(&self) -> (embeds: &Vec<String>)
        ensures
            texts_of(embeds@) == self@.body_embeds,
    {
        &self.body_embeds
    }

    /// The descriptions entered so far; entry `k` describes selected role `k`.
    pub fn role_descriptions(&self) -> (texts: &Vec<String>)
        ensures
            texts_of(texts@) == self@.descriptions,
    {
        &self.role_descriptions
    }

    /// The emoji given to roles, each entry a role and its emoji.
    pub fn role_emojis(&self) -> (emojis: &Vec<(u64, u64)>)
        ensures
            emojis@ == self@.emojis,
    {
        &self.role_emojis
    }

    /// The emoji given to `role`, if any.
    pub fn emoji_for(&self, role: u64) -> (emoji: Option<u64>)
        ensures
            emoji == emoji_of(self@.emojis, role),
    {
        match self.emoji_position(role) {
            Some(k) => Some(self.role_emojis[k].1),
            None => None,
        }
    }

    /// Position of the entry that gives `role` its emoji.
    fn emoji_position(&self, role: u64) -> (at: Option<usize>)
        ensures
            match at {
                Some(k) => emoji_entry(self@.emojis, role, 0) == Some(k as int) && k
                    < self@.emojis.len(),
                None => emoji_entry(self@.emojis, role, 0).is_none(),
            },
    {
        let mut k: usize = 0;
        while k < self.role_emojis.len()
            invariant
                k <= self.role_emojis@.len(),
                emoji_entry(self.role_emojis@, role, 0) == emoji_entry(
                    self.role_emojis@,
                    role,
                    k as int,
                ),
            decreases self.role_emojis.len() - k,
        {
            if self.role_emojis[k].0 == role {
                return Some(k);
            }
            k = k + 1;
        }
        None
    }

    /// The emoji of the directory the session works from.
    pub closed spec fn known_emojis(&self) -> Seq<EmojiRef> {
        self.directory.emojis()
    }

    /// Gives `role` the emoji `emoji` and says whether it did: it does if the
    /// session is not over, the role is selected, and the directory has the
    /// emoji. A role that had an emoji gets the new one in its place.
    pub fn assign_emoji(&mut self, role: u64, emoji: u64) -> (given: bool)
        requires
            old(self).wf(),
        ensures
            final(self).wf(),
            final(self).known_emojis() == old(self).known_emojis(),
            (final(self)@, given) == assigned(
                old(self)@,
                has_emoji_id(old(self).known_emojis(), emoji),
                role,
                emoji,
            ),
    {
        proof {
            lemma_assigned_inv(
                self@,
                has_emoji_id(self.known_emojis(), emoji),
                role,
                emoji,
            );
        }
        if self.phase == Phase::Published || self.phase == Phase::Cancelled {
            return false;
        }
        if !self.directory.has_emoji(emoji) || !contains_id(&self.selected_roles, role) {
            return false;
        }
        match self.emoji_position(role) {
            Some(k) => {
                self.role_emojis.set(k, (role, emoji));
            },
            None => {
                self.role_emojis.push((role, emoji));
            },
        }
        true
    }

    /// The directory the session works from.
    pub fn directory(&self) -> (directory: &Directory)
        ensures
            directory.roles() == self@.roles,
            directory.emojis() == self.known_emojis(),
    {
        &self.directory
    }
}

} // verus!
