//! The setups in progress, each found by the message it owns, and the one
//! entry point that hands an event to the session it is meant for.
use vstd::prelude::*;
use crate::events::{reading, Event};
use crate::invariants::lemma_step_preserves_inv;
use crate::render::{
    publication_of, publish, render, screen_of, Publication, PublicationView, Screen, ScreenView,
};
use crate::session::{inv, step, Notice, Outcome, Phase, SessionView};
use crate::wizard::SelectorSession;

verus! {

/// What the caller has to do after an event was handled.
#[derive(Debug)]
pub enum Directive {
    /// Nothing: no session owns the message, or the event changed nothing.
    Nothing,
    /// Edit the setup message to show the screen, with the notice if any.
    Show { message_id: u64, screen: Screen, notice: Option<Notice> },
    /// Delete the setup message; the session is gone and nothing is recorded.
    Delete { message_id: u64 },
    /// Publish the finished selector; the session is gone.
    Publish(Publication),
}

/// A directive as the contracts see it.
pub enum DirectiveView {
    Nothing,
    Show { message_id: u64, screen: ScreenView, notice: Option<Notice> },
    Delete { message_id: u64 },
    Publish(PublicationView),
}

impl View for Directive {
    type V = DirectiveView;

    open spec fn view(&self) -> DirectiveView {
        match self {
            Directive::Nothing => DirectiveView::Nothing,
            Directive::Show { message_id, screen, notice } => DirectiveView::Show {
                message_id: *message_id,
                screen: screen@,
                notice: *notice,
            },
            Directive::Delete { message_id } => DirectiveView::Delete { message_id: *message_id },
            Directive::Publish(publication) => DirectiveView::Publish(publication@),
        }
    }
}

/// The session is over: finished or given up.
pub open spec fn is_over(phase: Phase) -> bool {
    phase == Phase::Published || phase == Phase::Cancelled
}

/// What is to be done once a session has reached state `t` with `outcome`.
pub open spec fn directive_for(t: SessionView, outcome: Outcome) -> DirectiveView {
    match outcome {
        Outcome::Ignored => DirectiveView::Nothing,
        Outcome::Updated => DirectiveView::Show {
            message_id: t.owner_message_id,
            screen: screen_of(t),
            notice: None,
        },
        Outcome::Rejected(notice) => DirectiveView::Show {
            message_id: t.owner_message_id,
            screen: screen_of(t),
            notice: Some(notice),
        },
        Outcome::Cancelled => DirectiveView::Delete { message_id: t.owner_message_id },
        Outcome::Published => DirectiveView::Publish(publication_of(t)),
    }
}

/// Position of the session that owns `message_id`, searched from `from`.
pub open spec fn owner_from(sessions: Seq<SessionView>, message_id: u64, from: int) -> Option<int>
    decreases sessions.len() - from + 1,
{
    if from < 0 || from >= sessions.len() {
        None
    } else if sessions[from].owner_message_id == message_id {
        Some(from)
    } else {
        owner_from(sessions, message_id, from + 1)
    }
}

/// Position of the session that owns `message_id`, if there is one.
pub open spec fn owner_of(sessions: Seq<SessionView>, message_id: u64) -> Option<int> {
    owner_from(sessions, message_id, 0)
}

/// The sessions after `event` was handled for the owner of `message_id`: the
/// session it is meant for has taken its step, and has left if it is over.
pub open spec fn sessions_after(sessions: Seq<SessionView>, message_id: u64, event: Event) -> Seq<
    SessionView,
> {
    match owner_of(sessions, message_id) {
        Some(k) => {
            let t = step(sessions[k], reading(sessions[k], event)).0;
            if is_over(t.phase) {
                sessions.remove(k)
            } else {
                sessions.update(k, t)
            }
        },
        None => sessions,
    }
}

/// What is to be done after `event` was handled for the owner of `message_id`.
pub open spec fn directive_after(sessions: Seq<SessionView>, message_id: u64, event: Event)
    -> DirectiveView {
    match owner_of(sessions, message_id) {
        Some(k) => {
            let (t, outcome) = step(sessions[k], reading(sessions[k], event));
            directive_for(t, outcome)
        },
        None => DirectiveView::Nothing,
    }
}

/// No two sessions own the same message, each satisfies the invariant of
/// sessions, and none is over.
pub open spec fn registry_inv(sessions: Seq<SessionView>) -> bool {
    &&& forall|i: int, j: int|
        0 <= i < j < sessions.len() ==> sessions[i].owner_message_id
            != sessions[j].owner_message_id
    &&& forall|i: int| 0 <= i < sessions.len() ==> inv(#[trigger] sessions[i])
    &&& forall|i: int| 0 <= i < sessions.len() ==> !is_over((#[trigger] sessions[i]).phase)
}

/// The setups in progress.
pub struct SessionRegistry {
    sessions: Vec<SelectorSession>,
}

impl SessionRegistry {
    /// The sessions, in the order they were opened.
    pub closed spec fn sessions(&self) -> Seq<SessionView> {
        Seq::new(self.sessions@.len(), |k: int| self.sessions@[k]@)
    }

    /// The registry is consistent.
    pub closed spec fn wf(&self) -> bool {
        &&& registry_inv(self.sessions())
        &&& forall|k: int| 0 <= k < self.sessions@.len() ==> (#[trigger] self.sessions@[k]).wf()
    }

    /// A consistent registry satisfies the invariant of registries.
    pub proof fn lemma_wf(&self)
        requires
            self.wf(),
        ensures
            registry_inv(self.sessions()),
    {
    }

    /// A registry without sessions.
    pub fn new() -> (registry: SessionRegistry)
        ensures
            registry.wf(),
            registry.sessions().len() == 0,
    {
        SessionRegistry { sessions: Vec::new() }
    }

    /// Number of setups in progress.
    pub fn len(&self) -> (n: usize)
        ensures
            n == self.sessions().len(),
    {
        self.sessions.len()
    }

    /// Position of the session that owns `message_id`.
    fn position(&self, message_id: u64) -> (at: Option<usize>)
        ensures
            match at {
                Some(k) => owner_of(self.sessions(), message_id) == Some(k as int) && k
                    < self.sessions@.len(),
                None => owner_of(self.sessions(), message_id).is_none(),
            },
    {
        let mut k: usize = 0;
        while k < self.sessions.len()
            invariant
                k <= self.sessions@.len(),
                owner_of(self.sessions(), message_id) == owner_from(
                    self.sessions(),
                    message_id,
                    k as int,
                ),
            decreases self.sessions.len() - k,
        {
            if self.sessions[k].owner_message_id() == message_id {
                return Some(k);
            }
            k = k + 1;
        }
        None
    }

    /// Whether a session owns `message_id`.
    pub fn contains(&self, message_id: u64) -> (found: bool)
        ensures
            found == owner_of(self.sessions(), message_id).is_some(),
    {
        self.position(message_id).is_some()
    }

    /// Takes a session in. It is turned away, and the registry left as it is,
    /// if the session is over or its message is owned already.
    pub fn register(&mut self, session: SelectorSession) -> (taken: bool)
        requires
            old(self).wf(),
            session.wf(),
        ensures
            final(self).wf(),
            taken == (!is_over(session@.phase) && owner_of(
                old(self).sessions(),
                session@.owner_message_id,
            ).is_none()),
            final(self).sessions() == if taken {
                old(self).sessions().push(session@)
            } else {
                old(self).sessions()
            },
    {
        let phase = session.phase();
        if phase == Phase::Published || phase == Phase::Cancelled {
            return false;
        }
        if self.position(session.owner_message_id()).is_some() {
            return false;
        }
        proof {
            session.lemma_wf();
            lemma_owner_from(self.sessions(), session@.owner_message_id, 0);
        }
        let ghost before = self.sessions();
        self.sessions.push(session);
        assert(self.sessions() =~= before.push(session@));
        true
    }

    /// Hands `event` to the session that owns `message_id`, and says what the
    /// caller has to do. A session that is over leaves the registry.
    pub fn handle(&mut self, message_id: u64, event: Event) -> (directive: Directive)
        requires
            old(self).wf(),
        ensures
            final(self).wf(),
            final(self).sessions() == sessions_after(old(self).sessions(), message_id, event),
            directive@ == directive_after(old(self).sessions(), message_id, event),
    {
        let k: usize = match self.position(message_id) {
            Some(k) => k,
            None => {
                return Directive::Nothing;
            },
        };
        let ghost before = self.sessions();
        let ghost held = self.sessions@;
        proof {
            lemma_owner_from(before, message_id, 0);
        }
        let mut session = self.sessions.remove(k);
        assert(session == held[k as int]);
        let outcome = session.handle_event(event);
        proof {
            session.lemma_wf();
        }
        let directive = match outcome {
            Outcome::Ignored => Directive::Nothing,
            Outcome::Updated => Directive::Show {
                message_id: session.owner_message_id(),
                screen: render(&session),
                notice: None,
            },
            Outcome::Rejected(notice) => Directive::Show {
                message_id: session.owner_message_id(),
                screen: render(&session),
                notice: Some(notice),
            },
            Outcome::Cancelled => Directive::Delete { message_id: session.owner_message_id() },
            Outcome::Published => match publish(&session) {
                Some(publication) => Directive::Publish(publication),
                None => Directive::Nothing,
            },
        };
        let phase = session.phase();
        if phase == Phase::Published || phase == Phase::Cancelled {
            assert(self.sessions() =~= before.remove(k as int));
        } else {
            self.sessions.insert(k, session);
            assert(self.sessions@ =~= held.update(k as int, session));
            assert(self.sessions() =~= before.update(k as int, session@));
        }
        directive
    }
}

/// A session that is still waiting when the time is up leaves the registry,
/// its setup message is to be deleted, and nothing is published.
pub proof fn law_timeout_discards(sessions: Seq<SessionView>, message_id: u64)
    requires
        registry_inv(sessions),
        owner_of(sessions, message_id).is_some(),
    ensures
        directive_after(sessions, message_id, Event::Timeout) == (DirectiveView::Delete {
            message_id,
        }),
        sessions_after(sessions, message_id, Event::Timeout) == sessions.remove(
            owner_of(sessions, message_id).unwrap(),
        ),
{
    lemma_owner_from(sessions, message_id, 0);
}

/// Whatever is handled, the registry stays consistent.
pub proof fn law_registry_stays_consistent(
    sessions: Seq<SessionView>,
    message_id: u64,
    event: Event,
)
    requires
        registry_inv(sessions),
    ensures
        registry_inv(sessions_after(sessions, message_id, event)),
{
    lemma_owner_from(sessions, message_id, 0);
    match owner_of(sessions, message_id) {
        Some(k) => {
            let s = sessions[k];
            lemma_step_preserves_inv(s, reading(s, event));
            let t = step(s, reading(s, event)).0;
            let after = sessions_after(sessions, message_id, event);
            if is_over(t.phase) {
                assert forall|i: int| 0 <= i < after.len() implies inv(#[trigger] after[i])
                    && !is_over(after[i].phase) by {
                    if i < k {
                        assert(after[i] == sessions[i]);
                    } else {
                        assert(after[i] == sessions[i + 1]);
                    }
                }
                assert forall|i: int, j: int| 0 <= i < j < after.len() implies after[i].owner_message_id
                    != after[j].owner_message_id by {
                    let a = if i < k { i } else { i + 1 };
                    let b = if j < k { j } else { j + 1 };
                    assert(after[i] == sessions[a] && after[j] == sessions[b]);
                }
            } else {
                assert forall|i: int| 0 <= i < after.len() implies inv(#[trigger] after[i])
                    && !is_over(after[i].phase) by {
                    if i != k {
                        assert(after[i] == sessions[i]);
                    }
                }
                assert forall|i: int, j: int| 0 <= i < j < after.len() implies after[i].owner_message_id
                    != after[j].owner_message_id by {
                    assert(after[i].owner_message_id == sessions[i].owner_message_id);
                    assert(after[j].owner_message_id == sessions[j].owner_message_id);
                }
            }
        },
        None => {},
    }
}

/// `owner_from` returns the first session at or after `from` that owns the
/// message, and `None` only if none does.
pub proof fn lemma_owner_from(sessions: Seq<SessionView>, message_id: u64, from: int)
    requires
        0 <= from,
    ensures
        match owner_from(sessions, message_id, from) {
            Some(k) => from <= k < sessions.len() && sessions[k].owner_message_id == message_id,
            None => forall|i: int|
                from <= i < sessions.len() ==> (#[trigger] sessions[i]).owner_message_id
                    != message_id,
        },
    decreases sessions.len() - from + 1,
{
    if from < sessions.len() && sessions[from].owner_message_id != message_id {
        lemma_owner_from(sessions, message_id, from + 1);
    }
}

} // verus!
