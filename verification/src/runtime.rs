//! What a click on a published selector does to the member who clicked.
use vstd::prelude::*;
use crate::selection::{pick, pick_ids};
use crate::text::same_text;

verus! {

/// A control of a published selector.
#[derive(Clone, Copy, Debug, PartialEq, Eq, Structural)]
pub enum SelectorControl {
    /// The select menu that offers the roles.
    Menu,
    /// Reopens the setup on the selector.
    Edit,
    /// Takes every role of the selector from the member.
    ClearRoles,
    /// Anything else; not a control of a selector.
    Unknown,
}

/// What is to be done for the member who used a control.
#[derive(Debug)]
pub enum MemberPlan {
    /// Nothing: the message is no live selector, the control is none of its
    /// controls, or the member may not use it.
    Nothing,
    /// Grant the roles of `add`, then revoke those of `remove`.
    ChangeRoles { add: Vec<u64>, remove: Vec<u64> },
    /// Open a setup session that edits the selector.
    OpenEdit,
}

/// A plan as the contracts see it.
pub enum MemberPlanView {
    Nothing,
    ChangeRoles { add: Seq<u64>, remove: Seq<u64> },
    OpenEdit,
}

impl View for MemberPlan {
    type V = MemberPlanView;

    open spec fn view(&self) -> MemberPlanView {
        match self {
            MemberPlan::Nothing => MemberPlanView::Nothing,
            MemberPlan::ChangeRoles { add, remove } => MemberPlanView::ChangeRoles {
                add: add@,
                remove: remove@,
            },
            MemberPlan::OpenEdit => MemberPlanView::OpenEdit,
        }
    }
}

/// The control that a custom id names.
pub open spec fn control_named(id: Seq<char>) -> SelectorControl {
    if id == "selectmenu"@ {
        SelectorControl::Menu
    } else if id == "edit_selector"@ {
        SelectorControl::Edit
    } else if id == "clear_roles"@ {
        SelectorControl::ClearRoles
    } else {
        SelectorControl::Unknown
    }
}

/// The roles to grant: those submitted that the member does not hold, each once.
pub open spec fn roles_to_add(submitted: Seq<u64>, held: Seq<u64>) -> Seq<u64> {
    pick(submitted, held, submitted)
}

/// The roles to revoke: the options of the menu that were not submitted and
/// that the member holds, each once.
pub open spec fn roles_to_remove(options: Seq<u64>, submitted: Seq<u64>, held: Seq<u64>) -> Seq<
    u64,
> {
    pick(options, submitted, held)
}

/// The plan for a member who used `control` on a message.
///
/// `live` says whether the message is recorded as a published selector,
/// `administrator` whether the member may edit it; `options` are the roles
/// the menu offers, `submitted` those the member sent, `held` those the
/// member has.
pub open spec fn planned(
    live: bool,
    control: SelectorControl,
    administrator: bool,
    options: Seq<u64>,
    submitted: Seq<u64>,
    held: Seq<u64>,
) -> MemberPlanView {
    if !live {
        MemberPlanView::Nothing
    } else {
        match control {
            SelectorControl::Menu => MemberPlanView::ChangeRoles {
                add: roles_to_add(submitted, held),
                remove: roles_to_remove(options, submitted, held),
            },
            SelectorControl::ClearRoles => MemberPlanView::ChangeRoles {
                add: Seq::empty(),
                remove: roles_to_remove(options, Seq::empty(), held),
            },
            SelectorControl::Edit => if administrator {
                MemberPlanView::OpenEdit
            } else {
                MemberPlanView::Nothing
            },
            SelectorControl::Unknown => MemberPlanView::Nothing,
        }
    }
}

/// Reads the custom id of a control on a published selector.
pub fn selector_control(custom_id: &str) -> (control: SelectorControl)
    ensures
        control == control_named(custom_id@),
{
    if same_text(custom_id, "selectmenu") {
        SelectorControl::Menu
    } else if same_text(custom_id, "edit_selector") {
        SelectorControl::Edit
    } else if same_text(custom_id, "clear_roles") {
        SelectorControl::ClearRoles
    } else {
        SelectorControl::Unknown
    }
}

/// Decides what a click on a published selector does.
pub fn plan_member_roles(
    live: bool,
    control: SelectorControl,
    administrator: bool,
    options: &Vec<u64>,
    submitted: &Vec<u64>,
    held: &Vec<u64>,
) -> (plan: MemberPlan)
    ensures
        plan@ == planned(live, control, administrator, options@, submitted@, held@),
{
    if !live {
        return MemberPlan::Nothing;
    }
    match control {
        SelectorControl::Menu => {
            let add = pick_ids(submitted, held, submitted);
            let remove = pick_ids(options, submitted, held);
            MemberPlan::ChangeRoles { add, remove }
        },
        SelectorControl::ClearRoles => {
            let nothing: Vec<u64> = Vec::new();
            let remove = pick_ids(options, &nothing, held);
            assert(nothing@ =~= Seq::<u64>::empty());
            MemberPlan::ChangeRoles { add: Vec::new(), remove }
        },
        SelectorControl::Edit => {
            if administrator {
                MemberPlan::OpenEdit
            } else {
                MemberPlan::Nothing
            }
        },
        SelectorControl::Unknown => MemberPlan::Nothing,
    }
}

/// A member gains exactly the submitted roles not yet held, and loses exactly
/// the roles of the menu that are held and were not submitted. No role is both
/// granted and revoked, and no role is revoked that the menu does not offer.
pub proof fn law_member_roles(options: Seq<u64>, submitted: Seq<u64>, held: Seq<u64>, x: u64)
    ensures
        roles_to_add(submitted, held).contains(x) <==> submitted.contains(x) && !held.contains(x),
        roles_to_remove(options, submitted, held).contains(x) <==> options.contains(x)
            && !submitted.contains(x) && held.contains(x),
        !(roles_to_add(submitted, held).contains(x) && roles_to_remove(
            options,
            submitted,
            held,
        ).contains(x)),
        !options.contains(x) ==> !roles_to_remove(options, submitted, held).contains(x),
{
    crate::selection::lemma_pick(submitted, held, submitted);
    crate::selection::lemma_pick(options, submitted, held);
}

} // verus!
