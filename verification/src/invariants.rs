//! What every setup session satisfies, from the moment it is opened.
use vstd::prelude::*;
use crate::directory::{
    ascending, has_id, ids_of, last_page_of, page_ids, page_start, RoleRef,
};
use crate::ordering::{lemma_sorted_by_name_rearranges, sorted_by_name};
use crate::selection::{keep_checked, lemma_append_new, lemma_keep_checked, select_on_page};
use crate::session::{
    accept_embed, current_page, inv, opened, step, ActionView, Phase, SessionView, MAX_ROLES,
};

verus! {

/// Every id shown on a page is the id of a directory role.
pub proof fn lemma_page_in_directory(roles: Seq<RoleRef>, page: nat, x: u64)
    requires
        page <= last_page_of(roles.len()),
        page_ids(ids_of(roles), page).contains(x),
    ensures
        has_id(roles, x),
{
    let ids = ids_of(roles);
    let shown = page_ids(ids, page);
    let k = choose|k: int| 0 <= k < shown.len() && shown[k] == x;
    let at = page_start(page) + k;
    assert(0 <= at < roles.len());
    assert(ids[at] == x);
    assert(roles[at].id == x);
}

/// A page submission leaves a selection without repeats, inside the directory.
pub proof fn lemma_select_on_page_valid(s: SessionView, submitted: Seq<u64>)
    requires
        inv(s),
    ensures
        select_on_page(s.selected, current_page(s), submitted).no_duplicates(),
        forall|k: int|
            0 <= k < select_on_page(s.selected, current_page(s), submitted).len() ==> has_id(
                s.roles,
                #[trigger] select_on_page(s.selected, current_page(s), submitted)[k],
            ),
{
    let page = current_page(s);
    let kept = keep_checked(s.selected, page, submitted);
    let chosen = select_on_page(s.selected, page, submitted);
    lemma_keep_checked(s.selected, page, submitted);
    lemma_append_new(kept, page, submitted);
    assert forall|k: int| 0 <= k < chosen.len() implies has_id(s.roles, #[trigger] chosen[k]) by {
        let x = chosen[k];
        assert(chosen.contains(x));
        if kept.contains(x) {
            assert(s.selected.contains(x));
            let e = choose|e: int| 0 <= e < s.selected.len() && s.selected[e] == x;
            assert(has_id(s.roles, s.selected[e]));
        } else {
            lemma_page_in_directory(s.roles, s.page_index, x);
        }
    }
}

/// A session that was just opened satisfies the invariant, provided that the
/// directory is ordered and the seed is a selection from it without repeats.
pub proof fn lemma_opened_inv(
    owner_message_id: u64,
    channel_id: u64,
    edit_target: Option<u64>,
    roles: Seq<RoleRef>,
    seed: Seq<u64>,
)
    requires
        ascending(roles),
        seed.no_duplicates(),
        seed.len() <= MAX_ROLES,
        forall|k: int| 0 <= k < seed.len() ==> has_id(roles, #[trigger] seed[k]),
    ensures
        inv(opened(owner_message_id, channel_id, edit_target, roles, seed)),
{
}

/// No action leads a session out of the invariant.
pub proof fn lemma_step_preserves_inv(s: SessionView, a: ActionView)
    requires
        inv(s),
    ensures
        inv(step(s, a).0),
        step(s, a).0.roles == s.roles,
        step(s, a).0.owner_message_id == s.owner_message_id,
        step(s, a).0.channel_id == s.channel_id,
        step(s, a).0.edit_target == s.edit_target,
{
    let t = step(s, a).0;
    match (s.phase, a) {
        (Phase::RoleSelection, ActionView::SelectRoles(ids)) => {
            lemma_select_on_page_valid(s, ids);
        },
        (Phase::OrderingChoice, ActionView::Alphabetical) => {
            lemma_sorted_by_name_rearranges(s.roles, s.selected);
            let sorted = sorted_by_name(s.roles, s.selected);
            assert forall|k: int| 0 <= k < sorted.len() implies has_id(
                s.roles,
                #[trigger] sorted[k],
            ) by {
                assert(sorted.contains(sorted[k]));
                let e = choose|e: int| 0 <= e < s.selected.len() && s.selected[e] == sorted[k];
                assert(has_id(s.roles, s.selected[e]));
            }
        },
        (Phase::ManualOrdering, ActionView::Reorder(order)) => {
            if t.selected == order {
                assert forall|k: int| 0 <= k < order.len() implies has_id(
                    s.roles,
                    #[trigger] order[k],
                ) by {
                    assert(s.selected.contains(order[k]));
                    let e = choose|e: int|
                        0 <= e < s.selected.len() && s.selected[e] == order[k];
                    assert(has_id(s.roles, s.selected[e]));
                }
            }
        },
        _ => {},
    }
}

/// Taking an embed, or turning one down, leaves a session inside the
/// invariant.
pub proof fn lemma_accept_embed_inv(s: SessionView, embed: Option<Seq<char>>)
    requires
        inv(s),
        s.phase == Phase::AwaitingEmbed,
    ensures
        inv(accept_embed(s, embed).0),
{
}

/// The state after a run of actions, taken one after the other.
pub open spec fn run(s: SessionView, actions: Seq<ActionView>) -> SessionView
    decreases actions.len(),
{
    if actions.len() == 0 {
        s
    } else {
        step(run(s, actions.drop_last()), actions.last()).0
    }
}

/// No run of actions leads a session out of the invariant.
pub proof fn lemma_run_preserves_inv(s: SessionView, actions: Seq<ActionView>)
    requires
        inv(s),
    ensures
        inv(run(s, actions)),
        run(s, actions).roles == s.roles,
    decreases actions.len(),
{
    if actions.len() > 0 {
        lemma_run_preserves_inv(s, actions.drop_last());
        lemma_step_preserves_inv(run(s, actions.drop_last()), actions.last());
    }
}

} // verus!
