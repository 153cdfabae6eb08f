//! What holds of a setup as a whole, over every run of actions.
use vstd::prelude::*;
use crate::directory::{ascending, has_id, ids_of, last_page_of, RoleRef};
use crate::invariants::{lemma_opened_inv, lemma_run_preserves_inv, run};
use crate::selection::{
    append_new, keep_checked, lemma_append_new, lemma_keep_checked, select_on_page,
};
use crate::session::{
    current_page, described_roles, descriptions_settled, inv, next_enabled, opened,
    previous_enabled, seed_of, step, ActionView, Phase, SessionView, MAX_ROLES,
};

verus! {

/// Whatever the operator does, the page shown is a page of the directory:
/// its index is at most the index of the last page, which for a directory
/// that is not empty is the number of pages, rounded up, less one; and the
/// page starts inside the directory.
pub proof fn law_page_index_in_range(s: SessionView, actions: Seq<ActionView>)
    requires
        inv(s),
    ensures
        run(s, actions).page_index <= last_page_of(s.roles.len()),
        s.roles.len() > 0 ==> last_page_of(s.roles.len()) == (s.roles.len() + 24) / 25 - 1,
        run(s, actions).page_index * 25 <= s.roles.len(),
{
    lemma_run_preserves_inv(s, actions);
}

/// Previous can be used only where it leads one page back, Next only where it
/// leads one page on; where either cannot be used, it leaves the page as it
/// is. So Previous is out of use on the first page and Next on the last.
pub proof fn law_page_controls(s: SessionView)
    requires
        inv(s),
        s.phase == Phase::RoleSelection,
    ensures
        s.page_index == 0 ==> !previous_enabled(s),
        s.page_index == last_page_of(s.roles.len()) ==> !next_enabled(s),
        step(s, ActionView::PreviousPage).0.page_index == if previous_enabled(s) {
            s.page_index - 1
        } else {
            s.page_index as int
        },
        step(s, ActionView::NextPage).0.page_index == if next_enabled(s) {
            s.page_index + 1
        } else {
            s.page_index
        },
{
}

/// A submission from one page neither adds nor removes a role that is not on
/// that page.
pub proof fn law_submission_confined_to_page(s: SessionView, submitted: Seq<u64>, x: u64)
    requires
        inv(s),
        s.phase == Phase::RoleSelection,
        !current_page(s).contains(x),
    ensures
        step(s, ActionView::SelectRoles(submitted)).0.selected.contains(x) == s.selected.contains(x),
{
    let page = current_page(s);
    lemma_keep_checked(s.selected, page, submitted);
    lemma_append_new(keep_checked(s.selected, page, submitted), page, submitted);
}

/// A list all of whose entries are off the page or submitted is kept whole.
pub proof fn lemma_keep_all(list: Seq<u64>, page: Seq<u64>, submitted: Seq<u64>)
    requires
        forall|k: int|
            0 <= k < list.len() ==> !page.contains(#[trigger] list[k]) || submitted.contains(
                list[k],
            ),
    ensures
        keep_checked(list, page, submitted) == list,
    decreases list.len(),
{
    if list.len() > 0 {
        let init = list.drop_last();
        assert forall|k: int| 0 <= k < init.len() implies !page.contains(#[trigger] init[k])
            || submitted.contains(init[k]) by {
            assert(init[k] == list[k]);
        }
        lemma_keep_all(init, page, submitted);
        assert(init.push(list.last()) =~= list);
    }
}

/// Nothing is appended to a list that already holds what was submitted from
/// the page.
pub proof fn lemma_append_nothing(base: Seq<u64>, page: Seq<u64>, submitted: Seq<u64>)
    requires
        forall|k: int|
            0 <= k < submitted.len() && page.contains(#[trigger] submitted[k]) ==> base.contains(
                submitted[k],
            ),
    ensures
        append_new(base, page, submitted) == base,
    decreases submitted.len(),
{
    if submitted.len() > 0 {
        let init = submitted.drop_last();
        assert forall|k: int|
            0 <= k < init.len() && page.contains(#[trigger] init[k]) implies base.contains(
            init[k],
        ) by {
            assert(init[k] == submitted[k]);
        }
        lemma_append_nothing(base, page, init);
    }
}

/// Submitting the same roles from the same page a second time changes nothing.
pub proof fn law_submission_idempotent(s: SessionView, submitted: Seq<u64>)
    requires
        inv(s),
        s.phase == Phase::RoleSelection,
    ensures
        step(step(s, ActionView::SelectRoles(submitted)).0, ActionView::SelectRoles(submitted)).0 == step(
            s,
            ActionView::SelectRoles(submitted),
        ).0,
{
    let page = current_page(s);
    let sub = submitted;
    let kept = keep_checked(s.selected, page, sub);
    let chosen = select_on_page(s.selected, page, sub);
    let t = step(s, ActionView::SelectRoles(submitted)).0;
    assert(current_page(t) == page);
    if chosen.len() <= MAX_ROLES {
        lemma_keep_checked(s.selected, page, sub);
        lemma_append_new(kept, page, sub);
        assert forall|k: int| 0 <= k < chosen.len() implies !page.contains(#[trigger] chosen[k])
            || sub.contains(chosen[k]) by {
            assert(chosen.contains(chosen[k]));
        }
        lemma_keep_all(chosen, page, sub);
        assert forall|k: int|
            0 <= k < sub.len() && page.contains(#[trigger] sub[k]) implies chosen.contains(
            sub[k],
        ) by {
            assert(sub.contains(sub[k]));
        }
        lemma_append_nothing(chosen, page, sub);
        assert(select_on_page(chosen, page, sub) == chosen);
    }
}

/// Once the question of descriptions is settled, either no role has a
/// description or exactly the selected roles have one.
pub proof fn law_descriptions_cover_selection(s: SessionView, actions: Seq<ActionView>)
    requires
        inv(s),
        descriptions_settled(run(s, actions).phase),
    ensures
        described_roles(run(s, actions)) == Set::<u64>::empty() || described_roles(
            run(s, actions),
        ) == run(s, actions).selected.to_set(),
{
    lemma_run_preserves_inv(s, actions);
    let t = run(s, actions);
    if t.descriptions.len() == 0 {
        assert(described_roles(t) =~= Set::<u64>::empty());
    } else {
        assert forall|id: u64| described_roles(t).contains(id) <==> t.selected.to_set().contains(
            id,
        ) by {
            if t.selected.contains(id) {
                let k = choose|k: int| 0 <= k < t.selected.len() && t.selected[k] == id;
                assert(t.selected[k] == id);
            }
        }
        assert(described_roles(t) =~= t.selected.to_set());
    }
}

/// A selector is published with a maximum between one and the number of roles
/// it offers.
pub proof fn law_maximum_in_range(s: SessionView, actions: Seq<ActionView>)
    requires
        inv(s),
        run(s, actions).phase == Phase::Published,
    ensures
        1 <= run(s, actions).max_selections <= run(s, actions).selected.len(),
{
    lemma_run_preserves_inv(s, actions);
}

/// Appending the entries of a list without repeats, all of them allowed, to
/// the empty list gives the list back.
pub proof fn lemma_append_all(ids: Seq<u64>, list: Seq<u64>)
    requires
        list.no_duplicates(),
        forall|k: int| 0 <= k < list.len() ==> ids.contains(#[trigger] list[k]),
    ensures
        append_new(Seq::empty(), ids, list) == list,
    decreases list.len(),
{
    if list.len() > 0 {
        let init = list.drop_last();
        let last = list.last();
        assert forall|k: int| 0 <= k < init.len() implies ids.contains(#[trigger] init[k]) by {
            assert(init[k] == list[k]);
        }
        lemma_append_all(ids, init);
        assert(ids.contains(list[list.len() - 1]));
        assert(!init.contains(last)) by {
            if init.contains(last) {
                let e = choose|e: int| 0 <= e < init.len() && init[e] == last;
                assert(list[e] == list[list.len() - 1]);
            }
        }
        assert(init.push(last) =~= list);
    } else {
        assert(list =~= Seq::<u64>::empty());
    }
}

/// Opening an edit on the roles that a session has selected, over the same
/// directory, starts from the same selection in the same order.
pub proof fn law_edit_round_trip(s: SessionView, owner_message_id: u64, target: u64)
    requires
        inv(s),
    ensures
        opened(
            owner_message_id,
            s.channel_id,
            Some(target),
            s.roles,
            seed_of(ids_of(s.roles), s.selected),
        ).selected == s.selected,
{
    let ids = ids_of(s.roles);
    assert forall|k: int| 0 <= k < s.selected.len() implies ids.contains(
        #[trigger] s.selected[k],
    ) by {
        assert(has_id(s.roles, s.selected[k]));
        let e = choose|e: int| 0 <= e < s.roles.len() && s.roles[e].id == s.selected[k];
        assert(ids[e] == s.selected[k]);
    }
    lemma_append_all(ids, s.selected);
}

/// Every state that a newly opened session can reach satisfies the invariant
/// of sessions.
pub proof fn law_reachable_states_valid(
    owner_message_id: u64,
    channel_id: u64,
    roles: Seq<RoleRef>,
    actions: Seq<ActionView>,
)
    requires
        ascending(roles),
    ensures
        inv(run(opened(owner_message_id, channel_id, None, roles, Seq::empty()), actions)),
{
    let start = opened(owner_message_id, channel_id, None, roles, Seq::empty());
    lemma_opened_inv(owner_message_id, channel_id, None, roles, Seq::empty());
    lemma_run_preserves_inv(start, actions);
}

} // verus!
