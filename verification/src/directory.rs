//! The snapshot of a guild's roles and custom emoji that a setup session
//! works from, and the arithmetic of paging through it.
use vstd::prelude::*;

verus! {

/// Number of directory entries shown on one page of a selection menu.
pub const PAGE_SIZE: usize = 25;

/// A guild role as it was when the snapshot was taken.
#[derive(Debug)]
pub struct RoleRef {
    pub id: u64,
    pub name: String,
}

/// A guild emoji as it was when the snapshot was taken.
#[derive(Debug)]
pub struct EmojiRef {
    pub id: u64,
    pub name: String,
}

impl RoleRef {
    /// A second value equal to this one.
    pub fn duplicate(&self) -> (copy: RoleRef)
        ensures
            copy == *self,
    {
        RoleRef { id: self.id, name: self.name.clone() }
    }
}

/// Some entry of `roles` carries `id`.
pub open spec fn has_id(roles: Seq<RoleRef>, id: u64) -> bool {
    exists|k: int| 0 <= k < roles.len() && #[trigger] roles[k].id == id
}

/// Entry `j` of `roles` is the first one that carries its id.
pub open spec fn first_with_id(roles: Seq<RoleRef>, j: int) -> bool {
    &&& 0 <= j < roles.len()
    &&& forall|e: int| 0 <= e < j ==> #[trigger] roles[e].id != roles[j].id
}

/// `role` is an entry of `roster`, and the first one with its id.
pub open spec fn kept_from(roster: Seq<RoleRef>, role: RoleRef) -> bool {
    exists|j: int| first_with_id(roster, j) && #[trigger] roster[j] == role
}

/// Some entry of `emojis` carries `id`.
pub open spec fn has_emoji_id(emojis: Seq<EmojiRef>, id: u64) -> bool {
    exists|k: int| 0 <= k < emojis.len() && #[trigger] emojis[k].id == id
}

/// The ids grow strictly from each entry to the next.
pub open spec fn ascending(roles: Seq<RoleRef>) -> bool {
    forall|i: int, j: int| 0 <= i < j < roles.len() ==> roles[i].id < roles[j].id
}

/// The ids of `roles`, in order.
pub open spec fn ids_of(roles: Seq<RoleRef>) -> Seq<u64> {
    Seq::new(roles.len(), |k: int| roles[k].id)
}

/// Index of the last page of a directory of `len` entries. An empty directory
/// still has one, empty, page.
pub open spec fn last_page_of(len: nat) -> nat {
    if len == 0 {
        0
    } else {
        ((len - 1) / 25) as nat
    }
}

/// First directory position shown on `page`.
pub open spec fn page_start(page: nat) -> nat {
    page * 25
}

/// One past the last directory position shown on `page`.
pub open spec fn page_end(len: nat, page: nat) -> nat {
    if page * 25 + 25 <= len {
        page * 25 + 25
    } else if page * 25 <= len {
        len
    } else {
        page * 25
    }
}

/// The ids shown on `page` of a directory whose ids are `ids`.
pub open spec fn page_ids(ids: Seq<u64>, page: nat) -> Seq<u64> {
    ids.subrange(page_start(page) as int, page_end(ids.len(), page) as int)
}

/// Roles and emoji of one guild, the roles ordered by id.
pub struct Directory {
    roles: Vec<RoleRef>,
    emojis: Vec<EmojiRef>,
}

impl Directory {
    /// The roles, in directory order.
    pub closed spec fn roles(&self) -> Seq<RoleRef> {
        self.roles@
    }

    /// The emoji, in the order they were given.
    pub closed spec fn emojis(&self) -> Seq<EmojiRef> {
        self.emojis@
    }

    /// The role ids, in directory order.
    pub open spec fn ids(&self) -> Seq<u64> {
        ids_of(self.roles())
    }

    /// The directory is ordered by id, so no id occurs twice.
    pub open spec fn wf(&self) -> bool {
        ascending(self.roles())
    }

    /// Builds the directory from a roster in any order. Of several roster
    /// entries with one id the first is kept.
    pub fn from_roster(roster: &Vec<RoleRef>, emojis: Vec<EmojiRef>) -> (dir: Directory)
        ensures
            dir.wf(),
            dir.emojis() == emojis@,
            forall|j: int| 0 <= j < roster.len() ==> has_id(dir.roles(), #[trigger] roster@[j].id),
            forall|k: int|
                0 <= k < dir.roles().len() ==> kept_from(roster@, #[trigger] dir.roles()[k]),
    {
        let mut roles: Vec<RoleRef> = Vec::new();
        let mut i: usize = 0;
        while i < roster.len()
            invariant
                i <= roster.len(),
                ascending(roles@),
                forall|j: int| 0 <= j < i ==> has_id(roles@, #[trigger] roster@[j].id),
                forall|k: int| 0 <= k < roles@.len() ==> kept_from(roster@, #[trigger] roles@[k]),
            decreases roster.len() - i,
        {
            let id: u64 = roster[i].id;
            let mut at: usize = 0;
            while at < roles.len() && roles[at].id < id
                invariant
                    at <= roles.len(),
                    forall|k: int| 0 <= k < at ==> roles@[k].id < id,
                decreases roles.len() - at,
            {
                at = at + 1;
            }
            let ghost before = roles@;
            if at < roles.len() && roles[at].id == id {
                assert(has_id(roles@, roster@[i as int].id));
            } else {
                assert forall|e: int| 0 <= e < i implies #[trigger] roster@[e].id != id by {
                    if roster@[e].id == id {
                        assert(has_id(before, roster@[e].id));
                        let k = choose|k: int| 0 <= k < before.len() && before[k].id == id;
                        if k < at {
                        } else if k > at {
                            assert(before[at as int].id < before[k].id);
                        }
                    }
                }
                assert(first_with_id(roster@, i as int));
                roles.insert(at, roster[i].duplicate());
                assert(roles@[at as int] == roster@[i as int]);
                assert forall|a: int, b: int| 0 <= a < b < roles@.len() implies roles@[a].id
                    < roles@[b].id by {
                    if a < at && b > at {
                        assert(roles@[b] == before[b - 1]);
                    } else if a < at && b == at {
                    } else if a < at {
                    } else if a == at {
                        assert(roles@[b] == before[b - 1]);
                    } else {
                        assert(roles@[a] == before[a - 1]);
                        assert(roles@[b] == before[b - 1]);
                    }
                }
                assert forall|j: int| 0 <= j < i + 1 implies has_id(
                    roles@,
                    #[trigger] roster@[j].id,
                ) by {
                    if j < i {
                        assert(has_id(before, roster@[j].id));
                        let k = choose|k: int|
                            0 <= k < before.len() && before[k].id == roster@[j].id;
                        if k < at {
                            assert(roles@[k] == before[k]);
                        } else {
                            assert(roles@[k + 1] == before[k]);
                        }
                    } else {
                        assert(roles@[at as int].id == roster@[j].id);
                    }
                }
                assert forall|k: int| 0 <= k < roles@.len() implies kept_from(
                    roster@,
                    #[trigger] roles@[k],
                ) by {
                    if k < at {
                        assert(roles@[k] == before[k]);
                    } else if k == at {
                        assert(first_with_id(roster@, i as int) && roster@[i as int] == roles@[k]);
                    } else {
                        assert(roles@[k] == before[k - 1]);
                    }
                }
            }
            i = i + 1;
        }
        Directory { roles, emojis }
    }

    /// Number of roles in the directory.
    pub fn len(&self) -> (n: usize)
        ensures
            n == self.roles().len(),
    {
        self.roles.len()
    }

    /// The role at directory position `at`.
    pub fn role_at(&self, at: usize) -> (role: &RoleRef)
        requires
            at < self.roles().len(),
        ensures
            *role == self.roles()[at as int],
    {
        &self.roles[at]
    }

    /// Directory position of the role with this id, if the directory has it.
    pub fn position(&self, id: u64) -> (at: Option<usize>)
        ensures
            match at {
                Some(k) => k < self.roles().len() && self.roles()[k as int].id == id,
                None => !has_id(self.roles(), id),
            },
    {
        let mut k: usize = 0;
        while k < self.roles.len()
            invariant
                k <= self.roles@.len(),
                forall|e: int| 0 <= e < k ==> self.roles@[e].id != id,
            decreases self.roles.len() - k,
        {
            if self.roles[k].id == id {
                return Some(k);
            }
            k = k + 1;
        }
        None
    }

    /// Whether the directory has a role with this id.
    pub fn contains(&self, id: u64) -> (found: bool)
        ensures
            found == has_id(self.roles(), id),
    {
        self.position(id).is_some()
    }

    /// Whether the emoji snapshot has an emoji with this id.
    pub fn has_emoji(&self, id: u64) -> (found: bool)
        ensures
            found == has_emoji_id(self.emojis(), id),
    {
        let mut k: usize = 0;
        while k < self.emojis.len()
            invariant
                k <= self.emojis@.len(),
                forall|e: int| 0 <= e < k ==> self.emojis@[e].id != id,
            decreases self.emojis.len() - k,
        {
            if self.emojis[k].id == id {
                return true;
            }
            k = k + 1;
        }
        false
    }

    /// The role ids, in directory order.
    pub fn role_ids(&self) -> (ids: Vec<u64>)
        ensures
            ids@ == self.ids(),
    {
        let mut ids: Vec<u64> = Vec::new();
        let mut k: usize = 0;
        while k < self.roles.len()
            invariant
                k <= self.roles@.len(),
                ids@ == self.ids().subrange(0, k as int),
            decreases self.roles.len() - k,
        {
            ids.push(self.roles[k].id);
            k = k + 1;
            assert(ids@ =~= self.ids().subrange(0, k as int));
        }
        assert(self.ids().subrange(0, k as int) =~= self.ids());
        ids
    }

    /// The role ids shown on `page`.
    pub fn page_role_ids(&self, page: usize) -> (ids: Vec<u64>)
        requires
            page <= last_page_of(self.roles().len()),
        ensures
            ids@ == page_ids(self.ids(), page as nat),
    {
        let (first, end) = self.page_bounds(page);
        let mut ids: Vec<u64> = Vec::new();
        let mut k: usize = first;
        while k < end
            invariant
                first <= k <= end <= self.roles@.len(),
                ids@ == self.ids().subrange(first as int, k as int),
            decreases end - k,
        {
            ids.push(self.roles[k].id);
            k = k + 1;
            assert(ids@ =~= self.ids().subrange(first as int, k as int));
        }
        ids
    }

    /// Index of the last page.
    pub fn last_page(&self) -> (page: usize)
        ensures
            page == last_page_of(self.roles().len()),
    {
        if self.roles.len() == 0 {
            0
        } else {
            (self.roles.len() - 1) / PAGE_SIZE
        }
    }

    /// The directory positions `[first, end)` shown on `page`.
    pub fn page_bounds(&self, page: usize) -> (bounds: (usize, usize))
        requires
            page <= last_page_of(self.roles().len()),
        ensures
            bounds.0 == page_start(page as nat),
            bounds.1 == page_end(self.roles().len(), page as nat),
            bounds.0 <= bounds.1 <= self.roles().len(),
            bounds.1 - bounds.0 <= 25,
    {
        let n: usize = self.roles.len();
        let first: usize = page * PAGE_SIZE;
        let end: usize = if n - first >= PAGE_SIZE {
            first + PAGE_SIZE
        } else {
            n
        };
        (first, end)
    }
}

} // verus!
