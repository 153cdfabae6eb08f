//! Ordering a selection alphabetically by the names the directory gives.
//!
//! Names are ordered character by character, by code point, a shorter name
//! before any longer one that it begins. Entries with the same name keep the
//! order they had.
use vstd::prelude::*;
use crate::directory::{ascending, has_id, Directory, RoleRef};
use crate::selection::lemma_contains_push;
use crate::text::chars_of;

verus! {

/// `a` is at most `b` in the order of names, given that they agree before
/// position `i`.
pub open spec fn text_le_from(a: Seq<char>, b: Seq<char>, i: int) -> bool
    decreases a.len() - i + 1,
{
    if i < 0 || i >= a.len() {
        true
    } else if i >= b.len() {
        false
    } else if (a[i] as u32) < (b[i] as u32) {
        true
    } else if (a[i] as u32) > (b[i] as u32) {
        false
    } else {
        text_le_from(a, b, i + 1)
    }
}

/// `a` is at most `b` in the order of names.
pub open spec fn text_le(a: Seq<char>, b: Seq<char>) -> bool {
    text_le_from(a, b, 0)
}

/// The name the directory gives to `id`; empty if it has no such role.
pub open spec fn name_of(roles: Seq<RoleRef>, id: u64) -> Seq<char> {
    if has_id(roles, id) {
        roles[choose|k: int| 0 <= k < roles.len() && #[trigger] roles[k].id == id].name@
    } else {
        Seq::empty()
    }
}

/// `a` may stand before `b` in alphabetical order.
pub open spec fn name_le(roles: Seq<RoleRef>, a: u64, b: u64) -> bool {
    text_le(name_of(roles, a), name_of(roles, b))
}

/// The first position at or after `from` whose entry must stand after `x`.
pub open spec fn insert_point(roles: Seq<RoleRef>, sorted: Seq<u64>, x: u64, from: int) -> int
    decreases sorted.len() - from + 1,
{
    if from < 0 || from >= sorted.len() {
        sorted.len() as int
    } else if !name_le(roles, sorted[from], x) {
        from
    } else {
        insert_point(roles, sorted, x, from + 1)
    }
}

/// `sorted` with `x` put behind every entry that may stand before it.
pub open spec fn insert_by_name(roles: Seq<RoleRef>, sorted: Seq<u64>, x: u64) -> Seq<u64> {
    sorted.insert(insert_point(roles, sorted, x, 0), x)
}

/// `list` in alphabetical order of the names, entries of one name in the
/// order they had in `list`.
pub open spec fn sorted_by_name(roles: Seq<RoleRef>, list: Seq<u64>) -> Seq<u64>
    decreases list.len(),
{
    if list.len() == 0 {
        list
    } else {
        insert_by_name(roles, sorted_by_name(roles, list.drop_last()), list.last())
    }
}

/// Every entry may stand before each later one.
pub open spec fn ordered_by_name(roles: Seq<RoleRef>, list: Seq<u64>) -> bool {
    forall|i: int, j: int| 0 <= i < j < list.len() ==> name_le(roles, list[i], list[j])
}

/// In a directory ordered by id, the entry at `k` is the one `name_of` reads.
pub proof fn lemma_name_of(roles: Seq<RoleRef>, k: int)
    requires
        ascending(roles),
        0 <= k < roles.len(),
    ensures
        name_of(roles, roles[k].id) == roles[k].name@,
{
    let id = roles[k].id;
    assert(has_id(roles, id));
    let c = choose|c: int| 0 <= c < roles.len() && #[trigger] roles[c].id == id;
    if c < k {
        assert(roles[c].id < roles[k].id);
    } else if c > k {
        assert(roles[k].id < roles[c].id);
    }
}

/// Of two names, one is at most the other.
pub proof fn lemma_text_le_total(a: Seq<char>, b: Seq<char>, i: int)
    requires
        0 <= i,
    ensures
        text_le_from(a, b, i) || text_le_from(b, a, i),
    decreases a.len() - i + 1,
{
    if i < a.len() && i < b.len() && a[i] as u32 == b[i] as u32 {
        lemma_text_le_total(a, b, i + 1);
    }
}

/// The order of names is transitive.
pub proof fn lemma_text_le_transitive(a: Seq<char>, b: Seq<char>, c: Seq<char>, i: int)
    requires
        0 <= i,
        text_le_from(a, b, i),
        text_le_from(b, c, i),
    ensures
        text_le_from(a, c, i),
    decreases a.len() - i + 1,
{
    if i < a.len() && a[i] as u32 == c[i] as u32 {
        lemma_text_le_transitive(a, b, c, i + 1);
    }
}

/// Where `insert_point` lands: behind the entries that may stand before `x`,
/// and in front of one that may not.
pub proof fn lemma_insert_point(roles: Seq<RoleRef>, sorted: Seq<u64>, x: u64, from: int)
    requires
        0 <= from <= sorted.len(),
    ensures
        from <= insert_point(roles, sorted, x, from) <= sorted.len(),
        forall|k: int|
            from <= k < insert_point(roles, sorted, x, from) ==> name_le(roles, sorted[k], x),
        insert_point(roles, sorted, x, from) < sorted.len() ==> !name_le(
            roles,
            sorted[insert_point(roles, sorted, x, from)],
            x,
        ),
    decreases sorted.len() - from + 1,
{
    if from < sorted.len() && name_le(roles, sorted[from], x) {
        lemma_insert_point(roles, sorted, x, from + 1);
    }
}

/// `x` is in `s.insert(at, y)` exactly if it is in `s` or is `y`.
pub proof fn lemma_contains_insert(s: Seq<u64>, at: int, y: u64, x: u64)
    requires
        0 <= at <= s.len(),
    ensures
        s.insert(at, y).contains(x) <==> s.contains(x) || x == y,
{
    let t = s.insert(at, y);
    if s.contains(x) {
        let k = choose|k: int| 0 <= k < s.len() && s[k] == x;
        if k < at {
            assert(t[k] == x);
        } else {
            assert(t[k + 1] == x);
        }
    }
    if x == y {
        assert(t[at] == x);
    }
    if t.contains(x) {
        let k = choose|k: int| 0 <= k < t.len() && t[k] == x;
        if k < at {
            assert(s[k] == x);
        } else if k > at {
            assert(s[k - 1] == x);
        }
    }
}

/// Sorting by name rearranges a list: it keeps its length and its entries,
/// and repeats none that was not repeated.
pub proof fn lemma_sorted_by_name_rearranges(roles: Seq<RoleRef>, list: Seq<u64>)
    ensures
        sorted_by_name(roles, list).len() == list.len(),
        forall|x: u64|
            #![trigger sorted_by_name(roles, list).contains(x)]
            #![trigger list.contains(x)]
            sorted_by_name(roles, list).contains(x) <==> list.contains(x),
        list.no_duplicates() ==> sorted_by_name(roles, list).no_duplicates(),
    decreases list.len(),
{
    let out = sorted_by_name(roles, list);
    if list.len() > 0 {
        let init = list.drop_last();
        let last = list.last();
        let prev = sorted_by_name(roles, init);
        lemma_sorted_by_name_rearranges(roles, init);
        lemma_insert_point(roles, prev, last, 0);
        let p = insert_point(roles, prev, last, 0);
        assert(out == prev.insert(p, last));
        assert(init.push(last) =~= list);
        assert forall|x: u64| out.contains(x) <==> list.contains(x) by {
            lemma_contains_insert(prev, p, last, x);
            lemma_contains_push(init, last, x);
            assert(prev.contains(x) <==> init.contains(x));
        }
        if list.no_duplicates() {
            assert(init.no_duplicates());
            assert(!prev.contains(last)) by {
                if init.contains(last) {
                    let e = choose|e: int| 0 <= e < init.len() && init[e] == last;
                    assert(list[e] == list[list.len() - 1]);
                }
            }
            assert forall|i: int, j: int|
                0 <= i < out.len() && 0 <= j < out.len() && i != j implies out[i] != out[j] by {
                let a = if i < p { i } else { i - 1 };
                let b = if j < p { j } else { j - 1 };
                if i == p {
                    assert(out[j] == prev[b]);
                    assert(prev.contains(prev[b]));
                } else if j == p {
                    assert(out[i] == prev[a]);
                    assert(prev.contains(prev[a]));
                } else {
                    assert(out[i] == prev[a]);
                    assert(out[j] == prev[b]);
                }
            }
        }
    }
}

/// Sorting by name puts every entry where it may stand before each later one.
pub proof fn lemma_sorted_by_name_ordered(roles: Seq<RoleRef>, list: Seq<u64>)
    ensures
        ordered_by_name(roles, sorted_by_name(roles, list)),
    decreases list.len(),
{
    let out = sorted_by_name(roles, list);
    if list.len() > 0 {
        let init = list.drop_last();
        let last = list.last();
        let prev = sorted_by_name(roles, init);
        lemma_sorted_by_name_ordered(roles, init);
        lemma_insert_point(roles, prev, last, 0);
        let p = insert_point(roles, prev, last, 0);
        assert(out == prev.insert(p, last));
        assert forall|i: int, j: int| 0 <= i < j < out.len() implies name_le(
            roles,
            out[i],
            out[j],
        ) by {
            if j < p {
                assert(out[i] == prev[i] && out[j] == prev[j]);
            } else if j == p {
                assert(out[i] == prev[i]);
            } else if i < p {
                assert(out[i] == prev[i] && out[j] == prev[j - 1]);
            } else if i == p {
                assert(out[j] == prev[j - 1]);
                let nx = name_of(roles, last);
                let np = name_of(roles, prev[p]);
                let nj = name_of(roles, prev[j - 1]);
                lemma_text_le_total(nx, np, 0);
                if j - 1 > p {
                    assert(name_le(roles, prev[p], prev[j - 1]));
                    lemma_text_le_transitive(nx, np, nj, 0);
                }
            } else {
                assert(out[i] == prev[i - 1] && out[j] == prev[j - 1]);
            }
        }
    }
}

/// Sorting by name is stable: of two entries, the one that stood first and
/// may stand before the other still stands first.
pub proof fn lemma_sorted_by_name_stable(roles: Seq<RoleRef>, list: Seq<u64>)
    requires
        list.no_duplicates(),
    ensures
        forall|a: int, b: int, i: int, j: int|
            #![trigger list[a], list[b], sorted_by_name(roles, list)[i], sorted_by_name(roles, list)[j]]
            0 <= a < b < list.len() && name_le(roles, list[a], list[b]) && 0 <= i < list.len()
                && 0 <= j < list.len() && sorted_by_name(roles, list)[i] == list[a]
                && sorted_by_name(roles, list)[j] == list[b] ==> i < j,
    decreases list.len(),
{
    let out = sorted_by_name(roles, list);
    if list.len() > 0 {
        let init = list.drop_last();
        let last = list.last();
        let prev = sorted_by_name(roles, init);
        assert(init.no_duplicates());
        lemma_sorted_by_name_stable(roles, init);
        lemma_sorted_by_name_rearranges(roles, init);
        lemma_sorted_by_name_rearranges(roles, list);
        lemma_sorted_by_name_ordered(roles, init);
        lemma_insert_point(roles, prev, last, 0);
        let p = insert_point(roles, prev, last, 0);
        assert(out == prev.insert(p, last));
        assert(!prev.contains(last)) by {
            if init.contains(last) {
                let e = choose|e: int| 0 <= e < init.len() && init[e] == last;
                assert(list[e] == list[list.len() - 1]);
            }
        }
        assert forall|a: int, b: int, i: int, j: int|
            #![trigger list[a], list[b], out[i], out[j]]
            0 <= a < b < list.len() && name_le(roles, list[a], list[b]) && 0 <= i < list.len()
                && 0 <= j < list.len() && out[i] == list[a] && out[j] == list[b] implies i
            < j by {
            let i0 = if i < p {
                i
            } else {
                i - 1
            };
            let j0 = if j < p {
                j
            } else {
                j - 1
            };
            assert(list[a] != last) by {
                assert(list[a] != list[list.len() - 1]);
            }
            assert(i != p);
            assert(prev[i0] == list[a]);
            assert(init[a] == list[a]);
            if b < list.len() - 1 {
                assert(list[b] != list[list.len() - 1]);
                assert(j != p);
                assert(prev[j0] == list[b]);
                assert(init[b] == list[b]);
                assert(i0 < j0);
            } else {
                if j != p {
                    assert(prev[j0] == last);
                    assert(prev.contains(last));
                }
                if i0 >= p {
                    if i0 > p {
                        assert(name_le(roles, prev[p], prev[i0]));
                    }
                    lemma_text_le_transitive(
                        name_of(roles, prev[p]),
                        name_of(roles, prev[i0]),
                        name_of(roles, last),
                        0,
                    );
                }
            }
        }
    }
}

/// Whether `a` is at most `b` in the order of names.
pub fn text_at_most(a: &Vec<char>, b: &Vec<char>) -> (le: bool)
    ensures
        le == text_le(a@, b@),
{
    let mut i: usize = 0;
    loop
        invariant
            i <= a.len(),
            i <= b.len(),
            text_le(a@, b@) == text_le_from(a@, b@, i as int),
        decreases a.len() - i,
    {
        if i >= a.len() {
            return true;
        }
        if i >= b.len() {
            return false;
        }
        let x: u32 = a[i] as u32;
        let y: u32 = b[i] as u32;
        if x < y {
            return true;
        }
        if x > y {
            return false;
        }
        i = i + 1;
    }
}

/// The characters of the name the directory gives to `id`.
pub fn name_chars(directory: &Directory, id: u64) -> (name: Vec<char>)
    requires
        directory.wf(),
    ensures
        name@ == name_of(directory.roles(), id),
{
    match directory.position(id) {
        Some(k) => {
            proof {
                lemma_name_of(directory.roles(), k as int);
            }
            chars_of(directory.role_at(k).name.as_str())
        },
        None => Vec::new(),
    }
}

/// Sorts `list` alphabetically by the names the directory gives; entries of
/// one name keep their order.
pub fn sort_by_name(directory: &Directory, list: &Vec<u64>) -> (out: Vec<u64>)
    requires
        directory.wf(),
    ensures
        out@ == sorted_by_name(directory.roles(), list@),
{
    let mut out: Vec<u64> = Vec::new();
    let mut i: usize = 0;
    while i < list.len()
        invariant
            i <= list.len(),
            directory.wf(),
            out@ == sorted_by_name(directory.roles(), list@.subrange(0, i as int)),
        decreases list.len() - i,
    {
        let x: u64 = list[i];
        let name: Vec<char> = name_chars(directory, x);
        let mut at: usize = 0;
        loop
            invariant
                at <= out.len(),
                directory.wf(),
                name@ == name_of(directory.roles(), x),
                insert_point(directory.roles(), out@, x, 0) == insert_point(
                    directory.roles(),
                    out@,
                    x,
                    at as int,
                ),
            ensures
                at <= out.len(),
                at == insert_point(directory.roles(), out@, x, 0),
            decreases out.len() - at,
        {
            if at >= out.len() {
                break ;
            }
            let other: Vec<char> = name_chars(directory, out[at]);
            if !text_at_most(&other, &name) {
                break ;
            }
            at = at + 1;
        }
        assert(list@.subrange(0, i + 1).drop_last() =~= list@.subrange(0, i as int));
        out.insert(at, x);
        i = i + 1;
    }
    assert(list@.subrange(0, i as int) =~= list@);
    out
}

} // verus!
