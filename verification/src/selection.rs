//! Bookkeeping on lists of role ids: what a page submission does to the
//! running selection, and the set differences that decide which roles a
//! member gains and loses.
use vstd::prelude::*;

verus! {

/// The entries of `selected` that a submission made on `page` leaves in place:
/// those that are not on the page, and those on it that were submitted again.
pub open spec fn keep_checked(selected: Seq<u64>, page: Seq<u64>, submitted: Seq<u64>) -> Seq<u64>
    decreases selected.len(),
{
    if selected.len() == 0 {
        selected
    } else {
        let rest = keep_checked(selected.drop_last(), page, submitted);
        let x = selected.last();
        if !page.contains(x) || submitted.contains(x) {
            rest.push(x)
        } else {
            rest
        }
    }
}

/// `base` followed by the entries of `submitted` that are on `page` and not
/// yet present, each once, in the order they were submitted.
pub open spec fn append_new(base: Seq<u64>, page: Seq<u64>, submitted: Seq<u64>) -> Seq<u64>
    decreases submitted.len(),
{
    if submitted.len() == 0 {
        base
    } else {
        let acc = append_new(base, page, submitted.drop_last());
        let x = submitted.last();
        if page.contains(x) && !acc.contains(x) {
            acc.push(x)
        } else {
            acc
        }
    }
}

/// The selection after `submitted` was sent from the menu that shows `page`.
pub open spec fn select_on_page(selected: Seq<u64>, page: Seq<u64>, submitted: Seq<u64>) -> Seq<
    u64,
> {
    append_new(keep_checked(selected, page, submitted), page, submitted)
}

/// The entries of `list` that satisfy neither exclusion: they are absent from
/// `without`, and present in `within`. Each is listed once, at its first
/// occurrence.
pub open spec fn pick(list: Seq<u64>, without: Seq<u64>, within: Seq<u64>) -> Seq<u64>
    decreases list.len(),
{
    if list.len() == 0 {
        list
    } else {
        let acc = pick(list.drop_last(), without, within);
        let x = list.last();
        if !without.contains(x) && within.contains(x) && !acc.contains(x) {
            acc.push(x)
        } else {
            acc
        }
    }
}

/// What `keep_checked` holds, entry by entry.
pub proof fn lemma_keep_checked(selected: Seq<u64>, page: Seq<u64>, submitted: Seq<u64>)
    ensures
        forall|x: u64|
            #![trigger keep_checked(selected, page, submitted).contains(x)]
            #![trigger selected.contains(x)]
            keep_checked(selected, page, submitted).contains(x) <==> selected.contains(x) && (
            !page.contains(x) || submitted.contains(x)),
        keep_checked(selected, page, submitted).len() <= selected.len(),
        selected.no_duplicates() ==> keep_checked(selected, page, submitted).no_duplicates(),
    decreases selected.len(),
{
    let out = keep_checked(selected, page, submitted);
    if selected.len() == 0 {
    } else {
        let init = selected.drop_last();
        let rest = keep_checked(init, page, submitted);
        let last = selected.last();
        lemma_keep_checked(init, page, submitted);
        assert forall|x: u64|
            out.contains(x) <==> selected.contains(x) && (!page.contains(x) || submitted.contains(
                x,
            )) by {
            lemma_contains_push(init, last, x);
            assert(init.push(last) =~= selected);
            if !page.contains(last) || submitted.contains(last) {
                lemma_contains_push(rest, last, x);
            }
        }
        if selected.no_duplicates() {
            assert(init.no_duplicates());
            if !page.contains(last) || submitted.contains(last) {
                assert(!init.contains(last)) by {
                    if init.contains(last) {
                        let k = choose|k: int| 0 <= k < init.len() && init[k] == last;
                        assert(selected[k] == selected[selected.len() - 1]);
                    }
                }
                lemma_push_no_duplicates(rest, last);
            }
        }
    }
}

/// What `append_new` holds, entry by entry.
pub proof fn lemma_append_new(base: Seq<u64>, page: Seq<u64>, submitted: Seq<u64>)
    ensures
        forall|x: u64|
            #![trigger append_new(base, page, submitted).contains(x)]
            #![trigger base.contains(x)]
            #![trigger submitted.contains(x)]
            append_new(base, page, submitted).contains(x) <==> base.contains(x) || (page.contains(
                x,
            ) && submitted.contains(x)),
        base.no_duplicates() ==> append_new(base, page, submitted).no_duplicates(),
        base.len() <= append_new(base, page, submitted).len(),
        append_new(base, page, submitted).subrange(0, base.len() as int) == base,
    decreases submitted.len(),
{
    let out = append_new(base, page, submitted);
    if submitted.len() == 0 {
        assert(out.subrange(0, base.len() as int) =~= base);
    } else {
        let init = submitted.drop_last();
        let acc = append_new(base, page, init);
        let last = submitted.last();
        lemma_append_new(base, page, init);
        assert(out.subrange(0, base.len() as int) =~= acc.subrange(0, base.len() as int));
        assert forall|x: u64|
            out.contains(x) <==> base.contains(x) || (page.contains(x) && submitted.contains(
                x,
            )) by {
            lemma_contains_push(init, last, x);
            assert(init.push(last) =~= submitted);
            if page.contains(last) && !acc.contains(last) {
                lemma_contains_push(acc, last, x);
            }
        }
        if base.no_duplicates() && page.contains(last) && !acc.contains(last) {
            lemma_push_no_duplicates(acc, last);
        }
    }
}

/// `x` is in `s.push(y)` exactly if it is in `s` or is `y`.
pub proof fn lemma_contains_push(s: Seq<u64>, y: u64, x: u64)
    ensures
        s.push(y).contains(x) <==> s.contains(x) || x == y,
{
    let t = s.push(y);
    if s.contains(x) {
        let k = choose|k: int| 0 <= k < s.len() && s[k] == x;
        assert(t[k] == x);
    }
    if x == y {
        assert(t[s.len() as int] == x);
    }
    if t.contains(x) {
        let k = choose|k: int| 0 <= k < t.len() && t[k] == x;
        if k < s.len() {
            assert(s[k] == x);
        }
    }
}

/// Pushing an entry that is not yet present keeps a list free of repeats.
pub proof fn lemma_push_no_duplicates(s: Seq<u64>, y: u64)
    requires
        s.no_duplicates(),
        !s.contains(y),
    ensures
        s.push(y).no_duplicates(),
{
    let t = s.push(y);
    assert forall|i: int, j: int| 0 <= i < t.len() && 0 <= j < t.len() && i != j implies t[i]
        != t[j] by {
        if i < s.len() && j < s.len() {
        } else if i < s.len() {
            assert(s.contains(s[i]));
        } else {
            assert(s.contains(s[j]));
        }
    }
}

/// What `pick` holds, entry by entry.
pub proof fn lemma_pick(list: Seq<u64>, without: Seq<u64>, within: Seq<u64>)
    ensures
        forall|x: u64|
            #![trigger pick(list, without, within).contains(x)]
            #![trigger list.contains(x)]
            pick(list, without, within).contains(x) <==> list.contains(x) && !without.contains(x)
                && within.contains(x),
        pick(list, without, within).no_duplicates(),
        pick(list, without, within).len() <= list.len(),
    decreases list.len(),
{
    let out = pick(list, without, within);
    if list.len() == 0 {
    } else {
        let init = list.drop_last();
        let acc = pick(init, without, within);
        let last = list.last();
        lemma_pick(init, without, within);
        assert forall|x: u64|
            out.contains(x) <==> list.contains(x) && !without.contains(x) && within.contains(
                x,
            ) by {
            lemma_contains_push(init, last, x);
            assert(init.push(last) =~= list);
            if !without.contains(last) && within.contains(last) && !acc.contains(last) {
                lemma_contains_push(acc, last, x);
            }
        }
        if !without.contains(last) && within.contains(last) && !acc.contains(last) {
            lemma_push_no_duplicates(acc, last);
        }
    }
}

/// Whether `id` occurs in `list`.
pub fn contains_id(list: &Vec<u64>, id: u64) -> (found: bool)
    ensures
        found == list@.contains(id),
{
    let mut k: usize = 0;
    while k < list.len()
        invariant
            k <= list.len(),
            forall|e: int| 0 <= e < k ==> list@[e] != id,
        decreases list.len() - k,
    {
        if list[k] == id {
            return true;
        }
        k = k + 1;
    }
    false
}

/// Whether no id occurs twice in `list`.
pub fn all_distinct(list: &Vec<u64>) -> (distinct: bool)
    ensures
        distinct == list@.no_duplicates(),
{
    let mut i: usize = 0;
    while i < list.len()
        invariant
            i <= list.len(),
            forall|a: int, b: int| 0 <= a < b < i ==> list@[a] != list@[b],
        decreases list.len() - i,
    {
        let mut j: usize = 0;
        while j < i
            invariant
                j <= i < list.len(),
                forall|a: int| 0 <= a < j ==> list@[a] != list@[i as int],
            decreases i - j,
        {
            if list[j] == list[i] {
                return false;
            }
            j = j + 1;
        }
        i = i + 1;
    }
    true
}

/// The selection after `submitted` was sent from the menu that shows `page`.
pub fn select_roles_on_page(selected: &Vec<u64>, page: &Vec<u64>, submitted: &Vec<u64>) -> (out:
    Vec<u64>)
    ensures
        out@ == select_on_page(selected@, page@, submitted@),
{
    let mut out: Vec<u64> = Vec::new();
    let mut i: usize = 0;
    while i < selected.len()
        invariant
            i <= selected.len(),
            out@ == keep_checked(selected@.subrange(0, i as int), page@, submitted@),
        decreases selected.len() - i,
    {
        let x: u64 = selected[i];
        assert(selected@.subrange(0, i + 1).drop_last() =~= selected@.subrange(0, i as int));
        if !contains_id(page, x) || contains_id(submitted, x) {
            out.push(x);
        }
        i = i + 1;
    }
    assert(selected@.subrange(0, i as int) =~= selected@);
    let ghost kept = out@;
    let mut j: usize = 0;
    while j < submitted.len()
        invariant
            j <= submitted.len(),
            out@ == append_new(kept, page@, submitted@.subrange(0, j as int)),
        decreases submitted.len() - j,
    {
        let x: u64 = submitted[j];
        assert(submitted@.subrange(0, j + 1).drop_last() =~= submitted@.subrange(0, j as int));
        if contains_id(page, x) && !contains_id(&out, x) {
            out.push(x);
        }
        j = j + 1;
    }
    assert(submitted@.subrange(0, j as int) =~= submitted@);
    out
}

/// The entries of `list` that are absent from `without` and present in
/// `within`, each once.
pub fn pick_ids(list: &Vec<u64>, without: &Vec<u64>, within: &Vec<u64>) -> (out: Vec<u64>)
    ensures
        out@ == pick(list@, without@, within@),
{
    let mut out: Vec<u64> = Vec::new();
    let mut i: usize = 0;
    while i < list.len()
        invariant
            i <= list.len(),
            out@ == pick(list@.subrange(0, i as int), without@, within@),
        decreases list.len() - i,
    {
        let x: u64 = list[i];
        assert(list@.subrange(0, i + 1).drop_last() =~= list@.subrange(0, i as int));
        if !contains_id(without, x) && contains_id(within, x) && !contains_id(&out, x) {
            out.push(x);
        }
        i = i + 1;
    }
    assert(list@.subrange(0, i as int) =~= list@);
    out
}

} // verus!
