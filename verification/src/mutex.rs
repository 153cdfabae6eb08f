//! Roles that exclude each other: judging a pairing that an administrator
//! asks for, and finding the roles a member has to lose for one they gained.
use vstd::prelude::*;
use crate::selection::contains_id;
use crate::text::same_text;

verus! {

/// The user who may manage pairings without being an administrator.
pub const MUTEX_OWNER_ID: u64 = 213709744261693442;

/// A part of the command that manages pairings.
#[derive(Clone, Copy, Debug, PartialEq, Eq, Structural)]
pub enum MutexCommand {
    Add,
    Remove,
    Clear,
    List,
    Unknown,
}

/// What becomes of a pairing that was asked for.
#[derive(Clone, Copy, Debug, PartialEq, Eq, Structural)]
pub enum PairVerdict {
    /// A role cannot exclude itself.
    SameRole,
    /// The two roles are paired already, in this order or the other.
    AlreadyPaired,
    /// The pairing is new and is to be recorded.
    Accepted,
}

/// The part of the command that `name` names.
pub open spec fn command_named(name: Seq<char>) -> MutexCommand {
    if name == "add"@ {
        MutexCommand::Add
    } else if name == "remove"@ {
        MutexCommand::Remove
    } else if name == "clear"@ {
        MutexCommand::Clear
    } else if name == "list"@ {
        MutexCommand::List
    } else {
        MutexCommand::Unknown
    }
}

/// Reads the name of a part of the command.
pub fn mutex_command(name: &str) -> (command: MutexCommand)
    ensures
        command == command_named(name@),
{
    if same_text(name, "add") {
        MutexCommand::Add
    } else if same_text(name, "remove") {
        MutexCommand::Remove
    } else if same_text(name, "clear") {
        MutexCommand::Clear
    } else if same_text(name, "list") {
        MutexCommand::List
    } else {
        MutexCommand::Unknown
    }
}

/// Whether a member may manage pairings: administrators may, and the owner.
pub fn may_manage(administrator: bool, user_id: u64) -> (allowed: bool)
    ensures
        allowed == (administrator || user_id == MUTEX_OWNER_ID),
{
    administrator || user_id == MUTEX_OWNER_ID
}

/// `pair` joins `a` and `b`, in this order or the other.
pub open spec fn joins(pair: (i64, i64), a: i64, b: i64) -> bool {
    pair == (a, b) || pair == (b, a)
}

/// The pairing of `a` and `b` is among `pairs`, in this order or the other.
pub open spec fn paired(pairs: Seq<(i64, i64)>, a: i64, b: i64) -> bool {
    exists|k: int| 0 <= k < pairs.len() && joins(#[trigger] pairs[k], a, b)
}

/// What becomes of the pairing of `role1` and `role2`, given the pairings
/// recorded so far.
pub open spec fn verdict_on(pairs: Seq<(i64, i64)>, role1: i64, role2: i64) -> PairVerdict {
    if role1 == role2 {
        PairVerdict::SameRole
    } else if paired(pairs, role1, role2) {
        PairVerdict::AlreadyPaired
    } else {
        PairVerdict::Accepted
    }
}

/// Judges a pairing that was asked for.
pub fn judge_pair(pairs: &Vec<(i64, i64)>, role1: i64, role2: i64) -> (verdict: PairVerdict)
    ensures
        verdict == verdict_on(pairs@, role1, role2),
{
    if role1 == role2 {
        return PairVerdict::SameRole;
    }
    let mut k: usize = 0;
    while k < pairs.len()
        invariant
            k <= pairs.len(),
            role1 != role2,
            forall|e: int| 0 <= e < k ==> !joins(#[trigger] pairs@[e], role1, role2),
        decreases pairs.len() - k,
    {
        let (a, b) = pairs[k];
        if (a == role1 && b == role2) || (a == role2 && b == role1) {
            assert(joins(pairs@[k as int], role1, role2));
            return PairVerdict::AlreadyPaired;
        }
        k = k + 1;
    }
    PairVerdict::Accepted
}

/// Whether a removal found the pairing: it did if it deleted a row.
pub fn pairing_existed(rows_deleted: u64) -> (existed: bool)
    ensures
        existed == (rows_deleted > 0),
{
    rows_deleted > 0
}

/// The second roles of the pairings that `gained` leads, as far as the
/// member holds them.
pub open spec fn led_by(pairs: Seq<(u64, u64)>, held: Seq<u64>, gained: u64) -> Seq<u64>
    decreases pairs.len(),
{
    if pairs.len() == 0 {
        Seq::empty()
    } else {
        let rest = led_by(pairs.drop_last(), held, gained);
        if pairs.last().0 == gained && held.contains(pairs.last().1) {
            rest.push(pairs.last().1)
        } else {
            rest
        }
    }
}

/// The first roles of the pairings that `gained` follows, held or not.
pub open spec fn followed_by(pairs: Seq<(u64, u64)>, gained: u64) -> Seq<u64>
    decreases pairs.len(),
{
    if pairs.len() == 0 {
        Seq::empty()
    } else {
        let rest = followed_by(pairs.drop_last(), gained);
        if pairs.last().1 == gained {
            rest.push(pairs.last().0)
        } else {
            rest
        }
    }
}

/// The roles that `gained` excludes: first those of the pairings it leads,
/// then those of the pairings it follows.
pub open spec fn excluded_by(pairs: Seq<(u64, u64)>, held: Seq<u64>, gained: u64) -> Seq<u64> {
    led_by(pairs, held, gained) + followed_by(pairs, gained)
}

/// The roles to take from a member whose roles changed from `old` to `new`:
/// for each role of `new` that `old` lacks, in the order of `new`, the roles
/// it excludes.
pub open spec fn exclusions(pairs: Seq<(u64, u64)>, old: Seq<u64>, new: Seq<u64>, upto: int)
    -> Seq<u64>
    decreases upto,
{
    if upto <= 0 || upto > new.len() {
        Seq::empty()
    } else {
        let rest = exclusions(pairs, old, new, upto - 1);
        let role = new[upto - 1];
        if old.contains(role) {
            rest
        } else {
            rest + excluded_by(pairs, new, role)
        }
    }
}

/// The roles that `gained` excludes for a member who holds `held`.
pub fn roles_excluded_by(pairs: &Vec<(u64, u64)>, held: &Vec<u64>, gained: u64) -> (out: Vec<u64>)
    ensures
        out@ == excluded_by(pairs@, held@, gained),
{
    let mut out: Vec<u64> = Vec::new();
    let mut k: usize = 0;
    while k < pairs.len()
        invariant
            k <= pairs.len(),
            out@ == led_by(pairs@.subrange(0, k as int), held@, gained),
        decreases pairs.len() - k,
    {
        let (first, second) = pairs[k];
        assert(pairs@.subrange(0, k + 1).drop_last() =~= pairs@.subrange(0, k as int));
        if first == gained && contains_id(held, second) {
            out.push(second);
        }
        k = k + 1;
    }
    assert(pairs@.subrange(0, k as int) =~= pairs@);
    let ghost led = out@;
    let mut j: usize = 0;
    while j < pairs.len()
        invariant
            j <= pairs.len(),
            out@ == led + followed_by(pairs@.subrange(0, j as int), gained),
        decreases pairs.len() - j,
    {
        let (first, second) = pairs[j];
        assert(pairs@.subrange(0, j + 1).drop_last() =~= pairs@.subrange(0, j as int));
        if second == gained {
            out.push(first);
            assert(out@ =~= led + followed_by(pairs@.subrange(0, j + 1), gained));
        }
        j = j + 1;
    }
    assert(pairs@.subrange(0, j as int) =~= pairs@);
    out
}

/// The roles to take from a member whose roles changed. Without knowledge
/// of the roles before the change nothing is taken.
pub fn check_mutex_roles(
    pairs: &Vec<(u64, u64)>,
    old_member_roles: &Option<Vec<u64>>,
    new_member_roles: &Vec<u64>,
) -> (remove: Vec<u64>)
    ensures
        remove@ == match old_member_roles {
            Some(old) => exclusions(
                pairs@,
                old@,
                new_member_roles@,
                new_member_roles@.len() as int,
            ),
            None => Seq::empty(),
        },
{
    let mut remove: Vec<u64> = Vec::new();
    let old = match old_member_roles {
        Some(old) => old,
        None => {
            return remove;
        },
    };
    let mut k: usize = 0;
    while k < new_member_roles.len()
        invariant
            k <= new_member_roles.len(),
            remove@ == exclusions(pairs@, old@, new_member_roles@, k as int),
        decreases new_member_roles.len() - k,
    {
        let role: u64 = new_member_roles[k];
        if !contains_id(old, role) {
            let mut excluded = roles_excluded_by(pairs, new_member_roles, role);
            remove.append(&mut excluded);
        }
        k = k + 1;
    }
    remove
}

} // verus!
