//! Choosing where an archived file goes without overwriting one already there.

use vstd::prelude::*;
use vstd::relations::injective_on;
use vstd::set_lib::{lemma_int_range, lemma_len_subset, lemma_map_size, set_int_range};
use crate::text::{
    decimal_text, in_names, lemma_decimal_injective, lemma_decimal_nonempty, names_contain, push_decimal,
};
use crate::time::now;

verus! {

/// Highest numeric suffix tried before falling back to the epoch-seconds suffix.
pub const MAX_COLLISION_SUFFIX: u64 = 100_000;

/// Why a restore was refused before anything moved.
#[derive(Clone, Copy, Debug, PartialEq, Eq, Structural)]
pub enum RestoreError {
    /// The archived file is no longer where the manifest says.
    ArchivedMissing,
    /// Something already occupies the original path.
    DestinationExists,
}

/// The stages of moving one file: a rename first, else a copy and then removing the source.
#[derive(Clone, Copy, Debug, PartialEq, Eq, Structural)]
pub enum MovePhase {
    Rename,
    Copy,
    RemoveSource,
}

/// How a move that succeeded was done.
#[derive(Clone, Copy, Debug, PartialEq, Eq, Structural)]
pub enum MoveMethod {
    Renamed,
    CopiedThenRemoved,
}

/// How a move failed.
#[derive(Clone, Copy, Debug, PartialEq, Eq, Structural)]
pub enum MoveError {
    /// Neither rename nor copy worked; the source is untouched.
    CopyFailed,
    /// The copy is in place but the source could not be removed: the data now exists twice.
    SourceNotRemoved,
}

/// What to do after a phase of a move.
#[derive(Clone, Copy, Debug, PartialEq, Eq, Structural)]
pub enum MoveStep {
    Run(MovePhase),
    Done(MoveMethod),
    Failed(MoveError),
}

/// The move's next step, given the phase just attempted and whether it succeeded.
pub open spec fn next_move_step(phase: MovePhase, succeeded: bool) -> MoveStep {
    match phase {
        MovePhase::Rename => if succeeded {
            MoveStep::Done(MoveMethod::Renamed)
        } else {
            MoveStep::Run(MovePhase::Copy)
        },
        MovePhase::Copy => if succeeded {
            MoveStep::Run(MovePhase::RemoveSource)
        } else {
            MoveStep::Failed(MoveError::CopyFailed)
        },
        MovePhase::RemoveSource => if succeeded {
            MoveStep::Done(MoveMethod::CopiedThenRemoved)
        } else {
            MoveStep::Failed(MoveError::SourceNotRemoved)
        },
    }
}

/// A restore may go ahead only when the archived file exists and the original path is free.
pub open spec fn restore_check(
    archived_exists: bool,
    destination_exists: bool,
) -> Result<(), RestoreError> {
    if !archived_exists {
        Err(RestoreError::ArchivedMissing)
    } else if destination_exists {
        Err(RestoreError::DestinationExists)
    } else {
        Ok(())
    }
}

/// Decides the step after attempting `phase`: a failed rename falls back to copying, a
/// copy is followed by removing the source, and each outcome ends the move distinctly.
pub fn after_move_phase(phase: MovePhase, succeeded: bool) -> (r: MoveStep)
    ensures
        r == next_move_step(phase, succeeded),
{
    match phase {
        MovePhase::Rename => if succeeded {
            MoveStep::Done(MoveMethod::Renamed)
        } else {
            MoveStep::Run(MovePhase::Copy)
        },
        MovePhase::Copy => if succeeded {
            MoveStep::Run(MovePhase::RemoveSource)
        } else {
            MoveStep::Failed(MoveError::CopyFailed)
        },
        MovePhase::RemoveSource => if succeeded {
            MoveStep::Done(MoveMethod::CopiedThenRemoved)
        } else {
            MoveStep::Failed(MoveError::SourceNotRemoved)
        },
    }
}

/// Checks a restore's preconditions: the archived file must exist and nothing may occupy
/// the original path. The manifest is only touched after the move succeeds.
pub fn check_restore_preconditions(archived_exists: bool, destination_exists: bool) -> (r: Result<
    (),
    RestoreError,
>)
    ensures
        r == restore_check(archived_exists, destination_exists),
{
    if !archived_exists {
        Err(RestoreError::ArchivedMissing)
    } else if destination_exists {
        Err(RestoreError::DestinationExists)
    } else {
        Ok(())
    }
}

/// Candidate number `k` for a file name: the name itself, then `name.1`, `name.2`, ...
pub open spec fn suffixed_name(file_name: Seq<char>, k: nat) -> Seq<char> {
    if k == 0 {
        file_name
    } else {
        file_name + seq!['.'] + decimal_text(k)
    }
}

/// `dir` joined with `name`, adding a `/` unless `dir` is empty or ends in a separator.
pub open spec fn joined_path(dir: Seq<char>, name: Seq<char>) -> Seq<char> {
    if dir.len() == 0 || dir.last() == '/' || dir.last() == '\\' {
        dir + name
    } else {
        dir + seq!['/'] + name
    }
}

/// Candidate `k` is free and every earlier candidate is taken.
pub open spec fn first_free_suffix(file_name: Seq<char>, taken: Seq<String>, k: nat) -> bool {
    &&& k <= MAX_COLLISION_SUFFIX
    &&& !in_names(taken, suffixed_name(file_name, k))
    &&& forall|j: nat| j < k ==> in_names(taken, #[trigger] suffixed_name(file_name, j))
}

/// Joins a directory and a file name into a path.
pub fn join_path(dir: &str, name: &str) -> (r: String)
    ensures
        r@ == joined_path(dir@, name@),
{
    let mut out = String::from_str(dir);
    let n = dir.unicode_len();
    if n > 0 {
        let last = dir.get_char(n - 1);
        if last != '/' && last != '\\' {
            proof { reveal_strlit("/"); }
            out.append("/");
        }
    }
    out.append(name);
    out
}

/// Whether `c` separates path components.
pub open spec fn is_separator(c: char) -> bool {
    c == '/' || c == '\\'
}

/// `~` alone becomes the home directory, and `~/rest` or `~\rest` becomes `rest` under it,
/// except that a `rest` starting with a separator is an absolute path and replaces the
/// home directory; any other path, or any path when the home directory is unknown, stays
/// as it is.
pub open spec fn tilde_expanded(path: Seq<char>, home: Option<Seq<char>>) -> Seq<char> {
    match home {
        None => path,
        Some(h) => if path == seq!['~'] {
            h
        } else if path.len() >= 2 && path[0] == '~' && is_separator(path[1]) {
            let rest = path.subrange(2, path.len() as int);
            if rest.len() > 0 && is_separator(rest[0]) {
                rest
            } else {
                joined_path(h, rest)
            }
        } else {
            path
        },
    }
}

/// Expands a leading `~` against `home`, the user's home directory if known.
pub fn expand_tilde(path: &str, home: Option<&str>) -> (r: String)
    ensures
        r@ == tilde_expanded(path@, match home {
            Some(h) => Some(h@),
            None => None,
        }),
{
    let n = path.unicode_len();
    match home {
        None => String::from_str(path),
        Some(h) => {
            if n == 1 && path.get_char(0) == '~' {
                assert(path@ =~= seq!['~']);
                return String::from_str(h);
            }
            if n >= 2 && path.get_char(0) == '~' {
                let second = path.get_char(1);
                if second == '/' || second == '\\' {
                    let rest = path.substring_char(2, n);
                    if n > 2 {
                        let first = rest.get_char(0);
                        if first == '/' || first == '\\' {
                            return String::from_str(rest);
                        }
                    }
                    return join_path(h, rest);
                }
            }
            assert(path@ != seq!['~'] || n == 1);
            String::from_str(path)
        },
    }
}

/// Candidate number `k` for `file_name`.
pub fn suffixed(file_name: &str, k: u64) -> (r: String)
    ensures
        r@ == suffixed_name(file_name@, k as nat),
{
    let mut out = String::from_str(file_name);
    if k > 0 {
        proof { reveal_strlit("."); }
        out.append(".");
        push_decimal(&mut out, k);
    }
    out
}

/// Distinct candidate numbers give distinct names.
pub proof fn lemma_suffixed_injective(file_name: Seq<char>, a: nat, b: nat)
    requires
        suffixed_name(file_name, a) == suffixed_name(file_name, b),
    ensures
        a == b,
{
    lemma_decimal_nonempty(a);
    lemma_decimal_nonempty(b);
    let stem = file_name + seq!['.'];
    if a > 0 && b > 0 {
        let (sa, sb) = (stem + decimal_text(a), stem + decimal_text(b));
        assert(sa.subrange(stem.len() as int, sa.len() as int) =~= decimal_text(a));
        assert(sb.subrange(stem.len() as int, sb.len() as int) =~= decimal_text(b));
        lemma_decimal_injective(a, b);
    } else if a > 0 {
        assert(suffixed_name(file_name, a).len() > file_name.len());
    } else if b > 0 {
        assert(suffixed_name(file_name, b).len() > file_name.len());
    }
}

/// The stem of the last-resort names: `file_name.<seconds since the epoch>`.
pub open spec fn epoch_stem(file_name: Seq<char>, secs: nat) -> Seq<char> {
    file_name + seq!['.'] + decimal_text(secs)
}

/// `name` is what a free archive name is chosen as: not taken, and either the first free
/// numbered candidate, or, with every numbered candidate taken, the first free candidate
/// built on an epoch-seconds stem.
pub open spec fn chosen_name(file_name: Seq<char>, taken: Seq<String>, name: Seq<char>) -> bool {
    &&& !in_names(taken, name)
    &&& (exists|k: nat| first_free_suffix(file_name, taken, k) && name == #[trigger] suffixed_name(file_name, k))
        || ((forall|k: nat| k <= MAX_COLLISION_SUFFIX
            ==> in_names(taken, #[trigger] suffixed_name(file_name, k)))
            && exists|secs: nat, j: nat| name == #[trigger] suffixed_name(epoch_stem(file_name, secs), j))
}

/// Among any `taken.len() + 1` candidates on one stem, at least one is free.
pub proof fn lemma_free_candidate_exists(stem: Seq<char>, taken: Seq<String>, bound: nat)
    requires
        taken.len() <= bound,
    ensures
        exists|k: nat| k <= bound && !in_names(taken, #[trigger] suffixed_name(stem, k)),
{
    if forall|k: nat| k <= bound ==> in_names(taken, #[trigger] suffixed_name(stem, k)) {
        let count = bound as int + 1;
        let xs = set_int_range(0, count);
        lemma_int_range(0, count);
        let f = |k: int| suffixed_name(stem, k as nat);
        assert(injective_on(f, xs)) by {
            assert forall|a: int, b: int|
                xs.contains(a) && xs.contains(b) && #[trigger] f(a) == #[trigger] f(b) implies a == b by {
                lemma_suffixed_injective(stem, a as nat, b as nat);
            }
        }
        let ys = xs.map(f);
        lemma_map_size(xs, ys, f);
        let views = taken.map_values(|s: String| s@);
        let present = views.to_set();
        views.lemma_cardinality_of_set();
        assert(ys.subset_of(present)) by {
            assert forall|s: Seq<char>| ys.contains(s) implies present.contains(s) by {
                let k = choose|k: int| xs.contains(k) && s == f(k);
                assert(in_names(taken, suffixed_name(stem, k as nat)));
                let j = choose|j: int| 0 <= j < taken.len() && #[trigger] taken[j]@ == suffixed_name(stem, k as nat);
                assert(views[j] == s);
            }
        }
        lemma_len_subset(ys, present);
        assert(false);
    }
}

/// The first free name among `stem`, `stem.1`, `stem.2`, ...; one of the first
/// `taken_names.len() + 1` is always free.
fn first_free_on_stem(stem: &str, taken_names: &Vec<String>) -> (r: String)
    ensures
        !in_names(taken_names@, r@),
        exists|j: nat| r@ == #[trigger] suffixed_name(stem@, j),
{
    let n = taken_names.len();
    proof {
        lemma_free_candidate_exists(stem@, taken_names@, n as nat);
    }
    let mut j: usize = 0;
    loop
        invariant
            j <= n,
            n == taken_names@.len(),
            forall|i: nat| i < j ==> in_names(taken_names@, #[trigger] suffixed_name(stem@, i)),
            exists|k: nat| k <= n && !in_names(taken_names@, #[trigger] suffixed_name(stem@, k)),
        decreases n - j,
    {
        let candidate = suffixed(stem, j as u64);
        if !names_contain(taken_names, &candidate) {
            return candidate;
        }
        if j == n {
            proof {
                let k = choose|k: nat| k <= n && !in_names(taken_names@, #[trigger] suffixed_name(stem@, k));
                assert(k < j || k == j);
            }
            return candidate;
        }
        j = j + 1;
    }
}

/// The last-resort name for `file_name` when every numbered candidate is taken: the first
/// free one among `file_name.<secs>`, `file_name.<secs>.1`, ...
pub fn epoch_fallback_name(file_name: &str, taken_names: &Vec<String>, secs: u64) -> (r: String)
    ensures
        !in_names(taken_names@, r@),
        exists|j: nat| r@ == #[trigger] suffixed_name(epoch_stem(file_name@, secs as nat), j),
{
    let mut stem = String::from_str(file_name);
    proof { reveal_strlit("."); }
    stem.append(".");
    push_decimal(&mut stem, secs);
    assert(stem@ =~= epoch_stem(file_name@, secs as nat));
    first_free_on_stem(stem.as_str(), taken_names)
}

/// A free name for `file_name` among `taken_names`: the first free one among `file_name`,
/// `file_name.1`, ... `file_name.100000`; only when all of them are taken, a name built on
/// `file_name.<seconds since the epoch>`. The result is never one of `taken_names`.
pub fn unique_file_name(file_name: &str, taken_names: &Vec<String>) -> (r: String)
    ensures
        chosen_name(file_name@, taken_names@, r@),
        taken_names@.len() <= MAX_COLLISION_SUFFIX ==> exists|k: nat|
            first_free_suffix(file_name@, taken_names@, k)
            && r@ == #[trigger] suffixed_name(file_name@, k),
{
    let mut k: u64 = 0;
    while k <= MAX_COLLISION_SUFFIX
        invariant
            forall|j: nat| j < k ==> in_names(taken_names@, #[trigger] suffixed_name(file_name@, j)),
        decreases MAX_COLLISION_SUFFIX + 1 - k,
    {
        let candidate = suffixed(file_name, k);
        if !names_contain(taken_names, &candidate) {
            assert(first_free_suffix(file_name@, taken_names@, k as nat));
            return candidate;
        }
        k = k + 1;
    }
    proof {
        if taken_names@.len() <= MAX_COLLISION_SUFFIX {
            lemma_free_candidate_exists(file_name@, taken_names@, MAX_COLLISION_SUFFIX as nat);
        }
    }
    let secs = now().unix_secs_floor();
    let epoch: u64 = if secs < 0 {
        0
    } else if secs > u64::MAX as i128 {
        u64::MAX
    } else {
        secs as u64
    };
    epoch_fallback_name(file_name, taken_names, epoch)
}

/// The path in `dir` under which `file_name` is archived without touching any of
/// `taken_names`, the names already present there (see `unique_file_name`).
pub fn unique_destination(dir: &str, file_name: &str, taken_names: &Vec<String>) -> (r: String)
    ensures
        exists|name: Seq<char>|
            #[trigger] chosen_name(file_name@, taken_names@, name) && r@ == joined_path(dir@, name),
        taken_names@.len() <= MAX_COLLISION_SUFFIX ==> exists|k: nat|
            first_free_suffix(file_name@, taken_names@, k)
            && r@ == joined_path(dir@, #[trigger] suffixed_name(file_name@, k)),
{
    let name = unique_file_name(file_name, taken_names);
    assert(chosen_name(file_name@, taken_names@, name@));
    join_path(dir, name.as_str())
}

/// Archiving into an empty directory keeps the file's own name.
pub proof fn lemma_empty_directory_keeps_name(file_name: Seq<char>, name: Seq<char>)
    requires
        chosen_name(file_name, Seq::<String>::empty(), name),
    ensures
        name == file_name,
{
    assert(!in_names(Seq::<String>::empty(), suffixed_name(file_name, 0)));
    if exists|k: nat| first_free_suffix(file_name, Seq::<String>::empty(), k)
        && name == #[trigger] suffixed_name(file_name, k) {
        let k = choose|k: nat| first_free_suffix(file_name, Seq::<String>::empty(), k)
            && name == #[trigger] suffixed_name(file_name, k);
        if k > 0 {
            assert(in_names(Seq::<String>::empty(), suffixed_name(file_name, 0)));
        }
    }
}

/// Archiving a second file of the same name, with only the first one present, adds `.1`.
pub proof fn lemma_one_collision_adds_one(file_name: Seq<char>, first: String, name: Seq<char>)
    requires
        first@ == file_name,
        chosen_name(file_name, seq![first], name),
    ensures
        name == suffixed_name(file_name, 1),
{
    let taken = seq![first];
    lemma_decimal_nonempty(1);
    assert(taken[0] == first);
    assert(taken[0]@ == suffixed_name(file_name, 0));
    assert(in_names(taken, suffixed_name(file_name, 0)));
    assert(!in_names(taken, suffixed_name(file_name, 1))) by {
        if in_names(taken, suffixed_name(file_name, 1)) {
            assert(taken[0]@ == suffixed_name(file_name, 1));
        }
    }
    if exists|k: nat| first_free_suffix(file_name, taken, k)
        && name == #[trigger] suffixed_name(file_name, k) {
        let k = choose|k: nat| first_free_suffix(file_name, taken, k)
            && name == #[trigger] suffixed_name(file_name, k);
        if k > 1 {
            assert(in_names(taken, suffixed_name(file_name, 1)));
        }
    }
}

} // verus!
