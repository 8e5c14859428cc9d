//! Whether the mount holding a directory records access times unreliably.

use vstd::prelude::*;

verus! {

/// One mounted file system: where it is mounted and its comma-separated options.
#[derive(Clone, Debug)]
pub struct MountEntry {
    pub mountpoint: String,
    pub options: String,
}

/// `p` is a prefix of `s`.
pub open spec fn is_prefix(p: Seq<char>, s: Seq<char>) -> bool {
    p.len() <= s.len() && s.subrange(0, p.len() as int) == p
}

/// `needle` occurs somewhere in `hay`.
pub open spec fn occurs_in(needle: Seq<char>, hay: Seq<char>) -> bool {
    exists|i: int| 0 <= i <= hay.len() - needle.len() && #[trigger] hay.subrange(i, i + needle.len()) == needle
}

/// The mount that holds `target`: the entry with the longest mount point that prefixes it,
/// the later one among equally long ones.
pub open spec fn best_mount(entries: Seq<MountEntry>, target: Seq<char>) -> Option<int>
    decreases entries.len(),
{
    if entries.len() == 0 {
        None
    } else {
        let before = best_mount(entries.drop_last(), target);
        let best_len = match before {
            Some(i) => entries[i].mountpoint@.len(),
            None => 0,
        };
        let m = entries.last().mountpoint@;
        if is_prefix(m, target) && m.len() >= best_len {
            Some(entries.len() - 1)
        } else {
            before
        }
    }
}

/// Options under which access times are not updated on every read.
pub open spec fn limits_atime(options: Seq<char>) -> bool {
    occurs_in(seq!['n', 'o', 'a', 't', 'i', 'm', 'e'], options) || occurs_in(
        seq!['r', 'e', 'l', 'a', 't', 'i', 'm', 'e'],
        options,
    )
}

/// Whether `p` is a prefix of `s`.
pub fn starts_with(s: &str, p: &str) -> (r: bool)
    ensures
        r == is_prefix(p@, s@),
{
    let n = p.unicode_len();
    if n > s.unicode_len() {
        return false;
    }
    let mut i: usize = 0;
    while i < n
        invariant
            n == p@.len(),
            n <= s@.len(),
            i <= n,
            forall|j: int| 0 <= j < i ==> s@[j] == p@[j],
        decreases n - i,
    {
        if s.get_char(i) != p.get_char(i) {
            assert(s@.subrange(0, n as int)[i as int] != p@[i as int]);
            return false;
        }
        i = i + 1;
    }
    assert(s@.subrange(0, n as int) =~= p@);
    true
}

/// Whether `needle` occurs in `hay` at position `at`.
fn occurs_at(hay: &str, needle: &str, at: usize) -> (r: bool)
    requires
        at + needle@.len() <= hay@.len(),
        hay@.len() <= usize::MAX,
    ensures
        r == (hay@.subrange(at as int, at + needle@.len()) == needle@),
{
    let n = needle.unicode_len();
    let mut i: usize = 0;
    while i < n
        invariant
            n == needle@.len(),
            at + n <= hay@.len(),
            hay@.len() <= usize::MAX,
            i <= n,
            forall|j: int| 0 <= j < i ==> hay@[at + j] == needle@[j],
        decreases n - i,
    {
        if hay.get_char(at + i) != needle.get_char(i) {
            assert(hay@.subrange(at as int, at + n)[i as int] != needle@[i as int]);
            return false;
        }
        i = i + 1;
    }
    assert(hay@.subrange(at as int, at + n) =~= needle@);
    true
}

/// Whether `needle` occurs in `hay`.
pub fn contains_text(hay: &str, needle: &str) -> (r: bool)
    ensures
        r == occurs_in(needle@, hay@),
{
    let h = hay.unicode_len();
    let n = needle.unicode_len();
    if n > h {
        return false;
    }
    let last = h - n;
    let mut at: usize = 0;
    loop
        invariant
            h == hay@.len(),
            n == needle@.len(),
            n <= h,
            last == h - n,
            at <= last,
            forall|i: int| 0 <= i < at ==> #[trigger] hay@.subrange(i, i + n) != needle@,
        decreases last - at,
    {
        if occurs_at(hay, needle, at) {
            return true;
        }
        if at == last {
            return false;
        }
        at = at + 1;
    }
}

/// Whether the options say access times may lag behind real use (`noatime` or `relatime`).
pub fn atime_may_lag(options: &str) -> (r: bool)
    ensures
        r == limits_atime(options@),
{
    proof {
        reveal_strlit("noatime");
        reveal_strlit("relatime");
    }
    let noatime = "noatime";
    let relatime = "relatime";
    assert(noatime@ =~= seq!['n', 'o', 'a', 't', 'i', 'm', 'e']);
    assert(relatime@ =~= seq!['r', 'e', 'l', 'a', 't', 'i', 'm', 'e']);
    contains_text(options, noatime) || contains_text(options, relatime)
}

/// The position of the mount that holds `target`, if any mount point prefixes it.
pub fn find_mount(entries: &Vec<MountEntry>, target: &str) -> (r: Option<usize>)
    ensures
        r matches Some(i) ==> best_mount(entries@, target@) == Some(i as int),
        r is None ==> best_mount(entries@, target@) is None,
{
    let mut best: Option<usize> = None;
    let mut best_len: usize = 0;
    let mut i: usize = 0;
    while i < entries.len()
        invariant
            i <= entries@.len(),
            best matches Some(b) ==> best_mount(entries@.subrange(0, i as int), target@) == Some(b as int)
                && b < i && best_len == entries@[b as int].mountpoint@.len(),
            best is None ==> best_mount(entries@.subrange(0, i as int), target@) is None && best_len == 0,
        decreases entries@.len() - i,
    {
        let ghost before = entries@.subrange(0, i as int);
        let ghost upto = entries@.subrange(0, i + 1);
        assert(upto.drop_last() =~= before);
        assert(upto.last() == entries@[i as int]);
        if let Some(b) = best {
            assert(upto[b as int] == before[b as int]);
        }
        let m = &entries[i].mountpoint;
        if starts_with(target, m.as_str()) {
            let len = m.unicode_len();
            if len >= best_len {
                best = Some(i);
                best_len = len;
            }
        }
        i = i + 1;
    }
    assert(entries@.subrange(0, i as int) =~= entries@);
    best
}

/// Whether the mount holding `target` is mounted with options under which access times
/// lag behind real use.
pub fn mount_limits_atime(entries: &Vec<MountEntry>, target: &str) -> (r: bool)
    ensures
        r == (best_mount(entries@, target@) matches Some(i) && limits_atime(entries@[i].options@)),
{
    match find_mount(entries, target) {
        Some(i) => {
            proof {
                lemma_best_mount_in_range(entries@, target@);
            }
            atime_may_lag(entries[i].options.as_str())
        },
        None => false,
    }
}

/// The mount `best_mount` picks is one of the entries.
pub proof fn lemma_best_mount_in_range(entries: Seq<MountEntry>, target: Seq<char>)
    ensures
        best_mount(entries, target) matches Some(i) ==> 0 <= i < entries.len(),
    decreases entries.len(),
{
    if entries.len() > 0 {
        lemma_best_mount_in_range(entries.drop_last(), target);
    }
}

} // verus!
