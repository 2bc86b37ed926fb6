//! The root search: walk the ancestor chain of a starting directory and
//! report the nearest or the outermost ancestor that holds a marker
//! directory, falling back to the start when none does.
//!
//! The chain is handed in as plain data: the visited directories' paths,
//! and one flag per visited directory saying whether a marker directory
//! stands directly inside it. An unreadable directory is listed with a
//! `false` flag, so the search continues past it instead of aborting.

use vstd::prelude::*;

verus! {

use crate::marker_name;
use vstd::string::StringExecFns;

/// Which matching ancestor the search reports when several ancestors hold
/// a marker: the nearest one to the start, or the outermost one, closest
/// to the filesystem root.
#[derive(Clone, Copy, PartialEq, Eq, Structural, Debug)]
pub enum MatchMode {
    First,
    Last,
}

/// The mode a command-line value denotes: `first` or `last`.
pub open spec fn spec_mode_of(name: Seq<char>) -> Option<MatchMode> {
    if name == "first"@ {
        Some(MatchMode::First)
    } else if name == "last"@ {
        Some(MatchMode::Last)
    } else {
        None
    }
}

pub fn parse_match_mode(name: &str) -> (r: Option<MatchMode>)
    ensures
        r == spec_mode_of(name@),
{
    let n = String::from_str(name);
    if n == String::from_str("first") {
        Some(MatchMode::First)
    } else if n == String::from_str("last") {
        Some(MatchMode::Last)
    } else {
        None
    }
}

/// One directory entry counts as the marker exactly when it is named
/// `.git` and is itself a directory, never when it is a regular file.
pub open spec fn spec_entry_is_marker(name: Seq<char>, is_dir: bool) -> bool {
    name == marker_name() && is_dir
}

pub fn entry_is_marker(name: &String, is_dir: bool) -> (r: bool)
    ensures
        r == spec_entry_is_marker(name@, is_dir),
{
    is_dir && *name == String::from_str(".git")
}

/// Whether a directory holds a marker, given its entries' names and, for
/// each entry, whether that entry is a directory.
pub open spec fn spec_dir_has_marker(names: Seq<String>, dirs: Seq<bool>) -> bool {
    exists|i: int| 0 <= i < names.len() && spec_entry_is_marker(names[i]@, dirs[i])
}

pub fn dir_has_marker(names: &Vec<String>, dirs: &Vec<bool>) -> (r: bool)
    requires
        names@.len() == dirs@.len(),
    ensures
        r == spec_dir_has_marker(names@, dirs@),
{
    let mut i: usize = 0;
    while i < names.len()
        invariant
            i <= names@.len(),
            names@.len() == dirs@.len(),
            forall|j: int| 0 <= j < i ==> !spec_entry_is_marker(names@[j]@, dirs@[j]),
        decreases names@.len() - i,
    {
        if entry_is_marker(&names[i], dirs[i]) {
            return true;
        }
        i = i + 1;
    }
    false
}

/// No visited directory holds a marker.
pub open spec fn no_marker(markers: Seq<bool>) -> bool {
    forall|i: int| 0 <= i < markers.len() ==> !markers[i]
}

/// `i` is the nearest marked position: marked, with nothing marked
/// between the start and it.
pub open spec fn is_first_marker(markers: Seq<bool>, i: int) -> bool {
    &&& 0 <= i < markers.len()
    &&& markers[i]
    &&& forall|j: int| 0 <= j < i ==> !markers[j]
}

/// `i` is the outermost marked position: marked, with nothing marked
/// between it and the filesystem root.
pub open spec fn is_last_marker(markers: Seq<bool>, i: int) -> bool {
    &&& 0 <= i < markers.len()
    &&& markers[i]
    &&& forall|j: int| i < j < markers.len() ==> !markers[j]
}

/// The position the given mode selects.
pub open spec fn is_match_at(markers: Seq<bool>, mode: MatchMode, i: int) -> bool {
    match mode {
        MatchMode::First => is_first_marker(markers, i),
        MatchMode::Last => is_last_marker(markers, i),
    }
}

/// The index of the ancestor the mode selects, or `None` when no visited
/// directory holds a marker.
pub fn find_match_index(markers: &Vec<bool>, mode: MatchMode) -> (r: Option<usize>)
    ensures
        match r {
            Some(i) => is_match_at(markers@, mode, i as int),
            None => no_marker(markers@),
        },
{
    let mut best: Option<usize> = None;
    let mut i: usize = 0;
    while i < markers.len()
        invariant
            i <= markers@.len(),
            mode == MatchMode::First ==> best is None,
            match best {
                Some(k) => k < i && markers@[k as int] && forall|j: int|
                    k < j < i ==> !markers@[j],
                None => forall|j: int| 0 <= j < i ==> !markers@[j],
            },
        decreases markers@.len() - i,
    {
        if markers[i] {
            best = Some(i);
            if mode == MatchMode::First {
                return best;
            }
        }
        i = i + 1;
    }
    best
}

/// At most one position satisfies a mode's selection predicate.
pub proof fn lemma_match_at_unique(markers: Seq<bool>, mode: MatchMode, i: int, j: int)
    requires
        is_match_at(markers, mode, i),
        is_match_at(markers, mode, j),
    ensures
        i == j,
{
    match mode {
        MatchMode::First => {
            if i < j {
                assert(!markers[i]);
            }
            if j < i {
                assert(!markers[j]);
            }
        },
        MatchMode::Last => {
            if i < j {
                assert(!markers[j]);
            }
            if j < i {
                assert(!markers[i]);
            }
        },
    }
}

/// Whenever some visited directory is marked, a nearest marked position
/// exists.
pub proof fn lemma_first_marker_exists(markers: Seq<bool>)
    requires
        !no_marker(markers),
    ensures
        exists|i: int| is_first_marker(markers, i),
    decreases markers.len(),
{
    let w = choose|i: int| 0 <= i < markers.len() && markers[i];
    if markers[0] {
        assert(is_first_marker(markers, 0));
    } else {
        let sub = markers.subrange(1, markers.len() as int);
        assert(sub[w - 1]);
        assert(!no_marker(sub));
        lemma_first_marker_exists(sub);
        let k = choose|i: int| is_first_marker(sub, i);
        assert(markers[k + 1] == sub[k]);
        assert forall|j: int| 0 <= j < k + 1 implies !markers[j] by {
            if j > 0 {
                assert(markers[j] == sub[j - 1]);
                assert(!sub[j - 1]);
            }
        }
        assert(is_first_marker(markers, k + 1));
    }
}

/// Whenever some visited directory is marked, an outermost marked
/// position exists.
pub proof fn lemma_last_marker_exists(markers: Seq<bool>)
    requires
        !no_marker(markers),
    ensures
        exists|i: int| is_last_marker(markers, i),
    decreases markers.len(),
{
    let w = choose|i: int| 0 <= i < markers.len() && markers[i];
    let top = markers.len() - 1;
    if markers[top] {
        assert(is_last_marker(markers, top));
    } else {
        let sub = markers.subrange(0, top);
        assert(sub[w]);
        assert(!no_marker(sub));
        lemma_last_marker_exists(sub);
        let k = choose|i: int| is_last_marker(sub, i);
        assert(forall|j: int| k < j < top ==> markers[j] == sub[j]);
        assert(is_last_marker(markers, k));
    }
}

/// Each mode selects a position exactly when some visited directory is
/// marked.
pub proof fn lemma_match_exists(markers: Seq<bool>, mode: MatchMode)
    requires
        !no_marker(markers),
    ensures
        exists|i: int| is_match_at(markers, mode, i),
{
    match mode {
        MatchMode::First => {
            lemma_first_marker_exists(markers);
            let k = choose|i: int| is_first_marker(markers, i);
            assert(is_match_at(markers, MatchMode::First, k));
        },
        MatchMode::Last => {
            lemma_last_marker_exists(markers);
            let k = choose|i: int| is_last_marker(markers, i);
            assert(is_match_at(markers, MatchMode::Last, k));
        },
    }
}

/// A chain with exactly one marked position: both modes select it, so the
/// search reports the same ancestor in either mode.
pub proof fn lemma_single_marker(markers: Seq<bool>, a: int)
    requires
        0 <= a < markers.len(),
        markers[a],
        forall|j: int| 0 <= j < markers.len() && j != a ==> !markers[j],
    ensures
        is_match_at(markers, MatchMode::First, a),
        is_match_at(markers, MatchMode::Last, a),
{
}

/// Nested repositories: with a marked position `a1` nearer the start, a
/// marked position `a2` farther toward the root, nothing marked nearer
/// than `a1` and nothing marked farther than `a2`, the `First` mode
/// selects `a1` and the `Last` mode selects `a2`.
pub proof fn lemma_nested_markers(markers: Seq<bool>, a1: int, a2: int)
    requires
        0 <= a1 < a2 < markers.len(),
        markers[a1],
        markers[a2],
        forall|j: int| 0 <= j < a1 ==> !markers[j],
        forall|j: int| a2 < j < markers.len() ==> !markers[j],
    ensures
        is_match_at(markers, MatchMode::First, a1),
        is_match_at(markers, MatchMode::Last, a2),
{
}

/// The whole search. `chain[0]` is the starting directory and each later
/// entry is the parent of the one before it; the chain covers every
/// ancestor that has a parent, so the filesystem root itself is never
/// visited. `markers[i]` says whether `chain[i]` holds a marker
/// directory. The result is the path the mode selects, or the start
/// unchanged when nothing is marked.
pub fn find(start: &String, chain: &Vec<String>, markers: &Vec<bool>, mode: MatchMode) -> (r: String)
    requires
        chain@.len() == markers@.len(),
    ensures
        no_marker(markers@) ==> r@ == start@,
        !no_marker(markers@) ==> exists|i: int| is_match_at(markers@, mode, i) && r@ == chain@[i]@,
        forall|i: int| is_match_at(markers@, mode, i) ==> r@ == chain@[i]@,
{
    match find_match_index(markers, mode) {
        Some(i) => {
            let r = chain[i].clone();
            proof {
                assert forall|k: int| is_match_at(markers@, mode, k) implies r@ == chain@[k]@ by {
                    lemma_match_at_unique(markers@, mode, i as int, k);
                }
            }
            r
        },
        None => start.clone(),
    }
}

} // verus!
