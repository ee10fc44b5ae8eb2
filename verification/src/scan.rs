//! Finding the first code unit of a class.

use vstd::prelude::*;
use crate::units::UnitClass;

verus! {

/// `at` is the first index at or after `from` whose unit is in `class`.
pub open spec fn first_at(line: Seq<u16>, from: int, class: UnitClass, at: int) -> bool {
    &&& 0 <= from <= at < line.len()
    &&& class.holds(line[at])
    &&& forall|k: int| from <= k < at ==> !class.holds(#[trigger] line[k])
}

/// No unit at or after `from` is in `class`.
pub open spec fn none_from(line: Seq<u16>, from: int, class: UnitClass) -> bool {
    forall|k: int| 0 <= k && from <= k < line.len() ==> !class.holds(#[trigger] line[k])
}

/// The first index at or after `from` whose unit is in `class`, if there is one.
pub open spec fn first_from(line: Seq<u16>, from: int, class: UnitClass) -> Option<int> {
    if exists|at: int| first_at(line, from, class, at) {
        Some(choose|at: int| first_at(line, from, class, at))
    } else {
        None
    }
}

/// There is at most one first index, and `first_from` names it.
pub proof fn lemma_first_from_is(line: Seq<u16>, from: int, class: UnitClass, at: int)
    requires
        first_at(line, from, class, at),
    ensures
        first_from(line, from, class) == Some(at),
{
    let found = choose|i: int| first_at(line, from, class, i);
    assert(first_at(line, from, class, found));
    if found < at {
        assert(!class.holds(line[found]));
    }
    if at < found {
        assert(!class.holds(line[at]));
    }
}

/// What `first_from` finds is a first index, and it finds none only where no
/// unit from `from` on is in the class.
pub proof fn lemma_first_from_found(line: Seq<u16>, from: int, class: UnitClass)
    requires
        0 <= from,
    ensures
        first_from(line, from, class) is None <==> none_from(line, from, class),
        first_from(line, from, class) matches Some(at) ==> first_at(line, from, class, at),
{
    if first_from(line, from, class) is None {
        // Were some unit in the class, the least such index would be a first index.
        if !none_from(line, from, class) {
            let k = choose|k: int| 0 <= k && from <= k < line.len() && class.holds(#[trigger] line[k]);
            lemma_least_exists(line, from, class, k);
        }
    } else {
        let at = first_from(line, from, class)->0;
        assert(first_at(line, from, class, at));
        assert(class.holds(line[at]));
    }
}

/// Below any unit of the class there is a first one.
proof fn lemma_least_exists(line: Seq<u16>, from: int, class: UnitClass, k: int)
    requires
        0 <= from <= k < line.len(),
        class.holds(line[k]),
    ensures
        exists|at: int| first_at(line, from, class, at),
    decreases k - from,
{
    if forall|j: int| from <= j < k ==> !class.holds(#[trigger] line[j]) {
        assert(first_at(line, from, class, k));
    } else {
        let j = choose|j: int| from <= j < k && class.holds(#[trigger] line[j]);
        lemma_least_exists(line, from, class, j);
    }
}

/// An index, or its absence, as a mathematical value.
pub open spec fn index_of(found: Option<usize>) -> Option<int> {
    match found {
        Some(at) => Some(at as int),
        None => None,
    }
}

/// Scans `line` from index `from` on for the first unit in `class`.
pub fn position_from(line: &[u16], from: usize, class: UnitClass) -> (found: Option<usize>)
    ensures
        index_of(found) == first_from(line@, from as int, class),
        found matches Some(at) ==> first_at(line@, from as int, class, at as int),
        found is None ==> none_from(line@, from as int, class),
{
    let mut i: usize = from;
    while i < line.len()
        invariant
            from <= i,
            forall|k: int| from <= k < i && k < line@.len() ==> !class.holds(#[trigger] line@[k]),
        decreases line.len() - i,
    {
        if class.admits(line[i]) {
            proof {
                assert(first_at(line@, from as int, class, i as int));
                lemma_first_from_is(line@, from as int, class, i as int);
            }
            return Some(i);
        }
        i = i + 1;
    }
    proof {
        assert(none_from(line@, from as int, class));
        lemma_first_from_found(line@, from as int, class);
    }
    None
}

} // verus!
