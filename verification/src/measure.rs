//! Figures about models: how long a measurement took and how that counts,
//! which models are marked in a list of choices, and which were used most.

use crate::models::contains_name;
use crate::text::string_views;
use vstd::prelude::*;

verus! {

/// The time in milliseconds beyond which a model is too slow.
pub const MINIMUM_DURATION_MS: u64 = 120000;

/// How a figure counts.
#[derive(Debug, Clone, Copy, PartialEq, Eq, Structural)]
pub enum Grade {
    /// Shown in green.
    Good,
    /// Shown in yellow.
    Fair,
    /// Shown in red.
    Poor,
}

/// A time that the server gives in nanoseconds, in whole milliseconds; zero
/// where the server gives none.
pub fn duration_millis(nanos: Option<u64>) -> (millis: u64)
    ensures
        millis == match nanos {
            Some(n) => n / 1000000,
            None => 0,
        },
{
    match nanos {
        Some(n) => n / 1000000,
        None => 0,
    }
}

/// How the whole time of a measurement counts: poor beyond
/// [`MINIMUM_DURATION_MS`], fair beyond half of it, and else good.
pub fn grade_duration(total_millis: u64) -> (grade: Grade)
    ensures
        grade == if total_millis > MINIMUM_DURATION_MS {
            Grade::Poor
        } else if total_millis > MINIMUM_DURATION_MS / 2 {
            Grade::Fair
        } else {
            Grade::Good
        },
{
    if total_millis > MINIMUM_DURATION_MS {
        Grade::Poor
    } else if total_millis > MINIMUM_DURATION_MS / 2 {
        Grade::Fair
    } else {
        Grade::Good
    }
}

/// The positions in `all` of the names that are among `mine`, in rising
/// order.
pub open spec fn marked(all: Seq<Seq<char>>, mine: Seq<Seq<char>>) -> Seq<usize>
    decreases all.len(),
{
    if all.len() == 0 {
        seq![]
    } else if mine.contains(all.last()) {
        marked(all.drop_last(), mine).push((all.len() - 1) as usize)
    } else {
        marked(all.drop_last(), mine)
    }
}

/// The positions to mark in a list of all the models of a provider: those
/// of the models that the user has chosen before.
pub fn default_selected(all: &Vec<String>, mine: &Vec<String>) -> (positions: Vec<usize>)
    ensures
        positions@ == marked(string_views(all@), string_views(mine@)),
{
    let ghost names = string_views(all@);
    let mut positions: Vec<usize> = Vec::new();
    let mut i: usize = 0;
    while i < all.len()
        invariant
            i <= all.len(),
            names == string_views(all@),
            positions@ == marked(names.take(i as int), string_views(mine@)),
        decreases all.len() - i,
    {
        assert(names.take(i + 1).drop_last() == names.take(i as int));
        if contains_name(mine, all[i].as_str()) {
            positions.push(i);
        }
        i += 1;
    }
    assert(names.take(all.len() as int) == names);
    positions
}

/// How often a model was used.
#[derive(Debug, Clone, PartialEq, Eq)]
pub struct ModelUse {
    pub model: String,
    pub tasks: usize,
}

/// Whether a list of uses goes from the most used model to the least.
pub open spec fn is_falling(uses: Seq<ModelUse>) -> bool {
    forall|i: int, j: int| 0 <= i <= j < uses.len() ==> uses[i].tasks >= uses[j].tasks
}

/// The given uses from the most used model to the least. Nothing is added
/// and nothing is lost.
pub fn sort_by_tasks(uses: &Vec<ModelUse>) -> (sorted: Vec<ModelUse>)
    ensures
        is_falling(sorted@),
        sorted@.to_multiset() == uses@.to_multiset(),
{
    let mut sorted: Vec<ModelUse> = Vec::new();
    let mut i: usize = 0;
    assert(uses@.take(0) =~= sorted@);
    while i < uses.len()
        invariant
            i <= uses.len(),
            is_falling(sorted@),
            sorted@.to_multiset() == uses@.take(i as int).to_multiset(),
        decreases uses.len() - i,
    {
        let item = ModelUse { model: uses[i].model.clone(), tasks: uses[i].tasks };
        let mut at: usize = 0;
        while at < sorted.len() && sorted[at].tasks >= item.tasks
            invariant
                at <= sorted.len(),
                forall|j: int| 0 <= j < at ==> sorted@[j].tasks >= item.tasks,
            decreases sorted.len() - at,
        {
            at += 1;
        }
        let ghost before = sorted@;
        sorted.insert(at, item);
        proof {
            let after = sorted@;
            assert forall|x: int, y: int| 0 <= x <= y < after.len() implies after[x].tasks
                >= after[y].tasks by {
                if x != at {
                    assert(after[x] == before[if x < at {
                        x
                    } else {
                        x - 1
                    }]);
                }
                if y != at {
                    assert(after[y] == before[if y < at {
                        y
                    } else {
                        y - 1
                    }]);
                }
            }
            assert(uses@.take(i + 1) == uses@.take(i as int).push(item));
            vstd::seq_lib::to_multiset_insert(before, at as int, item);
            vstd::seq_lib::to_multiset_build(uses@.take(i as int), item);
        }
        i += 1;
    }
    assert(uses@.take(uses.len() as int) == uses@);
    sorted
}

} // verus!
