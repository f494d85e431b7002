//! What a run reports and removes.

use crate::classify::{classify, qualifies, Entry};
use crate::config::Config;
use vstd::prelude::*;

verus! {

/// What is done with one entry once it is classified.
#[derive(Clone, Copy, Debug, PartialEq, Eq, Structural)]
pub struct Action {
    /// Whether the entry's path is printed.
    pub report: bool,
    /// Whether the entry is removed, after its path was printed.
    pub remove: bool,
}

/// An entry is reported exactly when it qualifies.
pub open spec fn reported(entry: Entry, config: Config) -> bool {
    qualifies(entry, config.store_root@)
}

/// An entry is removed exactly when it is reported and removal was asked for.
pub open spec fn removed(entry: Entry, config: Config) -> bool {
    config.delete && reported(entry, config)
}

/// The positions of the qualifying entries, in the order of the entries.
pub open spec fn selected(entries: Seq<Entry>, store_root: Seq<u8>) -> Seq<int>
    decreases entries.len(),
{
    if entries.len() == 0 {
        Seq::empty()
    } else if qualifies(entries.last(), store_root) {
        selected(entries.drop_last(), store_root).push(entries.len() - 1)
    } else {
        selected(entries.drop_last(), store_root)
    }
}

/// The positions held by a vector of indices.
pub open spec fn positions(found: Seq<usize>) -> Seq<int> {
    Seq::new(found.len(), |i: int| found[i] as int)
}

/// Decides what is done with an entry that was classified.
pub fn act_on(qualifying: bool, config: &Config) -> (action: Action)
    ensures
        action.report == qualifying,
        action.remove == (qualifying && config.delete),
{
    Action { report: qualifying, remove: qualifying && config.delete }
}

/// Decides what is done with an entry.
pub fn decide(entry: &Entry, config: &Config) -> (action: Action)
    ensures
        action.report == reported(*entry, *config),
        action.remove == removed(*entry, *config),
{
    act_on(classify(entry, config).proceed, config)
}

/// Finds the result links among the entries of a walk: the position of each
/// qualifying entry, in the order in which the walk gave them.
pub fn find_nix_store_links(entries: &Vec<Entry>, config: &Config) -> (found: Vec<usize>)
    ensures
        positions(found@) == selected(entries@, config.store_root@),
{
    let mut found: Vec<usize> = Vec::new();
    let mut i: usize = 0;
    assert(positions(found@) =~= selected(entries@.take(0), config.store_root@));
    while i < entries.len()
        invariant
            i <= entries.len(),
            positions(found@) == selected(entries@.take(i as int), config.store_root@),
        decreases entries.len() - i,
    {
        let ghost before = positions(found@);
        assert(entries@.take(i + 1).drop_last() == entries@.take(i as int));
        assert(entries@.take(i + 1).last() == entries@[i as int]);
        if classify(&entries[i], config).proceed {
            found.push(i);
            assert(positions(found@) =~= before.push(i as int));
        }
        i += 1;
    }
    assert(entries@.take(i as int) == entries@);
    found
}

} // verus!
