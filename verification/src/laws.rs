//! What holds of every classification and of every run.

use crate::classify::{name_qualifies, qualifies, target_text, Entry};
use crate::config::Config;
use crate::name::is_result_name;
use crate::path::{components, is_direct_child, is_single_component, SEPARATOR};
use crate::path_laws::{
    all_single, joined, law_direct_child_has_one_name, law_relative_path_is_no_child_of_absolute,
};
use crate::report::{removed, reported, selected};
use vstd::prelude::*;
use vstd::utf8::valid_utf8;

verus! {

/// A symbolic link whose name is text of the shape of a result link, and
/// whose target is the store root, a separator and a single component,
/// qualifies.
pub proof fn law_link_to_store_entry_qualifies(entry: Entry, store_root: Seq<u8>, item: Seq<u8>)
    requires
        store_root.len() > 0,
        entry.is_symlink,
        valid_utf8(entry.name@),
        is_result_name(entry.name@),
        is_single_component(item),
        target_text(entry) == Some(store_root + seq![SEPARATOR] + item),
    ensures
        qualifies(entry, store_root),
{
    let names = seq![item];
    assert(names.drop_last() =~= Seq::<Seq<u8>>::empty());
    assert(joined(store_root, names.drop_last()) == store_root);
    assert(joined(store_root, names) == store_root + seq![SEPARATOR] + item);
    law_direct_child_has_one_name(store_root, names);
}

/// A link whose target runs two or more components below the store root does
/// not qualify, whatever its name.
pub proof fn law_link_below_store_entry_fails(
    entry: Entry,
    store_root: Seq<u8>,
    names: Seq<Seq<u8>>,
)
    requires
        store_root.len() > 0,
        all_single(names),
        names.len() >= 2,
        target_text(entry) == Some(joined(store_root, names)),
    ensures
        !qualifies(entry, store_root),
{
    law_direct_child_has_one_name(store_root, names);
}

/// A link whose target does not begin with the components of the store root
/// does not qualify, whatever its name.
pub proof fn law_link_outside_store_fails(entry: Entry, store_root: Seq<u8>)
    requires
        entry.target is Some,
        !components(store_root).is_prefix_of(components(entry.target->Some_0@)),
    ensures
        !qualifies(entry, store_root),
{
}

/// Against a store root that begins with a separator, a link whose target
/// does not begin with one does not qualify.
pub proof fn law_link_with_relative_target_fails(entry: Entry, store_root: Seq<u8>)
    requires
        store_root.len() > 0 && store_root[0] == SEPARATOR,
        entry.target is Some,
        entry.target->Some_0@.len() == 0 || entry.target->Some_0@[0] != SEPARATOR,
    ensures
        !qualifies(entry, store_root),
{
    law_relative_path_is_no_child_of_absolute(entry.target->Some_0@, store_root);
}

/// An entry that is not a symbolic link does not qualify, whatever its name
/// and whatever was read as its target.
pub proof fn law_only_links_qualify(entry: Entry, store_root: Seq<u8>)
    requires
        !entry.is_symlink,
    ensures
        !qualifies(entry, store_root),
{
}

/// A link whose target could not be read does not qualify.
pub proof fn law_unreadable_link_fails(entry: Entry, store_root: Seq<u8>)
    requires
        entry.target is None,
    ensures
        !qualifies(entry, store_root),
{
}

/// What is reported depends on the entry and the store root alone: two runs
/// over the same entry report alike, whatever else their settings say.
pub proof fn law_report_ignores_other_settings(entry: Entry, first: Config, second: Config)
    requires
        first.store_root@ == second.store_root@,
    ensures
        reported(entry, first) == reported(entry, second),
{
}

/// A run that removes links removes exactly those that a run that only
/// reports would print; a run that only reports removes none.
pub proof fn law_removal_matches_report(entry: Entry, removing: Config, reporting: Config)
    requires
        removing.store_root@ == reporting.store_root@,
        removing.delete,
        !reporting.delete,
    ensures
        removed(entry, removing) == reported(entry, reporting),
        !removed(entry, reporting),
{
}

/// The selected positions are exactly those of the qualifying entries.
pub proof fn law_selected_are_the_qualifying(entries: Seq<Entry>, store_root: Seq<u8>, i: int)
    ensures
        selected(entries, store_root).contains(i) <==> (0 <= i < entries.len() && qualifies(
            entries[i],
            store_root,
        )),
    decreases entries.len(),
{
    if entries.len() > 0 {
        let front = entries.drop_last();
        let last = entries.len() - 1;
        law_selected_are_the_qualifying(front, store_root, i);
        if qualifies(entries.last(), store_root) {
            let chosen = selected(front, store_root);
            assert(chosen.push(last).last() == last);
            assert(forall|k: int| 0 <= k < chosen.len() ==> chosen.push(last)[k] == chosen[k]);
            if chosen.contains(i) {
                let k = choose|k: int| 0 <= k < chosen.len() && chosen[k] == i;
                assert(chosen.push(last)[k] == i);
            }
            if i == last {
                assert(chosen.push(last)[chosen.len() as int] == i);
            }
        }
    }
}

/// The selected positions rise strictly: no entry is selected twice, and the
/// order of the walk is kept.
pub proof fn law_selected_in_walk_order(entries: Seq<Entry>, store_root: Seq<u8>)
    ensures
        forall|a: int, b: int|
            0 <= a < b < selected(entries, store_root).len() ==> selected(entries, store_root)[a]
                < selected(entries, store_root)[b],
        forall|a: int|
            0 <= a < selected(entries, store_root).len() ==> 0 <= #[trigger] selected(
                entries,
                store_root,
            )[a] < entries.len(),
    decreases entries.len(),
{
    if entries.len() > 0 {
        let front = selected(entries.drop_last(), store_root);
        let all = selected(entries, store_root);
        law_selected_in_walk_order(entries.drop_last(), store_root);
        assert forall|a: int| 0 <= a < all.len() implies 0 <= #[trigger] all[a]
            < entries.len() by {
            if a < front.len() {
                assert(all[a] == front[a]);
            }
        }
        assert forall|a: int, b: int| 0 <= a < b < all.len() implies all[a] < all[b] by {
            assert(all[a] == front[a]);
            if b < front.len() {
                assert(all[b] == front[b]);
            }
        }
    }
}

/// Taking one entry away leaves the classification of every other entry as
/// it was.
pub proof fn law_removal_leaves_others(entries: Seq<Entry>, gone: int, store_root: Seq<u8>)
    requires
        0 <= gone < entries.len(),
    ensures
        forall|i: int|
            0 <= i < gone ==> qualifies(#[trigger] entries.remove(gone)[i], store_root)
                == qualifies(entries[i], store_root),
        forall|i: int|
            gone <= i < entries.len() - 1 ==> qualifies(
                #[trigger] entries.remove(gone)[i],
                store_root,
            ) == qualifies(entries[i + 1], store_root),
{
}

} // verus!
