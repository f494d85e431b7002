//! The settings of one run, fixed before the walk starts.

use crate::path::{components, root_text, SEPARATOR};
use crate::path_laws::{joined, law_components_of_absolute};
use vstd::prelude::*;

verus! {

/// The text of the store root that links are matched against unless another
/// is set: `/nix/store` in ASCII.
pub open spec fn default_store_root() -> Seq<u8> {
    seq![47u8, 110u8, 105u8, 120u8, 47u8, 115u8, 116u8, 111u8, 114u8, 101u8]
}

/// The bytes of `nix` in ASCII.
pub open spec fn nix_text() -> Seq<u8> {
    seq![110u8, 105u8, 120u8]
}

/// The bytes of `store` in ASCII.
pub open spec fn store_text() -> Seq<u8> {
    seq![115u8, 116u8, 111u8, 114u8, 101u8]
}

/// The default store root is the directory `store` in the directory `nix`
/// in the root.
pub proof fn law_default_store_root()
    ensures
        default_store_root().len() > 0,
        default_store_root()[0] == SEPARATOR,
        components(default_store_root()) == seq![root_text(), nix_text(), store_text()],
{
    let names = seq![nix_text(), store_text()];
    let front = names.drop_last();
    assert(front =~= seq![nix_text()]);
    assert(front.drop_last() =~= Seq::<Seq<u8>>::empty());
    assert(joined(Seq::empty(), front.drop_last()) == Seq::<u8>::empty());
    assert(joined(Seq::empty(), front) =~= seq![SEPARATOR] + nix_text());
    assert(joined(Seq::empty(), names) =~= default_store_root());
    law_components_of_absolute(names);
    assert(seq![root_text()] + names =~= seq![root_text(), nix_text(), store_text()]);
}

/// What one run was asked to do.
#[derive(Clone, Debug)]
pub struct Config {
    /// The path of the package store.
    pub store_root: Vec<u8>,
    /// Whether qualifying links are removed after they are reported.
    pub delete: bool,
    /// Whether the walk may enter other file systems.
    pub cross_filesystems: bool,
    /// How often more output was asked for.
    pub verbosity: u8,
}

/// How the directory walk is to be set up.
#[derive(Clone, Copy, Debug, PartialEq, Eq)]
pub struct WalkOptions {
    /// Whether the walk descends through symbolic links.
    pub follow_links: bool,
    /// Whether the walk stays on the file system of its root.
    pub same_file_system: bool,
}

impl Config {
    /// A store root names a place: it is not the empty path.
    pub open spec fn wf(&self) -> bool {
        self.store_root@.len() > 0
    }

    /// Whether skipped entries are to be noted.
    pub open spec fn is_verbose(&self) -> bool {
        self.verbosity != 0
    }

    /// The settings for the default store root.
    pub fn new(delete: bool, cross_filesystems: bool, verbosity: u8) -> (config: Config)
        ensures
            config.wf(),
            config.store_root@ == default_store_root(),
            config.delete == delete,
            config.cross_filesystems == cross_filesystems,
            config.verbosity == verbosity,
    {
        let store_root: Vec<u8> = vec![47, 110, 105, 120, 47, 115, 116, 111, 114, 101];
        assert(store_root@ =~= default_store_root());
        Config { store_root, delete, cross_filesystems, verbosity }
    }

    /// Whether skipped entries are to be noted: at any verbosity above zero.
    pub fn verbose(&self) -> (r: bool)
        ensures
            r == self.is_verbose(),
    {
        self.verbosity != 0
    }

    /// The walk never descends through a symbolic link, and stays on the
    /// root's file system unless crossing was asked for.
    pub fn walk_options(&self) -> (options: WalkOptions)
        ensures
            !options.follow_links,
            options.same_file_system == !self.cross_filesystems,
    {
        WalkOptions { follow_links: false, same_file_system: !self.cross_filesystems }
    }
}

} // verus!
