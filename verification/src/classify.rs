//! Deciding, entry by entry, whether a file is a result link.
//!
//! The decision is taken in two steps, so that a link's target is read only
//! when its name has the right shape: first the name, then the target.

use crate::config::Config;
use crate::name::{is_result_name, name_matches};
use crate::path::{is_direct_child, lies_directly_below};
use vstd::prelude::*;
use vstd::utf8::valid_utf8;

verus! {

/// Something that went wrong with one entry and may be told to the user.
#[derive(Clone, Copy, Debug, PartialEq, Eq, Structural)]
pub enum Notice {
    /// A directory could not be read, or an entry's metadata could not be had.
    WalkFailed,
    /// A link's file name is not valid text.
    InvalidName,
    /// A link's target could not be read.
    UnreadableTarget,
    /// A qualifying link could not be removed.
    RemoveFailed,
}

/// The outcome of one step for one entry.
#[derive(Clone, Copy, Debug, PartialEq, Eq, Structural)]
pub struct Step {
    /// Whether the entry goes on to the next step.
    pub proceed: bool,
    /// What to tell the user, if anything.
    pub notice: Option<Notice>,
}

/// What is known of one entry of the walk once its target was asked for.
#[derive(Clone, Debug)]
pub struct Entry {
    /// Whether the entry itself is a symbolic link.
    pub is_symlink: bool,
    /// The raw bytes of the file name.
    pub name: Vec<u8>,
    /// The raw target of the link; `None` where it could not be read.
    pub target: Option<Vec<u8>>,
}

/// The entry passes the name step: it is a symbolic link whose name is text
/// of the shape of a result link.
pub open spec fn name_qualifies(is_symlink: bool, name: Seq<u8>) -> bool {
    is_symlink && valid_utf8(name) && is_result_name(name)
}

/// The target passes the target step: it was read, and lies directly below
/// the store root.
pub open spec fn target_qualifies(target: Option<Seq<u8>>, store_root: Seq<u8>) -> bool {
    target is Some && is_direct_child(target->Some_0, store_root)
}

/// The target of an entry as plain bytes.
pub open spec fn target_text(entry: Entry) -> Option<Seq<u8>> {
    match entry.target {
        Some(t) => Some(t@),
        None => None,
    }
}

/// An entry is a result link when it passes both steps.
pub open spec fn qualifies(entry: Entry, store_root: Seq<u8>) -> bool {
    name_qualifies(entry.is_symlink, entry.name@) && target_qualifies(
        target_text(entry),
        store_root,
    )
}

/// Whether `bytes` are well-formed UTF-8.
///
/// Calls `core::str::from_utf8`, which is documented to succeed exactly when
/// the slice is valid UTF-8; the contract states that in terms of vstd's
/// definition of well-formed UTF-8. This is believed, not proved.
#[verifier::external_body]
fn is_text(bytes: &[u8]) -> (r: bool)
    ensures
        r == valid_utf8(bytes@),
{
    match core::str::from_utf8(bytes) {
        Ok(_) => true,
        Err(_) => false,
    }
}

/// The notice for an entry that the walk could not deliver: given only when
/// verbose.
pub fn note_walk_failure(verbose: bool) -> (notice: Option<Notice>)
    ensures
        notice == if verbose { Some(Notice::WalkFailed) } else { None },
{
    if verbose {
        Some(Notice::WalkFailed)
    } else {
        None
    }
}

/// The notice after an attempt to remove a qualifying link: a failure is
/// always told, whatever the verbosity.
pub fn note_removal(removed: bool) -> (notice: Option<Notice>)
    ensures
        notice == if removed { None } else { Some(Notice::RemoveFailed) },
{
    if removed {
        None
    } else {
        Some(Notice::RemoveFailed)
    }
}

/// The name step. Only symbolic links are looked at; a link whose name is
/// not text is dropped, with a notice when verbose.
pub fn check_name(is_symlink: bool, name: &[u8], verbose: bool) -> (step: Step)
    ensures
        step.proceed == name_qualifies(is_symlink, name@),
        step.notice == if is_symlink && !valid_utf8(name@) && verbose {
            Some(Notice::InvalidName)
        } else {
            None
        },
{
    if !is_symlink {
        return Step { proceed: false, notice: None };
    }
    if !is_text(name) {
        let notice = if verbose { Some(Notice::InvalidName) } else { None };
        return Step { proceed: false, notice };
    }
    Step { proceed: name_matches(name), notice: None }
}

/// The target step. A target that could not be read drops the entry, with a
/// notice when verbose; one that was read passes exactly when it lies
/// directly below the store root.
pub fn check_target(target: Option<&[u8]>, store_root: &[u8], verbose: bool) -> (step: Step)
    ensures
        step.proceed == match target {
            Some(t) => is_direct_child(t@, store_root@),
            None => false,
        },
        step.notice == if target is None && verbose {
            Some(Notice::UnreadableTarget)
        } else {
            None
        },
{
    match target {
        Some(t) => Step { proceed: lies_directly_below(t, store_root), notice: None },
        None => {
            let notice = if verbose { Some(Notice::UnreadableTarget) } else { None };
            Step { proceed: false, notice }
        },
    }
}

/// Both steps on an entry whose target was already asked for. The notice is
/// that of the step at which the entry was dropped.
pub fn classify(entry: &Entry, config: &Config) -> (step: Step)
    ensures
        step.proceed == qualifies(*entry, config.store_root@),
        step.notice == if !config.is_verbose() || !entry.is_symlink {
            None
        } else if !valid_utf8(entry.name@) {
            Some(Notice::InvalidName)
        } else if is_result_name(entry.name@) && entry.target is None {
            Some(Notice::UnreadableTarget)
        } else {
            None
        },
{
    let verbose = config.verbose();
    let by_name = check_name(entry.is_symlink, entry.name.as_slice(), verbose);
    if !by_name.proceed {
        return by_name;
    }
    match &entry.target {
        Some(t) => check_target(Some(t.as_slice()), config.store_root.as_slice(), verbose),
        None => check_target(None, config.store_root.as_slice(), verbose),
    }
}

} // verus!
