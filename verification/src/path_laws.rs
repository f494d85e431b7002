//! What holds of the components of every path.

use crate::path::{
    closed_components, components, dot_text, is_direct_child, is_single_component, open_piece,
    root_text, with_piece, SEPARATOR,
};
use vstd::prelude::*;

verus! {

/// `base` with each of `names` appended in turn, a separator before each.
pub open spec fn joined(base: Seq<u8>, names: Seq<Seq<u8>>) -> Seq<u8>
    decreases names.len(),
{
    if names.len() == 0 {
        base
    } else {
        joined(base, names.drop_last()) + seq![SEPARATOR] + names.last()
    }
}

/// Every text in `names` is a single component.
pub open spec fn all_single(names: Seq<Seq<u8>>) -> bool {
    forall|i: int| 0 <= i < names.len() ==> is_single_component(#[trigger] names[i])
}

/// Every text in `found` is a single component, but that the first may be
/// the root or the current directory.
pub open spec fn well_formed(found: Seq<Seq<u8>>) -> bool {
    forall|i: int|
        0 <= i < found.len() ==> is_single_component(#[trigger] found[i]) || (i == 0 && (found[i]
            == root_text() || found[i] == dot_text()))
}

/// The open piece of a path holds no separator.
proof fn lemma_open_piece_is_plain(path: Seq<u8>)
    ensures
        forall|i: int| 0 <= i < open_piece(path).len() ==> open_piece(path)[i] != SEPARATOR,
    decreases path.len(),
{
    if path.len() > 0 && path.last() != SEPARATOR {
        let shorter = open_piece(path.drop_last());
        lemma_open_piece_is_plain(path.drop_last());
        assert forall|i: int| 0 <= i < open_piece(path).len() implies open_piece(path)[i]
            != SEPARATOR by {
            if i < shorter.len() {
                assert(open_piece(path)[i] == shorter[i]);
            }
        }
    }
}

/// Taking in a piece without separators keeps the components well formed.
proof fn lemma_with_piece_well_formed(found: Seq<Seq<u8>>, piece: Seq<u8>, closed: bool)
    requires
        well_formed(found),
        forall|i: int| 0 <= i < piece.len() ==> piece[i] != SEPARATOR,
    ensures
        well_formed(with_piece(found, piece, closed)),
{
    let after = with_piece(found, piece, closed);
    assert forall|i: int| 0 <= i < after.len() implies is_single_component(#[trigger] after[i])
        || (i == 0 && (after[i] == root_text() || after[i] == dot_text())) by {
        if i < found.len() {
            assert(after[i] == found[i]);
        }
    }
}

/// The closed components of a path are well formed.
proof fn lemma_closed_well_formed(path: Seq<u8>)
    ensures
        well_formed(closed_components(path)),
    decreases path.len(),
{
    if path.len() > 0 {
        lemma_closed_well_formed(path.drop_last());
        if path.last() == SEPARATOR {
            lemma_open_piece_is_plain(path.drop_last());
            lemma_with_piece_well_formed(
                closed_components(path.drop_last()),
                open_piece(path.drop_last()),
                true,
            );
        }
    }
}

/// No component of a path is empty, and none holds a separator or is `.`,
/// but that the first may be the root or the current directory.
pub proof fn law_components_well_formed(path: Seq<u8>)
    ensures
        well_formed(components(path)),
{
    lemma_closed_well_formed(path);
    lemma_open_piece_is_plain(path);
    lemma_with_piece_well_formed(closed_components(path), open_piece(path), false);
}

/// Where a path begins with a separator, its closed components begin with
/// the root; where it begins otherwise, they do not, and it has an open
/// piece as long as it has no closed component.
proof fn lemma_first_closed(path: Seq<u8>)
    requires
        path.len() > 0,
    ensures
        path[0] == SEPARATOR ==> closed_components(path).len() > 0 && closed_components(path)[0]
            == root_text(),
        path[0] != SEPARATOR && closed_components(path).len() > 0 ==> closed_components(path)[0]
            != root_text(),
        path[0] != SEPARATOR && closed_components(path).len() == 0 ==> open_piece(path).len() > 0,
    decreases path.len(),
{
    let front = path.drop_last();
    if front.len() > 0 {
        lemma_first_closed(front);
        assert(front[0] == path[0]);
        if path.last() == SEPARATOR {
            lemma_open_piece_is_plain(front);
            let piece = open_piece(front);
            let found = closed_components(front);
            if found.len() > 0 {
                assert(with_piece(found, piece, true)[0] == found[0]);
            } else if path[0] != SEPARATOR {
                assert(with_piece(found, piece, true)[0] == piece);
                assert(piece[0] != SEPARATOR);
                assert(root_text()[0] == SEPARATOR);
            }
        }
    } else {
        assert(path.last() == path[0]);
        assert(closed_components(front).len() == 0);
        assert(open_piece(front).len() == 0);
    }
}

/// The first component of a path is the root exactly when the path begins
/// with a separator.
pub proof fn law_root_component(path: Seq<u8>)
    requires
        path.len() > 0,
    ensures
        components(path).len() > 0,
        components(path)[0] == root_text() <==> path[0] == SEPARATOR,
{
    law_components_of_nonempty(path);
    lemma_first_closed(path);
    lemma_open_piece_is_plain(path);
    let found = closed_components(path);
    let piece = open_piece(path);
    if found.len() > 0 {
        assert(components(path)[0] == found[0]);
    } else {
        assert(components(path)[0] == piece);
        assert(piece[0] != SEPARATOR);
        assert(root_text()[0] == SEPARATOR);
    }
}

/// Bytes without a separator, appended to a path, only lengthen its open
/// piece.
proof fn lemma_append_plain(path: Seq<u8>, more: Seq<u8>)
    requires
        forall|i: int| 0 <= i < more.len() ==> more[i] != SEPARATOR,
    ensures
        open_piece(path + more) == open_piece(path) + more,
        closed_components(path + more) == closed_components(path),
    decreases more.len(),
{
    if more.len() == 0 {
        assert(path + more =~= path);
        assert(open_piece(path) + more =~= open_piece(path));
    } else {
        let shorter = more.drop_last();
        lemma_append_plain(path, shorter);
        assert((path + more).drop_last() =~= path + shorter);
        assert((path + more).last() == more.last());
        assert(open_piece(path) + more =~= (open_piece(path) + shorter).push(more.last()));
    }
}

/// A separator closes the open piece; at the end of a path that is not
/// empty this gives the path's components.
proof fn lemma_append_separator(path: Seq<u8>)
    requires
        path.len() > 0,
    ensures
        open_piece(path.push(SEPARATOR)) == Seq::<u8>::empty(),
        closed_components(path.push(SEPARATOR)) == components(path),
{
    let longer = path.push(SEPARATOR);
    assert(longer.drop_last() =~= path);
    assert(longer.last() == SEPARATOR);
    if open_piece(path).len() == 0 {
        assert(path.last() == SEPARATOR);
        assert(closed_components(path).len() > 0);
    }
}

/// No path is empty and without components at once.
pub proof fn law_components_of_nonempty(path: Seq<u8>)
    requires
        path.len() > 0,
    ensures
        components(path).len() > 0,
{
    if open_piece(path).len() == 0 {
        assert(path.last() == SEPARATOR);
        assert(closed_components(path).len() > 0);
    }
}

/// Appending a separator and a single component to a path that is not empty
/// appends that component to its components.
pub proof fn law_append_component(base: Seq<u8>, name: Seq<u8>)
    requires
        base.len() > 0,
        is_single_component(name),
    ensures
        components(base + seq![SEPARATOR] + name) == components(base).push(name),
{
    lemma_append_separator(base);
    assert(base + seq![SEPARATOR] =~= base.push(SEPARATOR));
    lemma_append_plain(base.push(SEPARATOR), name);
    assert(Seq::<u8>::empty() + name =~= name);
}

/// The components of a path with names joined on are the path's own, then
/// the names.
pub proof fn law_components_of_joined(base: Seq<u8>, names: Seq<Seq<u8>>)
    requires
        base.len() > 0,
        all_single(names),
    ensures
        joined(base, names).len() > 0,
        components(joined(base, names)) == components(base) + names,
    decreases names.len(),
{
    if names.len() == 0 {
        assert(components(base) + names =~= components(base));
    } else {
        let front = names.drop_last();
        law_components_of_joined(base, front);
        law_append_component(joined(base, front), names.last());
        assert((components(base) + front).push(names.last()) =~= components(base) + names);
    }
}

/// A single component, taken as a path, is its own only component.
pub proof fn law_components_of_name(name: Seq<u8>)
    requires
        is_single_component(name),
    ensures
        components(name) == seq![name],
{
    let nothing = Seq::<u8>::empty();
    lemma_append_plain(nothing, name);
    assert(nothing + name =~= name);
    assert(closed_components(nothing) =~= Seq::<Seq<u8>>::empty());
    assert(open_piece(nothing) =~= nothing);
    assert(Seq::<Seq<u8>>::empty().push(name) =~= seq![name]);
}

/// The components of a path written as a separator before each of one or
/// more names are the root, then the names.
pub proof fn law_components_of_absolute(names: Seq<Seq<u8>>)
    requires
        all_single(names),
        names.len() > 0,
    ensures
        joined(Seq::empty(), names).len() > 0,
        components(joined(Seq::empty(), names)) == seq![root_text()] + names,
    decreases names.len(),
{
    let nothing = Seq::<u8>::empty();
    let front = names.drop_last();
    if front.len() == 0 {
        let root = seq![SEPARATOR];
        assert(joined(nothing, front) == nothing);
        assert(nothing + seq![SEPARATOR] =~= root);
        assert(root.drop_last() =~= nothing);
        assert(closed_components(nothing) =~= Seq::<Seq<u8>>::empty());
        assert(open_piece(nothing) =~= nothing);
        assert(closed_components(root) =~= seq![root_text()]);
        assert(open_piece(root) =~= nothing);
        lemma_append_plain(root, names.last());
        assert(nothing + names.last() =~= names.last());
        assert(seq![root_text()].push(names.last()) =~= seq![root_text()] + names);
    } else {
        law_components_of_absolute(front);
        law_append_component(joined(nothing, front), names.last());
        assert((seq![root_text()] + front).push(names.last()) =~= seq![root_text()] + names);
    }
}

/// A path made of a base that is not empty and names joined on lies directly
/// below the base exactly when one name was joined on: one name always
/// does, two or more never do.
pub proof fn law_direct_child_has_one_name(base: Seq<u8>, names: Seq<Seq<u8>>)
    requires
        base.len() > 0,
        all_single(names),
    ensures
        is_direct_child(joined(base, names), base) <==> names.len() == 1,
{
    law_components_of_joined(base, names);
    assert((components(base) + names).subrange(0, components(base).len() as int) =~= components(
        base,
    ));
}

/// A path that does not begin with a separator does not lie directly below
/// a base that does.
pub proof fn law_relative_path_is_no_child_of_absolute(target: Seq<u8>, base: Seq<u8>)
    requires
        base.len() > 0 && base[0] == SEPARATOR,
        target.len() == 0 || target[0] != SEPARATOR,
    ensures
        !is_direct_child(target, base),
{
    law_root_component(base);
    if target.len() > 0 {
        law_root_component(target);
        if components(base).is_prefix_of(components(target)) {
            assert(components(target).subrange(0, components(base).len() as int)[0]
                == components(base)[0]);
        }
    } else {
        assert(components(target).len() == 0);
    }
}

/// A path whose components do not begin with those of the base does not lie
/// directly below it, whatever else it holds.
pub proof fn law_foreign_path_is_no_child(target: Seq<u8>, base: Seq<u8>)
    requires
        !components(base).is_prefix_of(components(target)),
    ensures
        !is_direct_child(target, base),
{
}

} // verus!
