//! Paths as byte strings, and their components.
//!
//! A path is cut at every `/`. Empty pieces and `.` pieces name nothing and
//! are left out, with two exceptions that mark where a path starts: a
//! leading `/` is the root component, and a leading `.` stands for the
//! current directory. Each component is kept as its own text, so the root
//! component is the one-byte text `/`.

use vstd::prelude::*;

verus! {

/// The byte that separates components: `/` in ASCII.
pub const SEPARATOR: u8 = 47;

/// The byte of the current-directory component: `.` in ASCII.
pub const DOT: u8 = 46;

/// The text of the root component.
pub open spec fn root_text() -> Seq<u8> {
    seq![SEPARATOR]
}

/// The text of the current-directory component.
pub open spec fn dot_text() -> Seq<u8> {
    seq![DOT]
}

/// The bytes of `path` that follow its last separator (all of it, if it has
/// none): the piece that no separator has closed yet.
pub open spec fn open_piece(path: Seq<u8>) -> Seq<u8>
    decreases path.len(),
{
    if path.len() == 0 || path.last() == SEPARATOR {
        Seq::empty()
    } else {
        open_piece(path.drop_last()).push(path.last())
    }
}

/// The components so far, with one more piece taken in.
///
/// An empty piece adds nothing, unless a separator closed it at the very
/// start of the path: that separator is the root. A `.` piece counts only as
/// the first component. Every other piece is a component.
pub open spec fn with_piece(found: Seq<Seq<u8>>, piece: Seq<u8>, closed: bool) -> Seq<Seq<u8>> {
    if piece.len() == 0 {
        if closed && found.len() == 0 {
            found.push(root_text())
        } else {
            found
        }
    } else if piece == dot_text() && found.len() > 0 {
        found
    } else {
        found.push(piece)
    }
}

/// The components of `path` that a separator has closed.
pub open spec fn closed_components(path: Seq<u8>) -> Seq<Seq<u8>>
    decreases path.len(),
{
    if path.len() == 0 {
        Seq::empty()
    } else if path.last() == SEPARATOR {
        with_piece(closed_components(path.drop_last()), open_piece(path.drop_last()), true)
    } else {
        closed_components(path.drop_last())
    }
}

/// The components of `path`, first to last.
pub open spec fn components(path: Seq<u8>) -> Seq<Seq<u8>> {
    with_piece(closed_components(path), open_piece(path), false)
}

/// A piece of text that is one component wherever it stands after a
/// separator: not empty, not `.`, and free of separators.
pub open spec fn is_single_component(text: Seq<u8>) -> bool {
    &&& text.len() > 0
    &&& text != dot_text()
    &&& forall|i: int| 0 <= i < text.len() ==> text[i] != SEPARATOR
}

/// `target` lies directly below `base`: its components are those of `base`
/// and exactly one more.
pub open spec fn is_direct_child(target: Seq<u8>, base: Seq<u8>) -> bool {
    &&& components(base).is_prefix_of(components(target))
    &&& components(target).len() == components(base).len() + 1
}

/// The texts held by a vector of byte vectors.
pub open spec fn texts(items: Seq<Vec<u8>>) -> Seq<Seq<u8>> {
    Seq::new(items.len(), |i: int| items[i]@)
}

/// Takes one more piece into the components found so far.
fn take_piece(found: &mut Vec<Vec<u8>>, piece: Vec<u8>, closed: bool)
    ensures
        texts(final(found)@) == with_piece(texts(old(found)@), piece@, closed),
{
    let ghost before = texts(found@);
    if piece.len() == 0 {
        if closed && found.len() == 0 {
            let mut root: Vec<u8> = Vec::new();
            root.push(SEPARATOR);
            assert(root@ =~= root_text());
            found.push(root);
            assert(texts(found@) =~= before.push(root_text()));
        }
    } else {
        let is_dot = piece.len() == 1 && piece[0] == DOT;
        assert(is_dot == (piece@ == dot_text())) by {
            if is_dot {
                assert(piece@ =~= dot_text());
            }
        }
        if !(is_dot && found.len() > 0) {
            found.push(piece);
            assert(texts(found@) =~= before.push(piece@));
        }
    }
}

/// Splits a path into its components.
pub fn split_components(path: &[u8]) -> (found: Vec<Vec<u8>>)
    ensures
        texts(found@) == components(path@),
{
    let mut found: Vec<Vec<u8>> = Vec::new();
    let mut piece: Vec<u8> = Vec::new();
    let mut i: usize = 0;
    assert(texts(found@) =~= closed_components(path@.take(0)));
    while i < path.len()
        invariant
            i <= path.len(),
            texts(found@) == closed_components(path@.take(i as int)),
            piece@ == open_piece(path@.take(i as int)),
        decreases path.len() - i,
    {
        let byte = path[i];
        assert(path@.take(i + 1).drop_last() == path@.take(i as int));
        assert(path@.take(i + 1).last() == byte);
        if byte == SEPARATOR {
            take_piece(&mut found, piece, true);
            piece = Vec::new();
        } else {
            piece.push(byte);
        }
        i += 1;
    }
    assert(path@.take(i as int) == path@);
    take_piece(&mut found, piece, false);
    found
}

/// Whether two byte strings are equal.
pub fn same_bytes(a: &[u8], b: &[u8]) -> (r: bool)
    ensures
        r == (a@ == b@),
{
    if a.len() != b.len() {
        return false;
    }
    let mut i: usize = 0;
    while i < a.len()
        invariant
            i <= a.len() == b.len(),
            a@.take(i as int) == b@.take(i as int),
        decreases a.len() - i,
    {
        if a[i] != b[i] {
            return false;
        }
        assert(a@.take(i + 1) == a@.take(i as int).push(a@[i as int]));
        assert(b@.take(i + 1) == b@.take(i as int).push(b@[i as int]));
        i += 1;
    }
    assert(a@.take(i as int) == a@);
    assert(b@.take(i as int) == b@);
    true
}

/// Decides whether `target` lies directly below `base`.
pub fn lies_directly_below(target: &[u8], base: &[u8]) -> (r: bool)
    ensures
        r == is_direct_child(target@, base@),
{
    let of_target = split_components(target);
    let of_base = split_components(base);
    assert(texts(of_target@).len() == of_target.len() && texts(of_base@).len() == of_base.len());
    if of_base.len() == usize::MAX || of_target.len() != of_base.len() + 1 {
        return false;
    }
    let mut i: usize = 0;
    while i < of_base.len()
        invariant
            i <= of_base.len() < of_target.len(),
            texts(of_target@) == components(target@),
            texts(of_base@) == components(base@),
            texts(of_base@).take(i as int) == texts(of_target@).take(i as int),
        decreases of_base.len() - i,
    {
        if !same_bytes(of_base[i].as_slice(), of_target[i].as_slice()) {
            assert(texts(of_base@)[i as int] == of_base@[i as int]@);
            assert(texts(of_target@).subrange(0, of_base@.len() as int)[i as int]
                == of_target@[i as int]@);
            return false;
        }
        assert(texts(of_base@).take(i + 1) == texts(of_base@).take(i as int).push(
            texts(of_base@)[i as int],
        ));
        assert(texts(of_target@).take(i + 1) == texts(of_target@).take(i as int).push(
            texts(of_target@)[i as int],
        ));
        i += 1;
    }
    assert(texts(of_base@).take(i as int) == texts(of_base@));
    assert(texts(of_target@).take(i as int) == texts(of_target@).subrange(
        0,
        of_base@.len() as int,
    ));
    true
}

} // verus!
