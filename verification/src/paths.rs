//! File-system paths held as strings, with the meaning that `std::path`
//! gives them on Unix: joining and component-wise equality.
use vstd::prelude::*;
use crate::text::{split_spec, split_char, str_eq, views, lemma_split_nonempty};

verus! {

/// `base` joined with `other`, as `Path::join` builds it on Unix: an
/// absolute `other` replaces `base`; otherwise a `/` is put between the two
/// unless `base` is empty or already ends with one.
pub open spec fn path_join_spec(base: Seq<char>, other: Seq<char>) -> Seq<char> {
    if other.len() > 0 && other[0] == '/' {
        other
    } else if base.len() > 0 && base.last() != '/' {
        base + seq!['/'] + other
    } else {
        base + other
    }
}

/// Joins two paths, as `Path::join` does on Unix.
pub fn path_join(base: &str, other: &str) -> (r: String)
    ensures
        r@ == path_join_spec(base@, other@),
{
    let m = other.unicode_len();
    if m > 0 && other.get_char(0) == '/' {
        return String::from_str(other);
    }
    let n = base.unicode_len();
    let mut r = String::from_str(base);
    if n > 0 && base.get_char(n - 1) != '/' {
        proof {
            reveal_strlit("/");
        }
        r.append("/");
    }
    r.append(other);
    r
}

/// A piece between separators that names a component of its own: not
/// empty and not the current directory `.`.
pub open spec fn is_named_piece(p: Seq<char>) -> bool {
    p.len() > 0 && p != seq!['.']
}

/// The pieces that name components, in order.
pub open spec fn named_pieces(ps: Seq<Seq<char>>) -> Seq<Seq<char>>
    decreases ps.len(),
{
    if ps.len() == 0 {
        Seq::<Seq<char>>::empty()
    } else if is_named_piece(ps.last()) {
        named_pieces(ps.drop_last()).push(ps.last())
    } else {
        named_pieces(ps.drop_last())
    }
}

/// The components of a path as `Path::components` yields them on Unix,
/// each written as text: the root as `/`, a leading current directory as
/// `.`, then every non-empty piece other than `.`.
pub open spec fn path_components_spec(p: Seq<char>) -> Seq<Seq<char>> {
    path_head_spec(p) + named_pieces(split_spec(p, '/'))
}

/// The leading component of a path that is not a named piece: the root
/// `/` of an absolute path, or the `.` that a relative path starts with.
pub open spec fn path_head_spec(p: Seq<char>) -> Seq<Seq<char>> {
    if p.len() > 0 && p[0] == '/' {
        seq![seq!['/']]
    } else if split_spec(p, '/')[0] == seq!['.'] {
        seq![seq!['.']]
    } else {
        Seq::<Seq<char>>::empty()
    }
}

/// Two paths are equal as `PathBuf`'s `==` decides: component by component.
pub open spec fn same_path(a: Seq<char>, b: Seq<char>) -> bool {
    path_components_spec(a) == path_components_spec(b)
}

/// The components of `p`, as `Path::components` yields them on Unix.
pub fn path_components(p: &str) -> (r: Vec<String>)
    ensures
        views(r@) == path_components_spec(p@),
{
    let pieces = split_char(p, '/');
    proof {
        lemma_split_nonempty(p@, '/');
        reveal_strlit("/");
        reveal_strlit(".");
        assert("/"@ =~= seq!['/']);
        assert("."@ =~= seq!['.']);
    }
    let mut r: Vec<String> = Vec::new();
    let n = p.unicode_len();
    assert(views(pieces@)[0] == pieces@[0]@);
    if n > 0 && p.get_char(0) == '/' {
        r.push(String::from_str("/"));
        assert(views(r@)[0] == r@[0]@);
        assert(views(r@) =~= path_head_spec(p@));
    } else if str_eq(pieces[0].as_str(), ".") {
        r.push(String::from_str("."));
        assert(views(r@)[0] == r@[0]@);
        assert(views(r@) =~= path_head_spec(p@));
    } else {
        assert(views(r@) =~= path_head_spec(p@));
    }
    let ghost head = views(r@);
    let mut i: usize = 0;
    assert(pieces@.take(0) =~= Seq::<String>::empty());
    assert(views(pieces@.take(0)) =~= Seq::<Seq<char>>::empty());
    assert(views(r@) =~= head + named_pieces(views(pieces@.take(0))));
    while i < pieces.len()
        invariant
            i <= pieces@.len(),
            views(pieces@) == split_spec(p@, '/'),
            views(r@) == head + named_pieces(views(pieces@.take(i as int))),
            "."@ == seq!['.'],
        decreases pieces@.len() - i,
    {
        let piece = &pieces[i];
        let ghost before = views(r@);
        proof {
            assert(views(pieces@.take(i + 1)).drop_last() =~= views(pieces@.take(i as int)));
            assert(views(pieces@.take(i + 1)).last() == piece@);
        }
        if piece.as_str().unicode_len() > 0 && !str_eq(piece.as_str(), ".") {
            r.push(piece.clone());
            assert(is_named_piece(piece@));
            assert(named_pieces(views(pieces@.take(i + 1))) == named_pieces(
                views(pieces@.take(i as int)),
            ).push(piece@));
            assert(views(r@) =~= before.push(piece@));
            assert(views(r@) =~= head + named_pieces(views(pieces@.take(i + 1))));
        } else {
            assert(!is_named_piece(piece@));
            assert(named_pieces(views(pieces@.take(i + 1))) == named_pieces(
                views(pieces@.take(i as int)),
            ));
        }
        i = i + 1;
    }
    assert(pieces@.take(pieces@.len() as int) =~= pieces@);
    r
}

/// Whether two paths are equal component by component, as `==` on
/// `PathBuf` decides.
pub fn path_eq(a: &str, b: &str) -> (r: bool)
    ensures
        r == same_path(a@, b@),
{
    let ca = path_components(a);
    let cb = path_components(b);
    if ca.len() != cb.len() {
        assert(views(ca@).len() != views(cb@).len());
        return false;
    }
    let mut i: usize = 0;
    while i < ca.len()
        invariant
            ca@.len() == cb@.len(),
            i <= ca@.len(),
            views(ca@) == path_components_spec(a@),
            views(cb@) == path_components_spec(b@),
            forall|j: int| 0 <= j < i ==> ca@[j]@ == cb@[j]@,
        decreases ca@.len() - i,
    {
        if ca[i] != cb[i] {
            assert(views(ca@)[i as int] != views(cb@)[i as int]);
            return false;
        }
        i = i + 1;
    }
    assert(views(ca@) =~= views(cb@));
    true
}

} // verus!
