//! Serving files below a directory: which file a request path names, and
//! what is answered for what opening it gave.

use vstd::prelude::*;
use crate::errors::{ErrorCode, HttpError, HttpResult};
use super::response::{Response, ResponseView};
use super::text::same_bytes;

verus! {

/// The status of a request for a file that lies outside the directory.
pub const FORBIDDEN: u16 = 403;

/// The status of a request that found its file.
pub const OK: u16 = 200;

/// The byte that separates the names of a path.
pub const SLASH: u8 = 47;

/// The byte of which the names `.` and `..` are made.
pub const DOT: u8 = 46;

/// The names of a path as plain values.
pub open spec fn names(path: Seq<Vec<u8>>) -> Seq<Seq<u8>> {
    Seq::new(path.len(), |i: int| path[i]@)
}

/// The names of a path, or none, as plain values.
pub open spec fn names_of(path: Option<Vec<Vec<u8>>>) -> Option<Seq<Seq<u8>>> {
    match path {
        Some(p) => Some(names(p@)),
        None => None,
    }
}

/// The pieces of a text between its slashes, in their order: one more than
/// it has slashes, some of them empty.
pub open spec fn pieces(text: Seq<u8>) -> Seq<Seq<u8>>
    decreases text.len(),
{
    if text.len() == 0 {
        seq![Seq::<u8>::empty()]
    } else {
        let before = pieces(text.drop_last());
        if text.last() == SLASH {
            before.push(Seq::<u8>::empty())
        } else {
            before.drop_last().push(before.last().push(text.last()))
        }
    }
}

/// Where one piece of a request path leads from a place: an empty piece
/// and `.` stay there, `..` goes one name up, or stays where no name is
/// left, and every other piece goes down into that name.
pub open spec fn step(at: Seq<Seq<u8>>, piece: Seq<u8>) -> Seq<Seq<u8>> {
    if piece.len() == 0 || piece == seq![DOT] {
        at
    } else if piece == seq![DOT, DOT] {
        if at.len() > 0 {
            at.drop_last()
        } else {
            at
        }
    } else {
        at.push(piece)
    }
}

/// Where the pieces of a request path lead from a place, one after the
/// other.
pub open spec fn walk(from: Seq<Seq<u8>>, pieces: Seq<Seq<u8>>) -> Seq<Seq<u8>>
    decreases pieces.len(),
{
    if pieces.len() == 0 {
        from
    } else {
        step(walk(from, pieces.drop_last()), pieces.last())
    }
}

/// Whether a place lies in a directory: its names begin with those of the
/// directory.
pub open spec fn inside(dir: Seq<Seq<u8>>, at: Seq<Seq<u8>>) -> bool {
    dir.len() <= at.len() && at.take(dir.len() as int) == dir
}

/// The file that a request path names below a directory: the place to
/// which its pieces lead from the directory, unless that place lies outside
/// the directory.
pub open spec fn resolved(dir: Seq<Seq<u8>>, tail: Seq<u8>) -> Option<Seq<Seq<u8>>> {
    let at = walk(dir, pieces(tail));
    if inside(dir, at) {
        Some(at)
    } else {
        None
    }
}

/// No request path leads out of the directory: a file that it names lies
/// in the directory.
pub proof fn law_resolved_lies_inside(dir: Seq<Seq<u8>>, tail: Seq<u8>)
    ensures
        resolved(dir, tail) matches Some(at) ==> inside(dir, at),
{
}

/// A text has at least one piece.
pub proof fn lemma_pieces_nonempty(text: Seq<u8>)
    ensures
        pieces(text).len() >= 1,
    decreases text.len(),
{
    if text.len() > 0 {
        lemma_pieces_nonempty(text.drop_last());
    }
}

/// A copy of a text.
pub fn copy_bytes(text: &Vec<u8>) -> (copy: Vec<u8>)
    ensures
        copy@ == text@,
{
    let mut copy: Vec<u8> = Vec::new();
    let mut i: usize = 0;
    while i < text.len()
        invariant
            i <= text@.len(),
            copy@ == text@.take(i as int),
        decreases text@.len() - i,
    {
        copy.push(text[i]);
        assert(copy@ =~= text@.take(i + 1));
        i = i + 1;
    }
    assert(text@.take(i as int) =~= text@);
    copy
}

/// Takes one piece of a request path from a place: see `step`.
pub fn take_step(at: &mut Vec<Vec<u8>>, piece: Vec<u8>)
    ensures
        names(final(at)@) == step(names(old(at)@), piece@),
{
    let n = piece.len();
    if n == 0 || (n == 1 && piece[0] == DOT) {
        assert(n == 1 ==> piece@ =~= seq![DOT]);
    } else if n == 2 && piece[0] == DOT && piece[1] == DOT {
        assert(piece@ =~= seq![DOT, DOT]);
        if at.len() > 0 {
            at.pop();
            assert(names(at@) =~= names(old(at)@).drop_last());
        }
    } else {
        assert(piece@ != seq![DOT]) by {
            if piece@ == seq![DOT] {
                assert(piece@.len() == 1);
                assert(piece@[0] == DOT);
            }
        }
        assert(piece@ != seq![DOT, DOT]) by {
            if piece@ == seq![DOT, DOT] {
                assert(piece@.len() == 2);
                assert(piece@[0] == DOT);
                assert(piece@[1] == DOT);
            }
        }
        at.push(piece);
        assert(names(at@) =~= names(old(at)@).push(piece@));
    }
}

/// Whether a place lies in a directory: see `inside`.
pub fn is_inside(dir: &Vec<Vec<u8>>, at: &Vec<Vec<u8>>) -> (yes: bool)
    ensures
        yes == inside(names(dir@), names(at@)),
{
    if dir.len() > at.len() {
        return false;
    }
    let mut i: usize = 0;
    while i < dir.len()
        invariant
            i <= dir@.len(),
            dir@.len() <= at@.len(),
            forall|k: int| 0 <= k < i ==> (#[trigger] dir@[k])@ == at@[k]@,
        decreases dir@.len() - i,
    {
        if !same_bytes(dir[i].as_slice(), at[i].as_slice()) {
            assert(names(at@).take(dir@.len() as int)[i as int] != names(dir@)[i as int]);
            return false;
        }
        i = i + 1;
    }
    assert(names(at@).take(dir@.len() as int) =~= names(dir@));
    true
}

/// A directory whose files are served, held by the names of its path.
pub struct ServeDir {
    pub dir: Vec<Vec<u8>>,
}

impl ServeDir {
    /// The directory with the given names.
    pub fn new(dir: Vec<Vec<u8>>) -> (served: Self)
        ensures
            served.dir == dir,
    {
        ServeDir { dir }
    }

    /// The file that a request path names below the directory, and nothing
    /// where the path leads out of the directory.
    pub fn resolve(&self, tail: &[u8]) -> (file: Option<Vec<Vec<u8>>>)
        ensures
            names_of(file) == resolved(names(self.dir@), tail@),
    {
        let ghost dir = names(self.dir@);
        let mut at: Vec<Vec<u8>> = Vec::new();
        let mut k: usize = 0;
        while k < self.dir.len()
            invariant
                k <= self.dir@.len(),
                dir == names(self.dir@),
                names(at@) == dir.take(k as int),
            decreases self.dir@.len() - k,
        {
            let ghost earlier = names(at@);
            at.push(copy_bytes(&self.dir[k]));
            assert(names(at@) =~= earlier.push(self.dir@[k as int]@));
            assert(dir.take(k + 1) =~= dir.take(k as int).push(dir[k as int]));
            k = k + 1;
        }
        assert(dir.take(k as int) =~= dir);
        let mut piece: Vec<u8> = Vec::new();
        let mut i: usize = 0;
        assert(tail@.take(0) =~= Seq::<u8>::empty());
        assert(pieces(tail@.take(0)).drop_last() =~= Seq::<Seq<u8>>::empty());
        while i < tail.len()
            invariant
                i <= tail@.len(),
                pieces(tail@.take(i as int)).len() >= 1,
                names(at@) == walk(dir, pieces(tail@.take(i as int)).drop_last()),
                piece@ == pieces(tail@.take(i as int)).last(),
            decreases tail@.len() - i,
        {
            let ghost before = pieces(tail@.take(i as int));
            proof {
                assert(tail@.take(i + 1).drop_last() =~= tail@.take(i as int));
                assert(tail@.take(i + 1).last() == tail@[i as int]);
                lemma_pieces_nonempty(tail@.take(i + 1));
            }
            let b = tail[i];
            if b == SLASH {
                take_step(&mut at, piece);
                piece = Vec::new();
                proof {
                    let after = before.push(Seq::<u8>::empty());
                    assert(pieces(tail@.take(i + 1)) == after);
                    assert(after.drop_last() =~= before);
                    assert(before.drop_last().push(before.last()) =~= before);
                }
            } else {
                piece.push(b);
                proof {
                    let after = before.drop_last().push(before.last().push(b));
                    assert(pieces(tail@.take(i + 1)) == after);
                    assert(after.drop_last() =~= before.drop_last());
                }
            }
            i = i + 1;
        }
        proof {
            assert(tail@.take(i as int) =~= tail@);
            let all = pieces(tail@);
            assert(all.drop_last().push(all.last()) =~= all);
        }
        take_step(&mut at, piece);
        if is_inside(&self.dir, &at) {
            Some(at)
        } else {
            None
        }
    }
}

/// What opening a file gave.
pub enum Opened {
    /// The file is there, with this content.
    Content(Vec<u8>),
    /// There is no such file.
    Missing,
    /// The file could not be read.
    Failed,
}

/// The answer to a request for a file, from the file that its path names
/// and what opening that file gave: a path out of the directory is
/// forbidden, whatever is there; a file that is there is the body of the
/// answer; one that is missing is not found; and one that cannot be read
/// is the failure `IOError`.
pub fn file_response(inside_dir: bool, opened: Opened) -> (out: HttpResult<Response>)
    ensures
        match out {
            Ok(response) => {
                if !inside_dir {
                    response@ == (ResponseView {
                        status: FORBIDDEN,
                        headers: Seq::empty(),
                        body: Seq::empty(),
                    })
                } else {
                    match opened {
                        Opened::Content(content) => response@ == (ResponseView {
                            status: OK,
                            headers: Seq::empty(),
                            body: content@,
                        }),
                        Opened::Missing => response@ == (ResponseView {
                            status: 404,
                            headers: Seq::empty(),
                            body: Seq::empty(),
                        }),
                        Opened::Failed => false,
                    }
                }
            },
            Err(e) => inside_dir && opened is Failed && e.code == ErrorCode::IOError,
        },
{
    if !inside_dir {
        return Ok(Response::new(FORBIDDEN));
    }
    match opened {
        Opened::Content(content) => {
            let mut response = Response::new(OK);
            response.set_body(content);
            Ok(response)
        },
        Opened::Missing => Ok(Response::new(404)),
        Opened::Failed => Err(HttpError::new(ErrorCode::IOError, "read file")),
    }
}

} // verus!
