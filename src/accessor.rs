use vstd::prelude::*;

use crate::error::{Error, Kind};
use crate::object::{Metadata, Object};
use crate::ops::{read_window, OpDelete, OpList, OpRead, OpStat, OpWrite};

verus! {

/// The bounds of one read request: the path, the offset and the size.
pub type ReadRequest = (Seq<char>, Option<u64>, Option<u64>);

/// The requests a backend has served: every read request in order, and how
/// many requests of each other kind.
pub struct CallCounts {
    pub reads: Seq<ReadRequest>,
    pub write: nat,
    pub stat: nat,
    pub delete: nat,
    pub list: nat,
}

/// `p` names an entry below the directory path `dir`.
pub open spec fn is_under(dir: Seq<char>, p: Seq<char>) -> bool {
    &&& dir.len() < p.len()
    &&& p.subrange(0, dir.len() as int) == dir
}

/// `p` names an entry directly under `dir`: below it, with no `/` in the rest
/// of the path but for a trailing one.
pub open spec fn is_child(dir: Seq<char>, p: Seq<char>) -> bool {
    &&& is_under(dir, p)
    &&& forall|i: int| dir.len() <= i < p.len() - 1 ==> p[i] != '/'
}

/// The failure that a backend reports for a missing path.
pub open spec fn is_not_exist<T>(r: Result<T, Error>) -> bool {
    r is Err && r->Err_0.spec_kind() == Kind::ObjectNotExist
}

/// The capability set that every storage backend implements.
///
/// A backend is modelled by the objects it holds, keyed by path, and by the
/// number of requests it has served. A backend may fail any request for its
/// own reasons (a transport error), but never reports a result that
/// contradicts the objects it holds.
pub trait Accessor {
    /// The objects held, by path.
    spec fn objects(&self) -> Map<Seq<char>, Seq<u8>>;

    /// The requests served so far.
    spec fn calls(&self) -> CallCounts;

    /// The backend fails no request for reasons of its own: every request
    /// that the objects held allow succeeds.
    spec fn reliable(&self) -> bool;

    /// Reads the bytes that `op` selects. A missing path is `ObjectNotExist`;
    /// bounds outside the object are a failure, never a shorter result.
    fn read(&mut self, op: &OpRead) -> (r: Result<Vec<u8>, Error>)
        ensures
            final(self).objects() == old(self).objects(),
            final(self).calls() == (CallCounts {
                reads: old(self).calls().reads.push((op.path@, op.offset, op.size)),
                ..old(self).calls()
            }),
            final(self).reliable() == old(self).reliable(),
            !old(self).objects().contains_key(op.path@) ==> is_not_exist(r),
            old(self).reliable() && old(self).objects().contains_key(op.path@) && read_window(
                old(self).objects()[op.path@],
                op.offset,
                op.size,
            ) is Some ==> r is Ok,
            r is Ok ==> {
                &&& old(self).objects().contains_key(op.path@)
                &&& read_window(old(self).objects()[op.path@], op.offset, op.size) == Some(r->Ok_0@)
            },
    ;

    /// Replaces the whole object at `op.path` with `data`.
    fn write(&mut self, op: &OpWrite, data: &Vec<u8>) -> (r: Result<usize, Error>)
        requires
            data@.len() == op.size,
        ensures
            final(self).calls() == (CallCounts { write: old(self).calls().write + 1, ..old(self).calls() }),
            final(self).reliable() == old(self).reliable(),
            old(self).reliable() ==> r is Ok,
            r is Ok ==> {
                &&& r->Ok_0 == op.size
                &&& final(self).objects() == old(self).objects().insert(op.path@, data@)
            },
            r is Err ==> final(self).objects() == old(self).objects(),
    ;

    /// Describes the object at `op.path`. A missing path is `ObjectNotExist`.
    fn stat(&mut self, op: &OpStat) -> (r: Result<Metadata, Error>)
        ensures
            final(self).objects() == old(self).objects(),
            final(self).calls() == (CallCounts { stat: old(self).calls().stat + 1, ..old(self).calls() }),
            final(self).reliable() == old(self).reliable(),
            !old(self).objects().contains_key(op.path@) ==> is_not_exist(r),
            old(self).reliable() && old(self).objects().contains_key(op.path@) ==> r is Ok,
            r is Ok ==> {
                &&& old(self).objects().contains_key(op.path@)
                &&& r->Ok_0@.complete
                &&& r->Ok_0@.path == op.path@
                &&& r->Ok_0@.content_length == Some(old(self).objects()[op.path@].len() as u64)
            },
    ;

    /// Removes the object at `op.path`. Removing a missing path succeeds.
    fn delete(&mut self, op: &OpDelete) -> (r: Result<(), Error>)
        ensures
            final(self).calls() == (CallCounts { delete: old(self).calls().delete + 1, ..old(self).calls() }),
            final(self).reliable() == old(self).reliable(),
            old(self).reliable() ==> r is Ok,
            !old(self).objects().contains_key(op.path@) ==> r is Ok,
            r is Ok ==> final(self).objects() == old(self).objects().remove(op.path@),
            r is Err ==> final(self).objects() == old(self).objects(),
    ;

    /// Lists the entries directly under `op.path`; each entry may fail on its own.
    fn list(&mut self, op: &OpList) -> (r: Result<Vec<Result<Object, Error>>, Error>)
        ensures
            final(self).objects() == old(self).objects(),
            final(self).calls() == (CallCounts { list: old(self).calls().list + 1, ..old(self).calls() }),
            final(self).reliable() == old(self).reliable(),
            old(self).reliable() ==> r is Ok,
            r is Ok ==> forall|i: int|
                0 <= i < r->Ok_0@.len() && (#[trigger] r->Ok_0@[i]) is Ok ==> {
                    &&& old(self).objects().contains_key(r->Ok_0@[i]->Ok_0@.path)
                    &&& is_child(op.path@, r->Ok_0@[i]->Ok_0@.path)
                },
    ;
}

} // verus!
