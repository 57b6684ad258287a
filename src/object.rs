use vstd::prelude::*;

use crate::accessor::{is_child, is_not_exist, Accessor, CallCounts};
use crate::error::{Error, Kind};
use crate::io::{Reader, Writer};
use crate::ops::{OpDelete, OpList, OpStat};

verus! {

/// What can be done with an object.
#[derive(Clone, Copy, Debug, PartialEq, Eq, Structural)]
pub enum ObjectMode {
    /// The object has data to read.
    FILE,
    /// The object can be listed.
    DIR,
    /// Nothing is known of what can be done with the object.
    Unknown,
}

impl Default for ObjectMode {
    fn default() -> (r: Self)
        ensures
            r == ObjectMode::Unknown,
    {
        ObjectMode::Unknown
    }
}

impl ObjectMode {
    /// The lower-case name of the mode: `file`, `dir` or `unknown`.
    pub fn to_str(&self) -> (r: &'static str)
        ensures
            *self == ObjectMode::FILE ==> r@ == "file"@,
            *self == ObjectMode::DIR ==> r@ == "dir"@,
            *self == ObjectMode::Unknown ==> r@ == "unknown"@,
    {
        match self {
            ObjectMode::FILE => {
                proof {
                    reveal_strlit("file");
                }
                "file"
            },
            ObjectMode::DIR => {
                proof {
                    reveal_strlit("dir");
                }
                "dir"
            },
            ObjectMode::Unknown => {
                proof {
                    reveal_strlit("unknown");
                }
                "unknown"
            },
        }
    }
}

/// The abstract content of a `Metadata`.
pub struct MetadataView {
    pub complete: bool,
    pub path: Seq<char>,
    pub mode: Option<ObjectMode>,
    pub content_length: Option<u64>,
}

/// The attributes of an object. `mode` and `content_length` are known once
/// the metadata is complete.
#[derive(Debug)]
pub struct Metadata {
    complete: bool,
    path: String,
    mode: Option<ObjectMode>,
    content_length: Option<u64>,
}

impl View for Metadata {
    type V = MetadataView;

    closed spec fn view(&self) -> MetadataView {
        MetadataView {
            complete: self.complete,
            path: self.path@,
            mode: self.mode,
            content_length: self.content_length,
        }
    }
}

impl Default for Metadata {
    /// Incomplete metadata of the empty path.
    fn default() -> (r: Metadata)
        ensures
            r@ == (MetadataView {
                complete: false,
                path: Seq::empty(),
                mode: None,
                content_length: None,
            }),
    {
        Metadata { complete: false, path: String::new(), mode: None, content_length: None }
    }
}

impl Clone for Metadata {
    fn clone(&self) -> (r: Self)
        ensures
            r@ == self@,
    {
        proof {
            use_type_invariant(self);
        }
        Metadata {
            complete: self.complete,
            path: self.path.clone(),
            mode: self.mode,
            content_length: self.content_length,
        }
    }
}

impl Metadata {
    #[verifier::type_invariant]
    spec fn inv(self) -> bool {
        self.complete ==> self.mode is Some && self.content_length is Some
    }

    /// Incomplete metadata of `path`.
    pub fn new(path: &str) -> (r: Metadata)
        ensures
            r@ == (MetadataView { complete: false, path: path@, mode: None, content_length: None }),
    {
        Metadata { complete: false, path: path.to_owned(), mode: None, content_length: None }
    }

    /// The object's path, relative to the backend's root.
    pub fn path(&self) -> (r: &str)
        ensures
            r@ == self@.path,
    {
        self.path.as_str()
    }

    pub fn set_path(&mut self, path: &str) -> (r: &mut Self)
        ensures
            r@ == (MetadataView { path: path@, ..old(self)@ }),
            final(self)@ == final(r)@,
    {
        proof {
            use_type_invariant(&*self);
        }
        self.path = path.to_owned();
        self
    }

    pub fn complete(&self) -> (r: bool)
        ensures
            r == self@.complete,
    {
        self.complete
    }

    /// Marks the metadata complete; the mode and the length must be set.
    pub fn set_complete(&mut self) -> (r: &mut Self)
        requires
            old(self)@.mode is Some,
            old(self)@.content_length is Some,
        ensures
            r@ == (MetadataView { complete: true, ..old(self)@ }),
            final(self)@ == final(r)@,
    {
        proof {
            use_type_invariant(&*self);
        }
        self.complete = true;
        self
    }

    pub fn mode(&self) -> (r: ObjectMode)
        requires
            self@.complete,
        ensures
            self@.mode == Some(r),
    {
        proof {
            use_type_invariant(self);
        }
        match self.mode {
            Some(m) => m,
            None => ObjectMode::Unknown,
        }
    }

    pub fn set_mode(&mut self, mode: ObjectMode) -> (r: &mut Self)
        ensures
            r@ == (MetadataView { mode: Some(mode), ..old(self)@ }),
            final(self)@ == final(r)@,
    {
        proof {
            use_type_invariant(&*self);
        }
        self.mode = Some(mode);
        self
    }

    pub fn content_length(&self) -> (r: u64)
        requires
            self@.complete,
        ensures
            self@.content_length == Some(r),
    {
        proof {
            use_type_invariant(self);
        }
        match self.content_length {
            Some(n) => n,
            None => 0,
        }
    }

    pub fn set_content_length(&mut self, content_length: u64) -> (r: &mut Self)
        ensures
            r@ == (MetadataView { content_length: Some(content_length), ..old(self)@ }),
            final(self)@ == final(r)@,
    {
        proof {
            use_type_invariant(&*self);
        }
        self.content_length = Some(content_length);
        self
    }
}

/// The stat requests that `metadata_cached` issues on a handle whose cache is `m`.
pub open spec fn cached_stat_cost(m: MetadataView) -> nat {
    if m.complete {
        0
    } else {
        1
    }
}

/// Two calls of `metadata_cached` on a handle with an incomplete cache, the
/// first of which succeeds and so leaves the cache complete, issue exactly one
/// stat request between them.
pub proof fn lemma_cached_stat_once(first: MetadataView, second: MetadataView)
    requires
        !first.complete,
        second.complete,
    ensures
        cached_stat_cost(first) + cached_stat_cost(second) == 1,
{
}

/// A handle on one path. The backend that the path is resolved against is
/// handed to each operation that reaches it; the handle keeps its own cache
/// of the object's metadata.
#[derive(Debug)]
pub struct Object {
    meta: Metadata,
}

impl View for Object {
    type V = MetadataView;

    /// The metadata cached on this handle.
    closed spec fn view(&self) -> MetadataView {
        self.meta@
    }
}

impl Clone for Object {
    /// A handle on the same path with a copy of the cache, which from then on
    /// is kept apart from this one's.
    fn clone(&self) -> (r: Self)
        ensures
            r@ == self@,
    {
        Object { meta: self.meta.clone() }
    }
}

impl Object {
    pub fn new(path: &str) -> (r: Object)
        ensures
            r@ == (MetadataView { complete: false, path: path@, mode: None, content_length: None }),
    {
        Object { meta: Metadata::new(path) }
    }

    pub fn path(&self) -> (r: &str)
        ensures
            r@ == self@.path,
    {
        self.meta.path()
    }

    /// A reader of the whole object.
    pub fn reader(&self) -> (r: Reader)
        ensures
            r@ == (self@.path, None::<u64>, None::<u64>),
    {
        Reader::new(self.meta.path(), None, None)
    }

    /// A reader of the bytes `[offset, offset + size)`.
    pub fn range_reader(&self, offset: u64, size: u64) -> (r: Reader)
        ensures
            r@ == (self@.path, Some(offset), Some(size)),
    {
        Reader::new(self.meta.path(), Some(offset), Some(size))
    }

    /// A reader of the bytes from `offset` to the end.
    pub fn offset_reader(&self, offset: u64) -> (r: Reader)
        ensures
            r@ == (self@.path, Some(offset), None::<u64>),
    {
        Reader::new(self.meta.path(), Some(offset), None)
    }

    /// A reader of at most the first `size` bytes.
    pub fn limited_reader(&self, size: u64) -> (r: Reader)
        ensures
            r@ == (self@.path, None::<u64>, Some(size)),
    {
        Reader::new(self.meta.path(), None, Some(size))
    }

    /// A writer that replaces the whole object.
    pub fn writer(&self) -> (r: Writer)
        ensures
            r@ == self@.path,
    {
        Writer::new(self.meta.path())
    }

    /// Deletes the object; deleting a missing object succeeds.
    pub fn delete<A: Accessor>(&self, acc: &mut A) -> (r: Result<(), Error>)
        ensures
            final(acc).calls() == (CallCounts { delete: old(acc).calls().delete + 1, ..old(acc).calls() }),
            final(acc).reliable() == old(acc).reliable(),
            old(acc).reliable() ==> r is Ok,
            !old(acc).objects().contains_key(self@.path) ==> r is Ok,
            r is Ok ==> final(acc).objects() == old(acc).objects().remove(self@.path),
            r is Err ==> final(acc).objects() == old(acc).objects(),
    {
        let op = OpDelete::new(self.meta.path());
        acc.delete(&op)
    }

    /// Fetches fresh metadata, with one stat request.
    pub fn metadata<A: Accessor>(&self, acc: &mut A) -> (r: Result<Metadata, Error>)
        ensures
            final(acc).objects() == old(acc).objects(),
            final(acc).calls() == (CallCounts { stat: old(acc).calls().stat + 1, ..old(acc).calls() }),
            final(acc).reliable() == old(acc).reliable(),
            !old(acc).objects().contains_key(self@.path) ==> is_not_exist(r),
            old(acc).reliable() && old(acc).objects().contains_key(self@.path) ==> r is Ok,
            r is Ok ==> {
                &&& old(acc).objects().contains_key(self@.path)
                &&& r->Ok_0@.complete
                &&& r->Ok_0@.path == self@.path
                &&& r->Ok_0@.content_length == Some(old(acc).objects()[self@.path].len() as u64)
            },
    {
        let op = OpStat::new(self.meta.path());
        acc.stat(&op)
    }

    /// The metadata cached on this handle once it is complete; otherwise one
    /// stat request, whose result is cached on success.
    pub fn metadata_cached<A: Accessor>(&mut self, acc: &mut A) -> (r: Result<&Metadata, Error>)
        ensures
            final(self)@.path == old(self)@.path,
            final(acc).reliable() == old(acc).reliable(),
            final(acc).calls().stat == old(acc).calls().stat + cached_stat_cost(old(self)@),
            r is Ok ==> r->Ok_0@ == final(self)@ && final(self)@.complete,
            old(self)@.complete ==> {
                &&& *final(acc) == *old(acc)
                &&& final(self)@ == old(self)@
                &&& r is Ok
            },
            !old(self)@.complete ==> {
                &&& final(acc).objects() == old(acc).objects()
                &&& final(acc).calls() == (CallCounts { stat: old(acc).calls().stat + 1, ..old(acc).calls() })
                &&& !old(acc).objects().contains_key(old(self)@.path) ==> is_not_exist(r)
                &&& old(acc).reliable() && old(acc).objects().contains_key(old(self)@.path) ==> r is Ok
                &&& r is Err ==> final(self)@ == old(self)@
                &&& r is Ok ==> {
                    &&& old(acc).objects().contains_key(old(self)@.path)
                    &&& final(self)@.content_length == Some(
                        old(acc).objects()[old(self)@.path].len() as u64,
                    )
                }
            },
    {
        if self.meta.complete() {
            return Ok(&self.meta);
        }
        let op = OpStat::new(self.meta.path());
        let stat = acc.stat(&op);
        self.fill_cache(stat)
    }

    /// Takes in the answer to a stat request: metadata replaces the cache
    /// whole and is returned; a failure is returned unchanged and leaves the
    /// cache as it was.
    pub fn fill_cache(&mut self, stat: Result<Metadata, Error>) -> (r: Result<&Metadata, Error>)
        ensures
            match stat {
                Ok(m) => r is Ok && final(self)@ == m@ && r->Ok_0@ == m@,
                Err(e) => r == Err::<&Metadata, Error>(e) && final(self)@ == old(self)@,
            },
    {
        match stat {
            Ok(m) => {
                self.meta = m;
                Ok(&self.meta)
            },
            Err(e) => Err(e),
        }
    }

    /// The metadata cached on this handle, to be filled in by a backend.
    pub fn metadata_mut(&mut self) -> (r: &mut Metadata)
        ensures
            r@ == old(self)@,
            final(self)@ == final(r)@,
    {
        &mut self.meta
    }

    /// Whether the object exists: a stat that fails with `ObjectNotExist`
    /// is `false`; any other failure is passed on.
    pub fn is_exist<A: Accessor>(&self, acc: &mut A) -> (r: Result<bool, Error>)
        ensures
            final(acc).objects() == old(acc).objects(),
            final(acc).calls() == (CallCounts { stat: old(acc).calls().stat + 1, ..old(acc).calls() }),
            final(acc).reliable() == old(acc).reliable(),
            old(acc).reliable() ==> r == Ok::<bool, Error>(old(acc).objects().contains_key(self@.path)),
            !old(acc).objects().contains_key(self@.path) ==> r == Ok::<bool, Error>(false),
            r == Ok::<bool, Error>(true) ==> old(acc).objects().contains_key(self@.path),
            r is Err ==> r->Err_0.spec_kind() != Kind::ObjectNotExist,
    {
        let r = self.metadata(acc);
        exist_of(r)
    }
}

/// Whether a stat result shows the object to exist: success is `true`,
/// `ObjectNotExist` is `false`, and any other failure is returned unchanged.
pub fn exist_of(stat: Result<Metadata, Error>) -> (r: Result<bool, Error>)
    ensures
        match stat {
            Ok(_) => r == Ok::<bool, Error>(true),
            Err(e) => if e.spec_kind() == Kind::ObjectNotExist {
                r == Ok::<bool, Error>(false)
            } else {
                r == Err::<bool, Error>(e)
            },
        },
{
    match stat {
        Ok(_) => Ok(true),
        Err(err) => match err.kind() {
            Kind::ObjectNotExist => Ok(false),
            _ => Err(err),
        },
    }
}

/// The phase of a listing stream. Phases only move forward:
/// `Idle`, then `Listing` or, when the listing request fails, `Terminated`.
#[derive(Clone, Copy, Debug, PartialEq, Eq, Structural)]
pub enum ListPhase {
    /// No request has been issued.
    Idle,
    /// The listing arrived; its entries are handed out in order.
    Listing,
    /// The listing request failed and its error was handed out.
    Terminated,
}

/// The listing requests that a poll issues on a stream in phase `p`.
pub open spec fn list_cost(p: ListPhase) -> nat {
    if p == ListPhase::Idle {
        1
    } else {
        0
    }
}

/// The listing requests issued by polls made in the phases `phases`.
pub open spec fn total_list_cost(phases: Seq<ListPhase>) -> nat
    decreases phases.len(),
{
    if phases.len() == 0 {
        0
    } else {
        total_list_cost(phases.drop_last()) + list_cost(phases.last())
    }
}

/// A stream issues exactly one listing request however many times it is
/// polled: `phases` holds the phase of a new stream before each of its polls,
/// and after its first poll a stream is never idle again.
pub proof fn lemma_one_list_request(phases: Seq<ListPhase>)
    requires
        phases.len() > 0,
        phases[0] == ListPhase::Idle,
        forall|i: int| 0 < i < phases.len() ==> phases[i] != ListPhase::Idle,
    ensures
        total_list_cost(phases) == 1,
    decreases phases.len(),
{
    let rest = phases.drop_last();
    if phases.len() > 1 {
        assert forall|i: int| 0 < i < rest.len() implies rest[i] != ListPhase::Idle by {
            assert(rest[i] == phases[i]);
        }
        lemma_one_list_request(rest);
        assert(phases[phases.len() - 1] != ListPhase::Idle);
    } else {
        assert(total_list_cost(rest) == 0);
    }
    assert(total_list_cost(phases) == total_list_cost(rest) + list_cost(phases.last()));
}

enum State {
    Idle,
    Listing(Vec<Result<Object, Error>>),
    Terminated,
}

/// The abstract state of an `ObjectStream`.
pub struct StreamView {
    pub path: Seq<char>,
    pub phase: ListPhase,
    /// The entries not yet handed out.
    pub pending: Seq<Result<Object, Error>>,
}

/// A lazy, single-pass sequence of the entries under a path. Making one does
/// no I/O; the first poll issues the one listing request.
pub struct ObjectStream {
    path: String,
    state: State,
}

impl View for ObjectStream {
    type V = StreamView;

    closed spec fn view(&self) -> StreamView {
        StreamView {
            path: self.path@,
            phase: match self.state {
                State::Idle => ListPhase::Idle,
                State::Listing(_) => ListPhase::Listing,
                State::Terminated => ListPhase::Terminated,
            },
            pending: match self.state {
                State::Listing(v) => v@,
                _ => Seq::empty(),
            },
        }
    }
}

impl ObjectStream {
    pub fn new(path: &str) -> (r: ObjectStream)
        ensures
            r@ == (StreamView { path: path@, phase: ListPhase::Idle, pending: Seq::empty() }),
    {
        ObjectStream { path: path.to_owned(), state: State::Idle }
    }

    pub fn phase(&self) -> (r: ListPhase)
        ensures
            r == self@.phase,
    {
        match self.state {
            State::Idle => ListPhase::Idle,
            State::Listing(_) => ListPhase::Listing,
            State::Terminated => ListPhase::Terminated,
        }
    }

    /// Takes in the answer to the listing request of an idle stream and hands
    /// out the first item: the request's error, after which the stream is
    /// over, or the first entry, if any.
    pub fn on_list_result(&mut self, listed: Result<Vec<Result<Object, Error>>, Error>) -> (r: Option<
        Result<Object, Error>,
    >)
        requires
            old(self)@.phase == ListPhase::Idle,
        ensures
            final(self)@.path == old(self)@.path,
            match listed {
                Err(e) => {
                    &&& r == Some(Err::<Object, Error>(e))
                    &&& final(self)@.phase == ListPhase::Terminated
                },
                Ok(items) => {
                    &&& final(self)@.phase == ListPhase::Listing
                    &&& items@.len() == 0 ==> r is None && final(self)@.pending == items@
                    &&& items@.len() > 0 ==> r == Some(items@[0]) && final(self)@.pending
                        == items@.drop_first()
                },
            },
    {
        match listed {
            Err(e) => {
                self.state = State::Terminated;
                Some(Err(e))
            },
            Ok(items) => {
                self.state = State::Listing(items);
                self.next_pending()
            },
        }
    }

    /// Hands out the next entry of a stream in the listing phase.
    fn next_pending(&mut self) -> (r: Option<Result<Object, Error>>)
        requires
            old(self)@.phase == ListPhase::Listing,
        ensures
            final(self)@.path == old(self)@.path,
            final(self)@.phase == ListPhase::Listing,
            old(self)@.pending.len() == 0 ==> r is None && final(self)@.pending == old(self)@.pending,
            old(self)@.pending.len() > 0 ==> r == Some(old(self)@.pending[0]) && final(self)@.pending == old(self)@.pending.drop_first(),
    {
        match &mut self.state {
            State::Listing(items) => {
                if items.len() == 0 {
                    None
                } else {
                    Some(items.remove(0))
                }
            },
            _ => None,
        }
    }

    /// The next item. The first poll of an idle stream issues the one listing
    /// request; later polls hand out its entries and issue none.
    pub fn poll_next<A: Accessor>(&mut self, acc: &mut A) -> (r: Option<Result<Object, Error>>)
        ensures
            final(self)@.path == old(self)@.path,
            final(self)@.phase != ListPhase::Idle,
            final(acc).objects() == old(acc).objects(),
            final(acc).calls().list == old(acc).calls().list + list_cost(old(self)@.phase),
            final(acc).reliable() == old(acc).reliable(),
            old(self)@.phase == ListPhase::Idle && old(acc).reliable() ==> final(self)@.phase
                == ListPhase::Listing,
            old(self)@.phase == ListPhase::Idle ==> {
                &&& final(acc).calls() == (CallCounts { list: old(acc).calls().list + 1, ..old(acc).calls() })
                &&& final(self)@.phase == ListPhase::Terminated ==> r is Some && r->Some_0 is Err
                &&& forall|i: int|
                    0 <= i < final(self)@.pending.len() && (#[trigger] final(self)@.pending[i]) is Ok
                        ==> is_child(old(self)@.path, final(self)@.pending[i]->Ok_0@.path)
            },
            old(self)@.phase == ListPhase::Listing ==> {
                &&& *final(acc) == *old(acc)
                &&& final(self)@.phase == ListPhase::Listing
                &&& old(self)@.pending.len() == 0 ==> r is None && final(self)@.pending == old(self)@.pending
                &&& old(self)@.pending.len() > 0 ==> r == Some(old(self)@.pending[0]) && final(self)@.pending == old(self)@.pending.drop_first()
            },
            old(self)@.phase == ListPhase::Terminated ==> {
                &&& *final(acc) == *old(acc)
                &&& final(self)@ == old(self)@
                &&& r is None
            },
    {
        match self.state {
            State::Idle => {
                let op = OpList::new(self.path.as_str());
                let listed = acc.list(&op);
                self.on_list_result(listed)
            },
            State::Listing(_) => self.next_pending(),
            State::Terminated => None,
        }
    }
}

} // verus!
