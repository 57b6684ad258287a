use vstd::prelude::*;

use crate::accessor::{is_not_exist, Accessor, CallCounts, ReadRequest};
use crate::error::{Error, Kind};
use crate::object::Metadata;
use crate::ops::{read_window, OpRead, OpWrite};

verus! {

/// A single-use declaration of one bounded read of a path. Making one does
/// no I/O; consuming it issues exactly one read request.
pub struct Reader {
    path: String,
    offset: Option<u64>,
    size: Option<u64>,
}

impl View for Reader {
    /// The path, the offset and the size that the read is bounded by.
    type V = (Seq<char>, Option<u64>, Option<u64>);

    closed spec fn view(&self) -> (Seq<char>, Option<u64>, Option<u64>) {
        (self.path@, self.offset, self.size)
    }
}

impl Reader {
    pub fn new(path: &str, offset: Option<u64>, size: Option<u64>) -> (r: Reader)
        ensures
            r@ == (path@, offset, size),
    {
        Reader { path: path.to_owned(), offset, size }
    }

    /// Reads every byte that the bounds select, with one read request.
    pub fn read_to_end<A: Accessor>(self, acc: &mut A) -> (r: Result<Vec<u8>, Error>)
        ensures
            final(acc).objects() == old(acc).objects(),
            final(acc).calls() == (CallCounts {
                reads: old(acc).calls().reads.push(self@),
                ..old(acc).calls()
            }),
            final(acc).reliable() == old(acc).reliable(),
            !old(acc).objects().contains_key(self@.0) ==> is_not_exist(r),
            old(acc).reliable() && old(acc).objects().contains_key(self@.0) && read_window(
                old(acc).objects()[self@.0],
                self@.1,
                self@.2,
            ) is Some ==> r is Ok,
            r is Ok ==> {
                &&& old(acc).objects().contains_key(self@.0)
                &&& read_window(old(acc).objects()[self@.0], self@.1, self@.2) == Some(r->Ok_0@)
            },
    {
        let op = OpRead::new(self.path.as_str(), self.offset, self.size);
        acc.read(&op)
    }
}

/// A declaration of one whole-object write of a path.
pub struct Writer {
    path: String,
}

impl View for Writer {
    type V = Seq<char>;

    closed spec fn view(&self) -> Seq<char> {
        self.path@
    }
}

impl Writer {
    pub fn new(path: &str) -> (r: Writer)
        ensures
            r@ == path@,
    {
        Writer { path: path.to_owned() }
    }

    /// Replaces the object with `bs`, with one write request.
    pub fn write_bytes<A: Accessor>(self, acc: &mut A, bs: &Vec<u8>) -> (r: Result<usize, Error>)
        ensures
            final(acc).calls() == (CallCounts { write: old(acc).calls().write + 1, ..old(acc).calls() }),
            final(acc).reliable() == old(acc).reliable(),
            old(acc).reliable() ==> r is Ok,
            r is Ok ==> {
                &&& r->Ok_0 == bs@.len()
                &&& final(acc).objects() == old(acc).objects().insert(self@, bs@)
            },
            r is Err ==> final(acc).objects() == old(acc).objects(),
    {
        let op = OpWrite::new(self.path.as_str(), bs.len() as u64);
        acc.write(&op, bs)
    }
}

/// The abstract state of a `SeekableReader`.
pub struct SeekView {
    pub path: Seq<char>,
    /// The object's length, as learnt before the reader was made.
    pub total: u64,
    /// Where the next read starts.
    pub pos: u64,
    /// While a ranged read is open: where it started, and the bytes from
    /// there to `total` that it returned.
    pub opened: Option<(u64, Seq<u8>)>,
}

/// Where the open read of `v` started.
pub open spec fn open_start(v: SeekView) -> int {
    match v.opened {
        Some((start, _)) => start as int,
        None => 0,
    }
}

/// The bytes that the open read of `v` returned.
pub open spec fn open_bytes(v: SeekView) -> Seq<u8> {
    match v.opened {
        Some((_, bytes)) => bytes,
        None => Seq::empty(),
    }
}

/// The state after a seek to `offset`: nothing is open.
pub open spec fn after_seek(v: SeekView, offset: u64) -> SeekView {
    SeekView { pos: offset, opened: None, ..v }
}

/// The read request that a `read` in state `v` issues: one from the position
/// to the end, when no read is open and the position is before the end.
pub open spec fn open_request(v: SeekView) -> Option<ReadRequest> {
    if v.pos < v.total && v.opened is None {
        Some((v.path, Some(v.pos), Some((v.total - v.pos) as u64)))
    } else {
        None
    }
}

pub open spec fn requests_of(q: Option<ReadRequest>) -> Seq<ReadRequest> {
    match q {
        Some(x) => seq![x],
        None => Seq::empty(),
    }
}

/// How many bytes a `read` of at most `n` bytes in state `v` hands out.
pub open spec fn take_len(v: SeekView, n: usize) -> int {
    if v.pos >= v.total {
        0
    } else if n <= v.total - v.pos {
        n as int
    } else {
        v.total - v.pos
    }
}

/// A seek to `a`, a read, a seek to `b` and a read, with `a` and `b` before
/// the end, issue exactly two read requests: the first from `a` to the end,
/// the second from `b` to the end. Nothing read before a seek is reused after
/// it. `w` is the state after the first read, which keeps the path and the
/// length.
pub proof fn lemma_seek_read_requests(v: SeekView, w: SeekView, a: u64, b: u64)
    requires
        a < v.total,
        b < w.total,
        w.path == v.path,
        w.total == v.total,
    ensures
        requests_of(open_request(after_seek(v, a))) + requests_of(open_request(after_seek(w, b)))
            == seq![
            (v.path, Some(a), Some((v.total - a) as u64)),
            (v.path, Some(b), Some((v.total - b) as u64)),
        ],
{
    assert(requests_of(open_request(after_seek(v, a))) + requests_of(open_request(after_seek(w, b)))
        =~= seq![
        (v.path, Some(a), Some((v.total - a) as u64)),
        (v.path, Some(b), Some((v.total - b) as u64)),
    ]);
}

/// Seeking over a backend whose reads only go forward: a read opens one
/// ranged read from the current position to the end, and a seek drops it.
pub struct SeekableReader {
    path: String,
    total: u64,
    pos: u64,
    /// The bytes `[start, total)` of the open read.
    open: Option<Vec<u8>>,
    start: u64,
    consumed: usize,
}

impl View for SeekableReader {
    type V = SeekView;

    closed spec fn view(&self) -> SeekView {
        SeekView {
            path: self.path@,
            total: self.total,
            pos: self.pos,
            opened: match self.open {
                Some(d) => Some((self.start, d@)),
                None => None,
            },
        }
    }
}

impl SeekableReader {
    /// The open read holds the bytes `[start, total)`, of which the first
    /// `consumed` have been handed out.
    pub closed spec fn wf(&self) -> bool {
        match self.open {
            None => true,
            Some(d) => {
                &&& self.start <= self.total
                &&& d@.len() == self.total - self.start
                &&& self.consumed <= d@.len()
                &&& self.pos == self.start + self.consumed
            },
        }
    }

    pub fn new(path: &str, total: u64) -> (r: SeekableReader)
        ensures
            r.wf(),
            r@ == (SeekView { path: path@, total, pos: 0, opened: None }),
    {
        SeekableReader { path: path.to_owned(), total, pos: 0, open: None, start: 0, consumed: 0 }
    }

    /// A reader of the object that `meta` describes, whose length it gives.
    pub fn from_metadata(meta: &Metadata) -> (r: SeekableReader)
        requires
            meta@.complete,
        ensures
            r.wf(),
            r@ == (SeekView {
                path: meta@.path,
                total: meta@.content_length->0,
                pos: 0,
                opened: None,
            }),
    {
        SeekableReader::new(meta.path(), meta.content_length())
    }

    /// Moves to `offset` without any I/O, dropping the open read.
    pub fn seek(&mut self, offset: u64)
        requires
            old(self).wf(),
        ensures
            final(self).wf(),
            final(self)@ == after_seek(old(self)@, offset),
    {
        self.open = None;
        self.start = 0;
        self.consumed = 0;
        self.pos = offset;
    }

    /// Hands out up to `n` bytes of the open read.
    fn serve(&mut self, n: usize) -> (r: Vec<u8>)
        requires
            old(self).wf(),
            old(self)@.opened is Some,
            old(self)@.pos < old(self)@.total,
        ensures
            final(self).wf(),
            final(self)@ == (SeekView { pos: (old(self)@.pos + take_len(old(self)@, n)) as u64, ..old(self)@ }),
            r@ == open_bytes(old(self)@).subrange(
                old(self)@.pos - open_start(old(self)@),
                old(self)@.pos - open_start(old(self)@) + take_len(old(self)@, n),
            ),
    {
        let d = self.open.as_ref().unwrap();
        let c: usize = self.consumed;
        let avail = d.len() - c;
        let k: usize = if n <= avail { n } else { avail };
        let mut out: Vec<u8> = Vec::new();
        let mut i: usize = 0;
        while i < k
            invariant
                0 <= i <= k,
                c + k <= d.len(),
                out@ == d@.subrange(c as int, c + i),
            decreases k - i,
        {
            out.push(d[c + i]);
            i = i + 1;
        }
        self.consumed = self.consumed + k;
        self.pos = self.pos + k as u64;
        out
    }

    /// Takes in the answer to the read that was opened from the position to
    /// the end, and hands out up to `n` of its bytes. A failure is returned
    /// unchanged; an answer of the wrong length is refused. Either way the
    /// state is left as it was.
    pub fn on_opened(&mut self, got: Result<Vec<u8>, Error>, n: usize) -> (r: Result<Vec<u8>, Error>)
        requires
            old(self).wf(),
            old(self)@.opened is None,
            old(self)@.pos < old(self)@.total,
        ensures
            final(self).wf(),
            match got {
                Err(e) => r == Err::<Vec<u8>, Error>(e) && final(self)@ == old(self)@,
                Ok(d) => if d@.len() == old(self)@.total - old(self)@.pos {
                    &&& r is Ok
                    &&& r->Ok_0@ == d@.subrange(0, take_len(old(self)@, n))
                    &&& final(self)@ == (SeekView {
                        pos: (old(self)@.pos + take_len(old(self)@, n)) as u64,
                        opened: Some((old(self)@.pos, d@)),
                        ..old(self)@
                    })
                } else {
                    r is Err && r->Err_0.spec_kind() == Kind::Unexpected && final(self)@ == old(self)@
                },
            },
    {
        match got {
            Err(e) => Err(e),
            Ok(d) => {
                if d.len() as u64 != self.total - self.pos {
                    return Err(Error::Unexpected(self.path.clone()));
                }
                self.open = Some(d);
                self.start = self.pos;
                self.consumed = 0;
                Ok(self.serve(n))
            },
        }
    }

    /// Reads up to `n` bytes from the current position. At or past the end it
    /// yields no bytes and issues no request; otherwise a read is opened from
    /// the position to the end if none is open.
    pub fn read<A: Accessor>(&mut self, acc: &mut A, n: usize) -> (r: Result<Vec<u8>, Error>)
        requires
            old(self).wf(),
        ensures
            final(self).wf(),
            final(self)@.path == old(self)@.path,
            final(self)@.total == old(self)@.total,
            final(acc).objects() == old(acc).objects(),
            final(acc).reliable() == old(acc).reliable(),
            final(acc).calls() == (CallCounts {
                reads: old(acc).calls().reads + requests_of(open_request(old(self)@)),
                ..old(acc).calls()
            }),
            old(self)@.pos >= old(self)@.total ==> {
                &&& *final(acc) == *old(acc)
                &&& final(self)@ == old(self)@
                &&& r is Ok && r->Ok_0@.len() == 0
            },
            old(self)@.pos < old(self)@.total && old(self)@.opened is Some ==> {
                &&& *final(acc) == *old(acc)
                &&& r is Ok
                &&& final(self)@.opened == old(self)@.opened
            },
            old(self)@.pos < old(self)@.total && old(self)@.opened is None ==> {
                &&& !old(acc).objects().contains_key(old(self)@.path) ==> is_not_exist(r)
                &&& r is Err ==> final(self)@ == old(self)@
                &&& r is Ok ==> {
                    &&& old(acc).objects().contains_key(old(self)@.path)
                    &&& old(self)@.total <= old(acc).objects()[old(self)@.path].len()
                    &&& final(self)@.opened == Some(
                        (
                            old(self)@.pos,
                            old(acc).objects()[old(self)@.path].subrange(
                                old(self)@.pos as int,
                                old(self)@.total as int,
                            ),
                        ),
                    )
                }
                &&& old(acc).reliable() && old(acc).objects().contains_key(old(self)@.path)
                    && old(self)@.total <= old(acc).objects()[old(self)@.path].len() ==> r is Ok
            },
            r is Ok && old(self)@.pos < old(self)@.total ==> {
                let len = take_len(old(self)@, n);
                let start = open_start(final(self)@);
                &&& final(self)@.pos == old(self)@.pos + len
                &&& r->Ok_0@ == open_bytes(final(self)@).subrange(
                    old(self)@.pos - start,
                    old(self)@.pos - start + len,
                )
            },
    {
        if self.pos >= self.total {
            assert(old(acc).calls().reads + requests_of(open_request(old(self)@)) =~= old(acc).calls().reads);
            return Ok(Vec::new());
        }
        if self.open.is_none() {
            let reader = Reader::new(self.path.as_str(), Some(self.pos), Some(self.total - self.pos));
            let got = reader.read_to_end(acc);
            assert(acc.calls().reads =~= old(acc).calls().reads + requests_of(
                open_request(old(self)@),
            ));
            return self.on_opened(got, n);
        }
        assert(old(acc).calls().reads + requests_of(open_request(old(self)@)) =~= old(acc).calls().reads);
        Ok(self.serve(n))
    }
}

} // verus!
