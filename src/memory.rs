use vstd::prelude::*;
use vstd::string::StrSliceExecFns;

use crate::accessor::{is_child, Accessor, CallCounts};
use crate::error::Error;
use crate::object::{Metadata, Object, ObjectMode};
use crate::ops::{read_window, resolve_window, OpDelete, OpList, OpRead, OpStat, OpWrite};

verus! {

/// The objects named by a list of `(path, bytes)` entries, where a later
/// entry of a path overrides an earlier one.
pub open spec fn map_of(s: Seq<(Seq<char>, Seq<u8>)>) -> Map<Seq<char>, Seq<u8>>
    decreases s.len(),
{
    if s.len() == 0 {
        Map::empty()
    } else {
        map_of(s.drop_last()).insert(s.last().0, s.last().1)
    }
}

proof fn lemma_absent(s: Seq<(Seq<char>, Seq<u8>)>, k: Seq<char>)
    requires
        forall|j: int| 0 <= j < s.len() ==> (#[trigger] s[j]).0 != k,
    ensures
        !map_of(s).contains_key(k),
    decreases s.len(),
{
    if s.len() > 0 {
        assert forall|j: int| 0 <= j < s.drop_last().len() implies (#[trigger] s.drop_last()[j]).0
            != k by {
            assert(s.drop_last()[j] == s[j]);
        }
        lemma_absent(s.drop_last(), k);
    }
}

proof fn lemma_present(s: Seq<(Seq<char>, Seq<u8>)>, i: int)
    requires
        0 <= i < s.len(),
        forall|j: int| i < j < s.len() ==> (#[trigger] s[j]).0 != s[i].0,
    ensures
        map_of(s).contains_key(s[i].0),
        map_of(s)[s[i].0] == s[i].1,
    decreases s.len(),
{
    if i < s.len() - 1 {
        let t = s.drop_last();
        assert forall|j: int| i < j < t.len() implies (#[trigger] t[j]).0 != t[i].0 by {
            assert(t[j] == s[j]);
        }
        lemma_present(t, i);
    }
}

proof fn lemma_holds(s: Seq<(Seq<char>, Seq<u8>)>, i: int)
    requires
        0 <= i < s.len(),
    ensures
        map_of(s).contains_key(s[i].0),
    decreases s.len(),
{
    if i < s.len() - 1 {
        lemma_holds(s.drop_last(), i);
    }
}

proof fn lemma_remove_entry(s: Seq<(Seq<char>, Seq<u8>)>, i: int, k: Seq<char>)
    requires
        0 <= i < s.len(),
        s[i].0 == k,
    ensures
        map_of(s.remove(i)).remove(k) == map_of(s).remove(k),
    decreases s.len(),
{
    let t = s.drop_last();
    if i == s.len() - 1 {
        assert(s.remove(i) == t);
        assert(map_of(t).insert(k, s.last().1).remove(k) =~= map_of(t).remove(k));
    } else {
        lemma_remove_entry(t, i, k);
        let l = s.last();
        assert(s.remove(i).drop_last() =~= t.remove(i));
        assert(s.remove(i).last() == l);
        assert(map_of(s.remove(i)) == map_of(t.remove(i)).insert(l.0, l.1));
        if l.0 == k {
            assert(map_of(t.remove(i)).insert(k, l.1).remove(k) =~= map_of(t.remove(i)).remove(k));
            assert(map_of(t).insert(k, l.1).remove(k) =~= map_of(t).remove(k));
        } else {
            assert(map_of(t.remove(i)).insert(l.0, l.1).remove(k) =~= map_of(t.remove(i)).remove(
                k,
            ).insert(l.0, l.1));
            assert(map_of(t).insert(l.0, l.1).remove(k) =~= map_of(t).remove(k).insert(l.0, l.1));
        }
    }
}

/// `prefix` is a prefix of `s`.
pub fn has_prefix(s: &str, prefix: &str) -> (r: bool)
    ensures
        r == (prefix@.len() <= s@.len() && s@.subrange(0, prefix@.len() as int) == prefix@),
{
    let n = prefix.unicode_len();
    let m = s.unicode_len();
    if n > m {
        return false;
    }
    let mut i: usize = 0;
    while i < n
        invariant
            n == prefix@.len(),
            m == s@.len(),
            n <= m,
            0 <= i <= n,
            forall|j: int| 0 <= j < i ==> s@[j] == prefix@[j],
        decreases n - i,
    {
        if s.get_char(i) != prefix.get_char(i) {
            assert(s@.subrange(0, n as int)[i as int] != prefix@[i as int]);
            return false;
        }
        i = i + 1;
    }
    assert(s@.subrange(0, n as int) =~= prefix@);
    true
}

/// Whether `p` names an entry directly under `dir`.
pub fn is_child_path(dir: &str, p: &str) -> (r: bool)
    ensures
        r == is_child(dir@, p@),
{
    let n = dir.unicode_len();
    let m = p.unicode_len();
    if m <= n || !has_prefix(p, dir) {
        return false;
    }
    let mut i: usize = n;
    while i < m - 1
        invariant
            n == dir@.len(),
            m == p@.len(),
            n < m,
            n <= i <= m - 1,
            forall|j: int| n <= j < i ==> p@[j] != '/',
        decreases m - 1 - i,
    {
        if p.get_char(i) == '/' {
            return false;
        }
        i = i + 1;
    }
    true
}

/// No entry after the `i`th names its path.
pub open spec fn is_last(s: Seq<(Seq<char>, Seq<u8>)>, i: int) -> bool {
    forall|j: int| i < j < s.len() ==> (#[trigger] s[j]).0 != s[i].0
}

proof fn lemma_last_index(s: Seq<(Seq<char>, Seq<u8>)>, k: Seq<char>)
    requires
        map_of(s).contains_key(k),
    ensures
        exists|j: int| 0 <= j < s.len() && (#[trigger] s[j]).0 == k && is_last(s, j),
    decreases s.len(),
{
    let t = s.drop_last();
    if s.last().0 != k {
        lemma_last_index(t, k);
        let j = choose|j: int| 0 <= j < t.len() && (#[trigger] t[j]).0 == k && is_last(t, j);
        assert(s[j] == t[j]);
        assert forall|m: int| j < m < s.len() implies (#[trigger] s[m]).0 != s[j].0 by {
            if m < t.len() {
                assert(s[m] == t[m]);
            }
        }
    } else {
        assert(s[s.len() - 1].0 == k);
        assert(is_last(s, s.len() - 1));
    }
}

/// A copy of the bytes `[a, b)` of `d`.
fn copy_range(d: &Vec<u8>, a: usize, b: usize) -> (r: Vec<u8>)
    requires
        a <= b <= d@.len(),
    ensures
        r@ == d@.subrange(a as int, b as int),
{
    let mut out: Vec<u8> = Vec::new();
    let mut i: usize = a;
    while i < b
        invariant
            a <= i <= b,
            b <= d@.len(),
            out@ == d@.subrange(a as int, i as int),
        decreases b - i,
    {
        out.push(d[i]);
        i = i + 1;
    }
    out
}

/// A backend that holds its objects in memory and counts the requests it serves.
pub struct MemoryBackend {
    entries: Vec<(String, Vec<u8>)>,
    counts: Ghost<CallCounts>,
    reads: u64,
    writes: u64,
    stats: u64,
    deletes: u64,
    lists: u64,
}

/// `n` saturated at the largest `u64`.
pub open spec fn saturated(n: nat) -> u64 {
    if n <= u64::MAX {
        n as u64
    } else {
        u64::MAX
    }
}

impl MemoryBackend {
    pub closed spec fn pairs(&self) -> Seq<(Seq<char>, Seq<u8>)> {
        self.entries@.map_values(|e: (String, Vec<u8>)| (e.0@, e.1@))
    }

    /// The request counters agree with the counts of the model.
    pub closed spec fn counted(&self) -> bool {
        &&& self.reads == saturated(self.counts@.reads.len())
        &&& self.writes == saturated(self.counts@.write)
        &&& self.stats == saturated(self.counts@.stat)
        &&& self.deletes == saturated(self.counts@.delete)
        &&& self.lists == saturated(self.counts@.list)
    }

    /// An empty backend that has served no request.
    pub fn new() -> (r: MemoryBackend)
        ensures
            r.objects() == Map::<Seq<char>, Seq<u8>>::empty(),
            r.calls() == (CallCounts { reads: Seq::empty(), write: 0, stat: 0, delete: 0, list: 0 }),
            r.reliable(),
            r.counted(),
    {
        let r = MemoryBackend {
            entries: Vec::new(),
            counts: Ghost(CallCounts { reads: Seq::empty(), write: 0, stat: 0, delete: 0, list: 0 }),
            reads: 0,
            writes: 0,
            stats: 0,
            deletes: 0,
            lists: 0,
        };
        assert(r.pairs() =~= Seq::empty());
        r
    }

    pub fn read_count(&self) -> (r: u64)
        requires
            self.counted(),
        ensures
            r == saturated(self.calls().reads.len()),
    {
        self.reads
    }

    pub fn write_count(&self) -> (r: u64)
        requires
            self.counted(),
        ensures
            r == saturated(self.calls().write),
    {
        self.writes
    }

    pub fn stat_count(&self) -> (r: u64)
        requires
            self.counted(),
        ensures
            r == saturated(self.calls().stat),
    {
        self.stats
    }

    pub fn delete_count(&self) -> (r: u64)
        requires
            self.counted(),
        ensures
            r == saturated(self.calls().delete),
    {
        self.deletes
    }

    pub fn list_count(&self) -> (r: u64)
        requires
            self.counted(),
        ensures
            r == saturated(self.calls().list),
    {
        self.lists
    }

    /// The index of the entry that holds `path`'s bytes.
    fn find(&self, path: &String) -> (r: Option<usize>)
        ensures
            match r {
                Some(i) => {
                    &&& i < self.entries@.len()
                    &&& map_of(self.pairs()).contains_key(path@)
                    &&& map_of(self.pairs())[path@] == self.entries@[i as int].1@
                },
                None => !map_of(self.pairs()).contains_key(path@),
            },
    {
        let mut i: usize = self.entries.len();
        while i > 0
            invariant
                i <= self.entries@.len(),
                forall|j: int| i <= j < self.pairs().len() ==> (#[trigger] self.pairs()[j]).0 != path@,
            decreases i,
        {
            if self.entries[i - 1].0 == *path {
                proof {
                    lemma_present(self.pairs(), i - 1);
                }
                return Some(i - 1);
            }
            i = i - 1;
        }
        proof {
            lemma_absent(self.pairs(), path@);
        }
        None
    }

    /// Whether no entry after the `i`th names its path.
    fn is_last_entry(&self, i: usize) -> (r: bool)
        requires
            i < self.entries@.len(),
        ensures
            r == is_last(self.pairs(), i as int),
    {
        let mut j: usize = self.entries.len();
        while j - 1 > i
            invariant
                i < j <= self.entries@.len(),
                forall|m: int|
                    j <= m < self.pairs().len() ==> (#[trigger] self.pairs()[m]).0 != self.pairs()[i as int].0,
            decreases j,
        {
            if self.entries[j - 1].0 == self.entries[i].0 {
                assert(self.pairs()[j - 1].0 == self.pairs()[i as int].0);
                return false;
            }
            j = j - 1;
        }
        true
    }

    /// Drops every entry of `path`.
    fn remove_all(&mut self, path: &String)
        ensures
            map_of(final(self).pairs()) == map_of(old(self).pairs()).remove(path@),
            final(self).counts == old(self).counts,
            final(self).counted() == old(self).counted(),
    {
        let mut i: usize = self.entries.len();
        while i > 0
            invariant
                i <= self.entries@.len(),
                forall|j: int| i <= j < self.pairs().len() ==> (#[trigger] self.pairs()[j]).0 != path@,
                map_of(self.pairs()).remove(path@) == map_of(old(self).pairs()).remove(path@),
                self.counts == old(self).counts,
                self.counted() == old(self).counted(),
            decreases i,
        {
            if self.entries[i - 1].0 == *path {
                let ghost before = self.pairs();
                proof {
                    lemma_remove_entry(before, i - 1, path@);
                }
                self.entries.remove(i - 1);
                assert(self.pairs() =~= before.remove(i - 1));
            }
            i = i - 1;
        }
        proof {
            lemma_absent(self.pairs(), path@);
            assert(map_of(self.pairs()).remove(path@) =~= map_of(self.pairs()));
        }
    }
}

impl Accessor for MemoryBackend {
    closed spec fn objects(&self) -> Map<Seq<char>, Seq<u8>> {
        map_of(self.pairs())
    }

    closed spec fn calls(&self) -> CallCounts {
        self.counts@
    }

    /// Every request on objects it holds succeeds.
    open spec fn reliable(&self) -> bool {
        true
    }

    fn read(&mut self, op: &OpRead) -> (r: Result<Vec<u8>, Error>)
        ensures
            old(self).counted() ==> final(self).counted(),
            old(self).objects().contains_key(op.path@) && read_window(
                old(self).objects()[op.path@],
                op.offset,
                op.size,
            ) is Some ==> r is Ok,
    {
        self.reads = self.reads.saturating_add(1);
        self.counts = Ghost(
            CallCounts { reads: self.counts@.reads.push((op.path@, op.offset, op.size)), ..self.counts@ },
        );
        match self.find(&op.path) {
            None => Err(Error::ObjectNotExist(op.path.clone())),
            Some(i) => {
                let d = &self.entries[i].1;
                match resolve_window(d.len() as u64, op.offset, op.size) {
                    None => Err(Error::Unexpected(op.path.clone())),
                    Some((a, b)) => Ok(copy_range(d, a as usize, b as usize)),
                }
            },
        }
    }

    fn write(&mut self, op: &OpWrite, data: &Vec<u8>) -> (r: Result<usize, Error>)
        ensures
            old(self).counted() ==> final(self).counted(),
            r is Ok,
    {
        self.writes = self.writes.saturating_add(1);
        self.counts = Ghost(CallCounts { write: self.counts@.write + 1, ..self.counts@ });
        self.remove_all(&op.path);
        let ghost before = self.pairs();
        let bytes = copy_range(data, 0, data.len());
        self.entries.push((op.path.clone(), bytes));
        proof {
            assert(self.pairs().drop_last() =~= before);
            assert(self.pairs().last() == (op.path@, data@));
            assert(map_of(self.pairs()) == map_of(before).insert(op.path@, data@));
            assert(map_of(before).remove(op.path@).insert(op.path@, data@) =~= map_of(
                old(self).pairs(),
            ).insert(op.path@, data@));
        }
        Ok(data.len())
    }

    fn stat(&mut self, op: &OpStat) -> (r: Result<Metadata, Error>)
        ensures
            old(self).counted() ==> final(self).counted(),
            old(self).objects().contains_key(op.path@) ==> r is Ok && r->Ok_0@.mode == Some(
                ObjectMode::FILE,
            ),
    {
        self.stats = self.stats.saturating_add(1);
        self.counts = Ghost(CallCounts { stat: self.counts@.stat + 1, ..self.counts@ });
        match self.find(&op.path) {
            None => Err(Error::ObjectNotExist(op.path.clone())),
            Some(i) => {
                let mut m = Metadata::new(op.path.as_str());
                m.set_mode(ObjectMode::FILE);
                m.set_content_length(self.entries[i].1.len() as u64);
                m.set_complete();
                Ok(m)
            },
        }
    }

    fn delete(&mut self, op: &OpDelete) -> (r: Result<(), Error>)
        ensures
            old(self).counted() ==> final(self).counted(),
            r is Ok,
    {
        self.deletes = self.deletes.saturating_add(1);
        self.counts = Ghost(CallCounts { delete: self.counts@.delete + 1, ..self.counts@ });
        self.remove_all(&op.path);
        Ok(())
    }

    fn list(&mut self, op: &OpList) -> (r: Result<Vec<Result<Object, Error>>, Error>)
        ensures
            old(self).counted() ==> final(self).counted(),
            r is Ok,
            forall|t: int| 0 <= t < r->Ok_0@.len() ==> (#[trigger] r->Ok_0@[t]) is Ok,
            forall|t1: int, t2: int|
                0 <= t1 < t2 < r->Ok_0@.len() ==> (#[trigger] r->Ok_0@[t1])->Ok_0@.path != (
                #[trigger] r->Ok_0@[t2])->Ok_0@.path,
            forall|k: Seq<char>|
                #![trigger old(self).objects().contains_key(k), is_child(op.path@, k)]
                old(self).objects().contains_key(k) && is_child(op.path@, k) ==> exists|t: int|
                    0 <= t < r->Ok_0@.len() && (#[trigger] r->Ok_0@[t]) is Ok && r->Ok_0@[t]->Ok_0@.path
                        == k,
    {
        self.lists = self.lists.saturating_add(1);
        self.counts = Ghost(CallCounts { list: self.counts@.list + 1, ..self.counts@ });
        let mut out: Vec<Result<Object, Error>> = Vec::new();
        let ghost mut idx: Seq<int> = Seq::empty();
        let mut i: usize = 0;
        while i < self.entries.len()
            invariant
                0 <= i <= self.entries@.len(),
                idx.len() == out@.len(),
                forall|t: int|
                    0 <= t < out@.len() ==> {
                        &&& 0 <= #[trigger] idx[t] < i
                        &&& is_last(self.pairs(), idx[t])
                        &&& out@[t] is Ok
                        &&& out@[t]->Ok_0@.path == self.pairs()[idx[t]].0
                        &&& map_of(self.pairs()).contains_key(out@[t]->Ok_0@.path)
                        &&& is_child(op.path@, out@[t]->Ok_0@.path)
                    },
                forall|t1: int, t2: int|
                    0 <= t1 < t2 < out@.len() ==> (#[trigger] out@[t1])->Ok_0@.path != (
                    #[trigger] out@[t2])->Ok_0@.path,
                forall|j: int|
                    0 <= j < i && is_child(op.path@, (#[trigger] self.pairs()[j]).0) && is_last(
                        self.pairs(),
                        j,
                    ) ==> exists|t: int|
                        0 <= t < out@.len() && (#[trigger] out@[t]) is Ok && out@[t]->Ok_0@.path
                            == self.pairs()[j].0,
            decreases self.entries@.len() - i,
        {
            let key = self.entries[i].0.as_str();
            assert(key@ == self.pairs()[i as int].0);
            if is_child_path(op.path.as_str(), key) && self.is_last_entry(i) {
                proof {
                    lemma_holds(self.pairs(), i as int);
                }
                let ghost before = out@;
                let ghost idx0 = idx;
                out.push(Ok(Object::new(key)));
                proof {
                    idx = idx0.push(i as int);
                    assert forall|t: int| 0 <= t < before.len() implies (#[trigger] out@[t])->Ok_0@.path
                        != self.pairs()[i as int].0 by {
                        assert(out@[t] == before[t]);
                        assert(idx0[t] < i);
                        assert(is_last(self.pairs(), idx0[t]));
                    }
                    assert forall|t1: int, t2: int|
                        0 <= t1 < t2 < out@.len() implies (#[trigger] out@[t1])->Ok_0@.path != (
                        #[trigger] out@[t2])->Ok_0@.path by {
                        assert(out@[t1] == before[t1]);
                        if t2 < before.len() {
                            assert(out@[t2] == before[t2]);
                        }
                    }
                    assert forall|j: int|
                        0 <= j < i + 1 && is_child(op.path@, (#[trigger] self.pairs()[j]).0) && is_last(
                            self.pairs(),
                            j,
                        ) implies exists|t: int|
                        0 <= t < out@.len() && (#[trigger] out@[t]) is Ok && out@[t]->Ok_0@.path
                            == self.pairs()[j].0 by {
                        if j < i {
                            let t = choose|t: int|
                                0 <= t < before.len() && (#[trigger] before[t]) is Ok && before[t]->Ok_0@.path
                                    == self.pairs()[j].0;
                            assert(out@[t] == before[t]);
                        } else {
                            assert(out@[before.len() as int] is Ok);
                        }
                    }
                    assert forall|t: int| 0 <= t < out@.len() implies {
                        &&& 0 <= #[trigger] idx[t] < i + 1
                        &&& is_last(self.pairs(), idx[t])
                        &&& out@[t] is Ok
                        &&& out@[t]->Ok_0@.path == self.pairs()[idx[t]].0
                        &&& map_of(self.pairs()).contains_key(out@[t]->Ok_0@.path)
                        &&& is_child(op.path@, out@[t]->Ok_0@.path)
                    } by {
                        if t < before.len() {
                            assert(out@[t] == before[t]);
                            assert(idx[t] == idx0[t]);
                        }
                    }
                }
            }
            i = i + 1;
        }
        proof {
            assert(old(self).pairs() == self.pairs());
            assert forall|t: int| 0 <= t < out@.len() implies {
                &&& (#[trigger] out@[t]) is Ok
                &&& map_of(self.pairs()).contains_key(out@[t]->Ok_0@.path)
                &&& is_child(op.path@, out@[t]->Ok_0@.path)
            } by {
                assert(0 <= idx[t] < i);
            }
            assert forall|k: Seq<char>|
                #![trigger old(self).objects().contains_key(k), is_child(op.path@, k)]
                old(self).objects().contains_key(k) && is_child(op.path@, k) implies exists|t: int|
                    0 <= t < out@.len() && (#[trigger] out@[t]) is Ok && out@[t]->Ok_0@.path == k by {
                lemma_last_index(self.pairs(), k);
                let j = choose|j: int|
                    0 <= j < self.pairs().len() && (#[trigger] self.pairs()[j]).0 == k && is_last(
                        self.pairs(),
                        j,
                    );
                assert(is_child(op.path@, self.pairs()[j].0));
            }
        }
        Ok(out)
    }
}

} // verus!
