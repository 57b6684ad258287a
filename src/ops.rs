use vstd::prelude::*;
use vstd::string::StringExecFns;

verus! {

/// The bytes `[start, end)` that a read bounded by `offset` and `size` selects
/// from an object of `len` bytes, or `None` when the bounds fall outside it.
///
/// No bound reads the whole object; an offset alone reads the tail; a size
/// alone reads at most `size` bytes from the start; both read the window
/// `[offset, offset + size)`, which must lie within the object.
pub open spec fn window_of(len: nat, offset: Option<u64>, size: Option<u64>) -> Option<(nat, nat)> {
    match (offset, size) {
        (None, None) => Some((0, len)),
        (Some(o), None) => if o <= len {
            Some((o as nat, len))
        } else {
            None
        },
        (None, Some(s)) => if s <= len {
            Some((0, s as nat))
        } else {
            Some((0, len))
        },
        (Some(o), Some(s)) => if o + s <= len {
            Some((o as nat, (o + s) as nat))
        } else {
            None
        },
    }
}

/// The bytes of `content` that a read bounded by `offset` and `size` yields.
pub open spec fn read_window(content: Seq<u8>, offset: Option<u64>, size: Option<u64>) -> Option<
    Seq<u8>,
> {
    match window_of(content.len(), offset, size) {
        Some((a, b)) => Some(content.subrange(a as int, b as int)),
        None => None,
    }
}

/// A window that lies within the object reads exactly its `size` bytes, taken
/// from `offset` on; an empty window reads nothing rather than failing.
pub proof fn lemma_range_window(content: Seq<u8>, offset: u64, size: u64)
    requires
        offset + size <= content.len(),
    ensures
        read_window(content, Some(offset), Some(size)) == Some(
            content.subrange(offset as int, offset + size),
        ),
        read_window(content, Some(offset), Some(size))->0.len() == size,
{
}

/// A read from an offset within the object yields its tail from that offset,
/// `len - offset` bytes.
pub proof fn lemma_offset_window(content: Seq<u8>, offset: u64)
    requires
        offset <= content.len(),
    ensures
        read_window(content, Some(offset), None) == Some(
            content.subrange(offset as int, content.len() as int),
        ),
        read_window(content, Some(offset), None)->0.len() == content.len() - offset,
{
}

/// A read limited to `n` bytes yields the first `min(n, len)` bytes, however
/// long the object is.
pub proof fn lemma_limited_window(content: Seq<u8>, n: u64)
    ensures
        read_window(content, None, Some(n)) == Some(
            content.subrange(
                0,
                if n <= content.len() {
                    n as int
                } else {
                    content.len() as int
                },
            ),
        ),
        read_window(content, None, Some(n))->0.len() == if n <= content.len() {
            n as nat
        } else {
            content.len()
        },
{
}

/// Computes `window_of` for an object of `len` bytes.
pub fn resolve_window(len: u64, offset: Option<u64>, size: Option<u64>) -> (r: Option<(u64, u64)>)
    ensures
        match r {
            Some((a, b)) => window_of(len as nat, offset, size) == Some((a as nat, b as nat)),
            None => window_of(len as nat, offset, size) is None,
        },
{
    match (offset, size) {
        (None, None) => Some((0, len)),
        (Some(o), None) => if o <= len {
            Some((o, len))
        } else {
            None
        },
        (None, Some(s)) => if s <= len {
            Some((0, s))
        } else {
            Some((0, len))
        },
        (Some(o), Some(s)) => if s <= len && o <= len - s {
            Some((o, o + s))
        } else {
            None
        },
    }
}

/// A read of one path, bounded by an optional offset and an optional size.
pub struct OpRead {
    pub path: String,
    pub offset: Option<u64>,
    pub size: Option<u64>,
}

impl OpRead {
    pub fn new(path: &str, offset: Option<u64>, size: Option<u64>) -> (r: OpRead)
        ensures
            r.path@ == path@,
            r.offset == offset,
            r.size == size,
    {
        OpRead { path: path.to_owned(), offset, size }
    }
}

/// A whole-object write of `size` bytes to one path.
pub struct OpWrite {
    pub path: String,
    pub size: u64,
}

impl OpWrite {
    pub fn new(path: &str, size: u64) -> (r: OpWrite)
        ensures
            r.path@ == path@,
            r.size == size,
    {
        OpWrite { path: path.to_owned(), size }
    }
}

/// A metadata request for one path.
pub struct OpStat {
    pub path: String,
}

impl OpStat {
    pub fn new(path: &str) -> (r: OpStat)
        ensures
            r.path@ == path@,
    {
        OpStat { path: path.to_owned() }
    }
}

/// A deletion of one path.
pub struct OpDelete {
    pub path: String,
}

impl OpDelete {
    pub fn new(path: &str) -> (r: OpDelete)
        ensures
            r.path@ == path@,
    {
        OpDelete { path: path.to_owned() }
    }
}

/// A listing of the entries under one path.
pub struct OpList {
    pub path: String,
}

impl OpList {
    pub fn new(path: &str) -> (r: OpList)
        ensures
            r.path@ == path@,
    {
        OpList { path: path.to_owned() }
    }
}

/// The decimal digit `d`.
pub open spec fn digit_char(d: nat) -> char {
    if d == 0 {
        '0'
    } else if d == 1 {
        '1'
    } else if d == 2 {
        '2'
    } else if d == 3 {
        '3'
    } else if d == 4 {
        '4'
    } else if d == 5 {
        '5'
    } else if d == 6 {
        '6'
    } else if d == 7 {
        '7'
    } else if d == 8 {
        '8'
    } else {
        '9'
    }
}

/// The decimal text of `n`, without leading zeros.
pub open spec fn decimal(n: nat) -> Seq<char>
    decreases n,
{
    if n < 10 {
        seq![digit_char(n)]
    } else {
        decimal(n / 10).push(digit_char(n % 10))
    }
}

fn digit_str(d: u64) -> (r: &'static str)
    requires
        d < 10,
    ensures
        r@ == seq![digit_char(d as nat)],
{
    proof {
        reveal_strlit("0");
        reveal_strlit("1");
        reveal_strlit("2");
        reveal_strlit("3");
        reveal_strlit("4");
        reveal_strlit("5");
        reveal_strlit("6");
        reveal_strlit("7");
        reveal_strlit("8");
        reveal_strlit("9");
    }
    if d == 0 {
        "0"
    } else if d == 1 {
        "1"
    } else if d == 2 {
        "2"
    } else if d == 3 {
        "3"
    } else if d == 4 {
        "4"
    } else if d == 5 {
        "5"
    } else if d == 6 {
        "6"
    } else if d == 7 {
        "7"
    } else if d == 8 {
        "8"
    } else {
        "9"
    }
}

/// Appends the decimal text of `n` to `s`.
pub fn push_decimal(s: &mut String, n: u64)
    ensures
        final(s)@ == old(s)@ + decimal(n as nat),
    decreases n,
{
    if n >= 10 {
        push_decimal(s, n / 10);
    }
    s.append(digit_str(n % 10));
    proof {
        if n < 10 {
            assert(decimal(n as nat) == seq![digit_char(n as nat)]);
        } else {
            assert(decimal(n as nat) == decimal((n / 10) as nat).push(digit_char((n % 10) as nat)));
        }
    }
}

/// The HTTP `Range` header value that selects the same bytes as `offset` and
/// `size`: `bytes=first-` for an open end, `bytes=first-last` otherwise, where
/// a missing offset starts at zero. `None` where no header is needed (no
/// bounds) or none can say it (an empty window, or one that ends past the
/// largest `u64`).
pub open spec fn range_header_of(offset: Option<u64>, size: Option<u64>) -> Option<Seq<char>> {
    match (offset, size) {
        (None, None) => None,
        (Some(o), None) => Some("bytes="@ + decimal(o as nat) + "-"@),
        (None, Some(n)) => if n == 0 {
            None
        } else {
            Some("bytes=0-"@ + decimal((n - 1) as nat))
        },
        (Some(o), Some(n)) => if n == 0 || o + n - 1 > u64::MAX {
            None
        } else {
            Some("bytes="@ + decimal(o as nat) + "-"@ + decimal((o + n - 1) as nat))
        },
    }
}

/// Encodes `offset` and `size` as an HTTP `Range` header value.
pub fn range_header(offset: Option<u64>, size: Option<u64>) -> (r: Option<String>)
    ensures
        match r {
            Some(h) => range_header_of(offset, size) == Some(h@),
            None => range_header_of(offset, size) is None,
        },
{
    let (first, last) = match (offset, size) {
        (None, None) => return None,
        (Some(o), None) => (o, None),
        (None, Some(n)) => {
            if n == 0 {
                return None;
            }
            (0, Some(n - 1))
        },
        (Some(o), Some(n)) => {
            if n == 0 || o > u64::MAX - (n - 1) {
                return None;
            }
            (o, Some(o + (n - 1)))
        },
    };
    let mut h = String::from_str("bytes=");
    push_decimal(&mut h, first);
    h.append("-");
    match last {
        Some(l) => push_decimal(&mut h, l),
        None => {},
    }
    proof {
        reveal_strlit("bytes=");
        reveal_strlit("-");
        reveal_strlit("bytes=0-");
        assert(decimal(0) == seq!['0']);
        assert("bytes=0-"@ =~= "bytes="@ + decimal(0) + "-"@);
    }
    Some(h)
}

} // verus!
