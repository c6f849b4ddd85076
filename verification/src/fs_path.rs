//! File system paths as the bytes that the system hands out, with the component rules of Unix.

use vstd::prelude::*;

use crate::text;

verus! {

/// A path of the file system: any sequence of bytes, whether or not it is text.
#[derive(Debug)]
pub struct FsPath {
    bytes: Vec<u8>,
}

impl View for FsPath {
    type V = Seq<u8>;

    closed spec fn view(&self) -> Seq<u8> {
        self.bytes@
    }
}

impl Clone for FsPath {
    fn clone(&self) -> (p: FsPath)
        ensures
            p@ == self@,
    {
        let bytes = self.bytes.clone();
        assert(bytes@ =~= self.bytes@);
        FsPath { bytes }
    }
}

/// The byte that parts the components of a path.
pub open spec fn slash() -> u8 {
    0x2f
}

/// The byte that, twice or alone, names a directory relative to another.
pub open spec fn dot() -> u8 {
    0x2e
}

/// Whether a path starts at the root directory.
pub open spec fn rooted(p: Seq<u8>) -> bool {
    p.len() > 0 && p[0] == slash()
}

/// Whether a piece between slashes counts as a component: it is not empty, and it is no `.`
/// unless the path begins with it.
pub open spec fn counts(piece: Seq<u8>, first: bool) -> bool {
    piece.len() > 0 && (first || piece != seq![dot()])
}

/// Start and end of each component of `p` from the byte `start` on.
pub open spec fn spans_from(p: Seq<u8>, start: int) -> Seq<(int, int)>
    decreases p.len() - start,
    when 0 <= start <= p.len()
{
    let end = start + text::find(p.skip(start), slash());
    let own = if counts(p.subrange(start, end), start == 0) {
        seq![(start, end)]
    } else {
        Seq::empty()
    };
    if end < p.len() {
        proof {
            text::lemma_find_bounds(p.skip(start), slash());
        }
        own + spans_from(p, end + 1)
    } else {
        own
    }
}

/// The components of a path, without its root.
pub open spec fn names(p: Seq<u8>) -> Seq<Seq<u8>> {
    let spans = spans_from(p, 0);
    Seq::new(spans.len(), |i: int| p.subrange(spans[i].0, spans[i].1))
}

/// Whether two paths are the same path: both start at the root or neither does, and their
/// components are the same. Repeated slashes, a slash at the end and a `.` past the beginning
/// make no difference.
pub open spec fn same(p: Seq<u8>, q: Seq<u8>) -> bool {
    rooted(p) == rooted(q) && names(p) == names(q)
}

/// `tail` looked up from `base`: `tail` itself where it starts at the root, else the two with one
/// slash between them.
pub open spec fn adjoined(base: Seq<u8>, tail: Seq<u8>) -> Seq<u8> {
    if rooted(tail) {
        tail
    } else if base.len() == 0 || base.last() == slash() {
        base + tail
    } else {
        base.push(slash()) + tail
    }
}

/// A path without its last component; there is none for the root and for the empty path.
pub open spec fn parent_of(p: Seq<u8>) -> Option<Seq<u8>> {
    let spans = spans_from(p, 0);
    if spans.len() == 0 {
        None
    } else if spans.len() > 1 {
        Some(p.take(spans[spans.len() - 2].1))
    } else if rooted(p) {
        Some(p.take(1))
    } else {
        Some(Seq::empty())
    }
}

/// The last component of a path, if it names a file or a directory by itself.
pub open spec fn file_name_of(p: Seq<u8>) -> Option<Seq<u8>> {
    if names(p).len() == 0 || names(p).last() == seq![dot()] || names(p).last() == seq![
        dot(),
        dot(),
    ] {
        None
    } else {
        Some(names(p).last())
    }
}

/// The name of a repository: the last component of its path, or the whole path where that is
/// no name; bytes that are no text are replaced.
pub open spec fn repo_name_of(p: Seq<u8>) -> Seq<char> {
    match file_name_of(p) {
        Some(name) => text::decoded(name),
        None => text::decoded(p),
    }
}

proof fn lemma_spans(p: Seq<u8>, start: int)
    requires
        0 <= start <= p.len(),
    ensures
        forall|i: int|
            #![trigger spans_from(p, start)[i]]
            0 <= i < spans_from(p, start).len() ==> start <= spans_from(p, start)[i].0
                < spans_from(p, start)[i].1 <= p.len(),
    decreases p.len() - start,
{
    let end = start + text::find(p.skip(start), slash());
    text::lemma_find_bounds(p.skip(start), slash());
    if end < p.len() {
        lemma_spans(p, end + 1);
        let own = if counts(p.subrange(start, end), start == 0) {
            seq![(start, end)]
        } else {
            Seq::empty()
        };
        let tail = spans_from(p, end + 1);
        assert(spans_from(p, start) == own + tail);
        assert forall|i: int|
            #![trigger spans_from(p, start)[i]]
            0 <= i < spans_from(p, start).len() implies start <= spans_from(p, start)[i].0
            < spans_from(p, start)[i].1 <= p.len() by {
            if i >= own.len() {
                assert(spans_from(p, start)[i] == tail[i - own.len()]);
            }
        }
    }
}

/// Whether a name is one component wherever it stands: not empty, no `.`, without a slash.
pub open spec fn plain_name(name: Seq<u8>) -> bool {
    name.len() > 0 && name != seq![dot()] && !name.contains(slash())
}

/// Behind a slash the components start anew: those of `p` stay, and those of `tail` follow.
proof fn lemma_spans_split(p: Seq<u8>, tail: Seq<u8>, start: int)
    requires
        0 <= start <= p.len(),
    ensures
        ({
            let q = p.push(slash()) + tail;
            spans_from(q, start) == spans_from(p, start) + spans_from(q, p.len() as int + 1)
        }),
    decreases p.len() - start,
{
    let q = p.push(slash()) + tail;
    let end = start + text::find(p.skip(start), slash());
    text::lemma_find_bounds(p.skip(start), slash());
    assert forall|i: int| 0 <= i < end - start implies q.skip(start)[i] != slash() by {
        assert(p.skip(start)[i] != slash());
        assert(q.skip(start)[i] == p[start + i]);
    }
    assert(q.skip(start)[end - start] == slash()) by {
        if end < p.len() {
            assert(p.skip(start)[end - start] == slash());
            assert(q[end] == p[end]);
        }
    }
    text::lemma_find(q.skip(start), slash(), end - start);
    assert(q.subrange(start, end) =~= p.subrange(start, end));
    let own = if counts(p.subrange(start, end), start == 0) {
        seq![(start, end)]
    } else {
        Seq::empty()
    };
    let rest = spans_from(q, p.len() as int + 1);
    assert(spans_from(q, start) == own + spans_from(q, end + 1));
    if end < p.len() {
        lemma_spans_split(p, tail, end + 1);
        assert(own + (spans_from(p, end + 1) + rest) =~= (own + spans_from(p, end + 1)) + rest);
    }
}

/// The stretches of `p` that the spans mark.
spec fn cut(p: Seq<u8>, spans: Seq<(int, int)>) -> Seq<Seq<u8>> {
    Seq::new(spans.len(), |i: int| p.subrange(spans[i].0, spans[i].1))
}

/// The components behind a position depend only on the bytes behind it, unless it is the first.
proof fn lemma_cut_from(p: Seq<u8>, a: int, q: Seq<u8>, b: int)
    requires
        0 < a <= p.len(),
        0 < b <= q.len(),
        p.skip(a) == q.skip(b),
    ensures
        cut(p, spans_from(p, a)) == cut(q, spans_from(q, b)),
    decreases p.len() - a,
{
    let n = text::find(p.skip(a), slash());
    text::lemma_find_bounds(p.skip(a), slash());
    assert(p.skip(a).len() == p.len() - a && q.skip(b).len() == q.len() - b);
    assert(p.subrange(a, a + n) =~= p.skip(a).take(n));
    assert(q.subrange(b, b + n) =~= q.skip(b).take(n));
    let piece = p.subrange(a, a + n);
    let own = if counts(piece, false) {
        seq![piece]
    } else {
        Seq::empty()
    };
    if a + n < p.len() {
        assert(p.skip(a + n + 1) =~= p.skip(a).skip(n + 1));
        assert(q.skip(b + n + 1) =~= q.skip(b).skip(n + 1));
        lemma_cut_from(p, a + n + 1, q, b + n + 1);
        assert(cut(p, spans_from(p, a)) =~= own + cut(p, spans_from(p, a + n + 1)));
        assert(cut(q, spans_from(q, b)) =~= own + cut(q, spans_from(q, b + n + 1)));
    } else {
        assert(cut(p, spans_from(p, a)) =~= own);
        assert(cut(q, spans_from(q, b)) =~= own);
    }
}

/// The components of a path that is looked up from a directory: a `.` never counts there, and
/// where it starts at the root makes no difference.
pub open spec fn names_below(tail: Seq<u8>) -> Seq<Seq<u8>> {
    names(seq![slash()] + tail)
}

proof fn lemma_names_below(tail: Seq<u8>)
    ensures
        names_below(tail) == cut(seq![slash()] + tail, spans_from(seq![slash()] + tail, 1)),
{
    let q = seq![slash()] + tail;
    assert(q.skip(0) =~= q);
    text::lemma_find(q.skip(0), slash(), 0);
    assert(q.subrange(0, 0).len() == 0);
    assert(spans_from(q, 0) =~= spans_from(q, 1));
}

/// Looking up a path that does not start at the root keeps the components of the directory that
/// it is looked up from, and puts its own behind them.
pub proof fn adjoined_names_follow(base: Seq<u8>, tail: Seq<u8>)
    requires
        base.len() > 0,
        !rooted(tail),
    ensures
        names(adjoined(base, tail)) == names(base) + names_below(tail),
        rooted(adjoined(base, tail)) == rooted(base),
{
    let q = adjoined(base, tail);
    let p = if base.last() == slash() {
        base.drop_last()
    } else {
        base
    };
    assert(q =~= p.push(slash()) + tail);
    lemma_spans_split(p, tail, 0);
    lemma_spans(p, 0);
    let spans = spans_from(p, 0);
    if base.last() == slash() {
        lemma_spans_split(p, Seq::empty(), 0);
        assert(p.push(slash()) + Seq::<u8>::empty() =~= base);
        assert(base.skip(base.len() as int).len() == 0);
        assert(base.subrange(base.len() as int, base.len() as int).len() == 0);
        assert(spans_from(base, base.len() as int) =~= Seq::<(int, int)>::empty());
        assert(spans_from(base, 0) =~= spans);
    }
    let at = p.len() as int + 1;
    let behind = seq![slash()] + tail;
    assert(q.skip(at) =~= behind.skip(1));
    lemma_cut_from(q, at, behind, 1);
    lemma_names_below(tail);
    assert forall|i: int| 0 <= i < spans.len() implies names(q)[i] == names(base)[i] by {
        assert(spans[i].1 <= p.len());
        assert(q.subrange(spans[i].0, spans[i].1) =~= base.subrange(spans[i].0, spans[i].1));
    }
    assert(names(q) =~= names(base) + cut(q, spans_from(q, at)));
}

/// A plain name is one component wherever it is looked up.
pub proof fn plain_names_stay_whole(name: Seq<u8>)
    requires
        plain_name(name),
    ensures
        names_below(name) == seq![name],
        !rooted(name),
{
    let q = seq![slash()] + name;
    lemma_names_below(name);
    assert(name.contains(name[0]));
    assert forall|i: int| 0 <= i < name.len() implies name[i] != slash() by {
        assert(name.contains(name[i]));
    }
    assert(q.skip(1) =~= name);
    text::lemma_find(name, slash(), name.len() as int);
    assert(q.subrange(1, q.len() as int) =~= name);
    assert(spans_from(q, 1) =~= seq![(1int, q.len() as int)]);
    assert(names_below(name) =~= seq![name]);
}

/// Looking up a plain name adds one component, that name, and keeps the others.
pub proof fn adjoined_name_is_last(base: Seq<u8>, name: Seq<u8>)
    requires
        plain_name(name),
    ensures
        names(adjoined(base, name)) == names(base).push(name),
        rooted(adjoined(base, name)) == rooted(base),
{
    plain_names_stay_whole(name);
    if base.len() == 0 {
        assert(adjoined(base, name) =~= name);
        assert(name.skip(0) =~= name);
        assert forall|i: int| 0 <= i < name.len() implies name[i] != slash() by {
            assert(name.contains(name[i]));
        }
        text::lemma_find(name, slash(), name.len() as int);
        assert(name.subrange(0, name.len() as int) =~= name);
        assert(spans_from(name, 0) =~= seq![(0int, name.len() as int)]);
        assert(base.skip(0) =~= base);
        assert(base.subrange(0, 0) =~= base);
        assert(spans_from(base, 0) =~= Seq::<(int, int)>::empty());
        assert(names(adjoined(base, name)) =~= names(base).push(name));
    } else {
        adjoined_names_follow(base, name);
        assert(names(base) + seq![name] =~= names(base).push(name));
    }
}

/// A path without the slashes that it begins with.
pub open spec fn relative_of(p: Seq<u8>) -> Seq<u8>
    decreases p.len(),
{
    if rooted(p) {
        relative_of(p.skip(1))
    } else {
        p
    }
}

/// Without the slashes that it begins with a path does not start at the root, and looked up from
/// a directory it has the same components.
pub proof fn relative_paths_keep_their_names(p: Seq<u8>)
    ensures
        !rooted(relative_of(p)),
        names_below(relative_of(p)) == names_below(p),
    decreases p.len(),
{
    if rooted(p) {
        let rest = p.skip(1);
        relative_paths_keep_their_names(rest);
        let x = seq![slash()] + p;
        let y = seq![slash()] + rest;
        lemma_names_below(p);
        lemma_names_below(rest);
        assert(x.skip(1) =~= p);
        text::lemma_find(x.skip(1), slash(), 0);
        assert(x.subrange(1, 1).len() == 0);
        assert(spans_from(x, 1) =~= spans_from(x, 2));
        assert(x.skip(2) =~= rest);
        assert(y.skip(1) =~= rest);
        lemma_cut_from(x, 2, y, 1);
    }
}

/// Every path is the same as itself.
pub proof fn same_is_reflexive(p: Seq<u8>)
    ensures
        same(p, p),
{
}

/// A path that is the same as another leaves the other the same as it.
pub proof fn same_is_symmetric(p: Seq<u8>, q: Seq<u8>)
    requires
        same(p, q),
    ensures
        same(q, p),
{
}

/// Two paths that are the same as a third are the same as each other.
pub proof fn same_is_transitive(p: Seq<u8>, q: Seq<u8>, r: Seq<u8>)
    requires
        same(p, q),
        same(q, r),
    ensures
        same(p, r),
{
}

/// Positions in a vector, as numbers.
spec fn positions(v: Seq<(usize, usize)>) -> Seq<(int, int)> {
    Seq::new(v.len(), |i: int| (v[i].0 as int, v[i].1 as int))
}

/// Whether two stretches of bytes are equal.
fn equal_bytes(a: &Vec<u8>, a0: usize, a1: usize, b: &Vec<u8>, b0: usize, b1: usize) -> (r: bool)
    requires
        a0 <= a1 <= a@.len(),
        b0 <= b1 <= b@.len(),
    ensures
        r == (a@.subrange(a0 as int, a1 as int) == b@.subrange(b0 as int, b1 as int)),
{
    let ghost x = a@.subrange(a0 as int, a1 as int);
    let ghost y = b@.subrange(b0 as int, b1 as int);
    if a1 - a0 != b1 - b0 {
        assert(x.len() != y.len());
        return false;
    }
    let n: usize = a1 - a0;
    let mut i: usize = 0;
    while i < n
        invariant
            i <= n,
            n == a1 - a0,
            n == b1 - b0,
            a1 <= a@.len(),
            b1 <= b@.len(),
            x == a@.subrange(a0 as int, a1 as int),
            y == b@.subrange(b0 as int, b1 as int),
            forall|j: int| 0 <= j < i ==> x[j] == y[j],
        decreases n - i,
    {
        if a[a0 + i] != b[b0 + i] {
            assert(x[i as int] != y[i as int]);
            return false;
        }
        i = i + 1;
    }
    assert(x =~= y);
    true
}

impl FsPath {
    /// A path made of the given bytes.
    pub fn from_bytes(bytes: Vec<u8>) -> (p: FsPath)
        ensures
            p@ == bytes@,
    {
        FsPath { bytes }
    }

    /// A path made of the bytes of a text.
    pub fn from_text(text: &str) -> (p: FsPath)
        ensures
            p@ == vstd::utf8::encode_utf8(text@),
    {
        FsPath { bytes: text.as_bytes_vec() }
    }

    /// The bytes of a path.
    pub fn as_bytes(&self) -> (b: &[u8])
        ensures
            b@ == self@,
    {
        self.bytes.as_slice()
    }

    /// Start and end of each component.
    fn spans(&self) -> (spans: Vec<(usize, usize)>)
        ensures
            positions(spans@) == spans_from(self@, 0),
    {
        let n: usize = self.bytes.len();
        let mut out: Vec<(usize, usize)> = Vec::new();
        let mut start: usize = 0;
        let mut done: bool = false;
        while !done
            invariant
                n == self@.len(),
                self@ == self.bytes@,
                start <= n,
                !done ==> positions(out@) + spans_from(self@, start as int) == spans_from(self@, 0),
                done ==> positions(out@) == spans_from(self@, 0),
            decreases (if done { 0 } else { n - start + 1 }),
        {
            let ghost before = out@;
            let mut end: usize = start;
            while end < n && self.bytes[end] != 0x2f
                invariant
                    start <= end <= n,
                    n == self.bytes@.len(),
                    forall|i: int| start <= i < end ==> self.bytes@[i] != slash(),
                decreases n - end,
            {
                end = end + 1;
            }
            proof {
                text::lemma_find(self@.skip(start as int), slash(), end - start);
            }
            let ghost piece = self@.subrange(start as int, end as int);
            let lone_dot: bool = end - start == 1 && self.bytes[start] == 0x2e;
            assert(lone_dot == (piece == seq![dot()])) by {
                if lone_dot {
                    assert(piece =~= seq![dot()]);
                } else if piece == seq![dot()] {
                    assert(piece.len() == 1);
                    assert(piece[0] == self.bytes@[start as int]);
                    assert(piece[0] == dot());
                }
            }
            let ghost own = if counts(piece, start == 0) {
                seq![(start as int, end as int)]
            } else {
                Seq::empty()
            };
            if end > start && (start == 0 || !lone_dot) {
                out.push((start, end));
            }
            assert(positions(out@) =~= positions(before) + own);
            if end < n {
                assert(spans_from(self@, start as int) == own + spans_from(self@, end + 1));
                assert(positions(before) + (own + spans_from(self@, end + 1)) =~= (positions(before)
                    + own) + spans_from(self@, end + 1));
                start = end + 1;
            } else {
                assert(spans_from(self@, start as int) == own);
                done = true;
            }
        }
        out
    }

    /// Whether a path starts at the root directory.
    fn is_rooted(&self) -> (b: bool)
        ensures
            b == rooted(self@),
    {
        self.bytes.len() > 0 && self.bytes[0] == 0x2f
    }

    /// Whether two paths are the same path.
    pub fn same_as(&self, other: &FsPath) -> (b: bool)
        ensures
            b == same(self@, other@),
    {
        if self.is_rooted() != other.is_rooted() {
            return false;
        }
        let mine = self.spans();
        let theirs = other.spans();
        let ghost p = spans_from(self@, 0);
        let ghost q = spans_from(other@, 0);
        proof {
            lemma_spans(self@, 0);
            lemma_spans(other@, 0);
        }
        if mine.len() != theirs.len() {
            assert(names(self@).len() != names(other@).len());
            return false;
        }
        let mut i: usize = 0;
        while i < mine.len()
            invariant
                i <= mine@.len(),
                mine@.len() == theirs@.len(),
                self@ == self.bytes@,
                other@ == other.bytes@,
                p == spans_from(self@, 0),
                q == spans_from(other@, 0),
                positions(mine@) == p,
                positions(theirs@) == q,
                forall|j: int| #![trigger p[j]] 0 <= j < p.len() ==> 0 <= p[j].0 < p[j].1 <= self@.len(),
                forall|j: int| #![trigger q[j]] 0 <= j < q.len() ==> 0 <= q[j].0 < q[j].1 <= other@.len(),
                forall|j: int| 0 <= j < i ==> names(self@)[j] == names(other@)[j],
            decreases mine@.len() - i,
        {
            let a = mine[i];
            let b = theirs[i];
            assert(p[i as int] == (a.0 as int, a.1 as int));
            assert(q[i as int] == (b.0 as int, b.1 as int));
            if !equal_bytes(&self.bytes, a.0, a.1, &other.bytes, b.0, b.1) {
                assert(names(self@)[i as int] != names(other@)[i as int]);
                return false;
            }
            i = i + 1;
        }
        assert(names(self@) =~= names(other@));
        true
    }

    /// `tail` looked up from this path.
    pub fn join(&self, tail: &FsPath) -> (p: FsPath)
        ensures
            p@ == adjoined(self@, tail@),
    {
        if tail.is_rooted() {
            return tail.clone();
        }
        let mut out = self.clone();
        let n: usize = self.bytes.len();
        if n > 0 && self.bytes[n - 1] != 0x2f {
            out.bytes.push(0x2f);
        }
        let ghost head = out@;
        let mut i: usize = 0;
        while i < tail.bytes.len()
            invariant
                i <= tail@.len(),
                tail@ == tail.bytes@,
                out@ == head + tail@.take(i as int),
            decreases tail@.len() - i,
        {
            out.bytes.push(tail.bytes[i]);
            assert(out@ =~= head + tail@.take(i + 1));
            i = i + 1;
        }
        assert(tail@.take(i as int) =~= tail@);
        out
    }

    /// This path without the slashes that it begins with.
    pub fn relative(&self) -> (p: FsPath)
        ensures
            p@ == relative_of(self@),
    {
        let n: usize = self.bytes.len();
        let mut start: usize = 0;
        assert(self@.skip(0) =~= self@);
        while start < n && self.bytes[start] == 0x2f
            invariant
                start <= n,
                n == self.bytes@.len(),
                self@ == self.bytes@,
                relative_of(self@.skip(start as int)) == relative_of(self@),
            decreases n - start,
        {
            assert(self@.skip(start as int).skip(1) =~= self@.skip(start + 1));
            start = start + 1;
        }
        let mut out: Vec<u8> = Vec::new();
        let mut i: usize = start;
        while i < n
            invariant
                start <= i <= n,
                n == self.bytes@.len(),
                out@ == self.bytes@.subrange(start as int, i as int),
            decreases n - i,
        {
            out.push(self.bytes[i]);
            assert(out@ =~= self.bytes@.subrange(start as int, i + 1));
            i = i + 1;
        }
        assert(out@ =~= self@.skip(start as int));
        FsPath { bytes: out }
    }

    /// The first `n` bytes of a path.
    fn prefix(&self, n: usize) -> (p: FsPath)
        requires
            n <= self@.len(),
        ensures
            p@ == self@.take(n as int),
    {
        let mut out: Vec<u8> = Vec::new();
        let mut i: usize = 0;
        while i < n
            invariant
                i <= n <= self.bytes@.len(),
                out@ == self.bytes@.take(i as int),
            decreases n - i,
        {
            out.push(self.bytes[i]);
            assert(out@ =~= self.bytes@.take(i + 1));
            i = i + 1;
        }
        FsPath { bytes: out }
    }

    /// A path without its last component.
    pub fn parent(&self) -> (r: Option<FsPath>)
        ensures
            r is None <==> parent_of(self@) is None,
            r matches Some(p) ==> Some(p@) == parent_of(self@),
    {
        let spans = self.spans();
        let ghost p = spans_from(self@, 0);
        proof {
            lemma_spans(self@, 0);
        }
        let k: usize = spans.len();
        if k == 0 {
            None
        } else if k > 1 {
            assert(p[k - 2] == (spans@[k - 2].0 as int, spans@[k - 2].1 as int));
            Some(self.prefix(spans[k - 2].1))
        } else if self.is_rooted() {
            Some(self.prefix(1))
        } else {
            let out = self.prefix(0);
            assert(out@ =~= Seq::<u8>::empty());
            Some(out)
        }
    }

    /// The text of a path, with bytes that are no text replaced.
    pub fn display(&self) -> (s: String)
        ensures
            s@ == text::decoded(self@),
    {
        text::decode(self.bytes.as_slice())
    }

    /// The name of the repository at this path.
    pub fn repo_name(&self) -> (s: String)
        ensures
            s@ == repo_name_of(self@),
    {
        let spans = self.spans();
        let ghost p = spans_from(self@, 0);
        proof {
            lemma_spans(self@, 0);
        }
        let k: usize = spans.len();
        if k == 0 {
            return self.display();
        }
        let a: usize = spans[k - 1].0;
        let b: usize = spans[k - 1].1;
        assert(p[k - 1] == (a as int, b as int));
        let mut name: Vec<u8> = Vec::new();
        let mut i: usize = a;
        while i < b
            invariant
                a <= i <= b <= self.bytes@.len(),
                name@ == self.bytes@.subrange(a as int, i as int),
            decreases b - i,
        {
            name.push(self.bytes[i]);
            assert(name@ =~= self.bytes@.subrange(a as int, i + 1));
            i = i + 1;
        }
        assert(names(self@).last() == name@);
        let one: bool = name.len() == 1 && name[0] == 0x2e;
        let two: bool = name.len() == 2 && name[0] == 0x2e && name[1] == 0x2e;
        assert(one == (name@ == seq![dot()])) by {
            if one {
                assert(name@ =~= seq![dot()]);
            }
        }
        assert(two == (name@ == seq![dot(), dot()])) by {
            if two {
                assert(name@ =~= seq![dot(), dot()]);
            }
        }
        if one || two {
            self.display()
        } else {
            text::decode(name.as_slice())
        }
    }
}

/// Two paths are the same exactly where both or neither begin with a slash and their components
/// are the same.
pub proof fn same_paths_have_the_same_components(p: Seq<u8>, q: Seq<u8>)
    ensures
        same(p, q) <==> (p.len() > 0 && p[0] == 0x2f) == (q.len() > 0 && q[0] == 0x2f) && names(p)
            == names(q),
{
}

/// The components of a path that holds no slash: itself, and none if it is empty. Behind a slash a
/// lone `.` is none either.
pub proof fn pieces_without_slashes_are_components(piece: Seq<u8>)
    requires
        !piece.contains(0x2f),
    ensures
        piece.len() > 0 ==> names(piece) == seq![piece],
        piece.len() == 0 ==> names(piece) == Seq::<Seq<u8>>::empty(),
        piece.len() > 0 && piece != seq![0x2eu8] ==> names_below(piece) == seq![piece],
        piece.len() == 0 || piece == seq![0x2eu8] ==> names_below(piece) == Seq::<
            Seq<u8>,
        >::empty(),
{
    assert forall|i: int| 0 <= i < piece.len() implies piece[i] != slash() by {
        assert(piece.contains(piece[i]));
    }
    let n = piece.len() as int;
    assert(piece.skip(0) =~= piece);
    text::lemma_find(piece, slash(), n);
    assert(piece.subrange(0, n) =~= piece);
    if n > 0 {
        assert(spans_from(piece, 0) =~= seq![(0int, n)]);
        assert(names(piece) =~= seq![piece]);
    } else {
        assert(spans_from(piece, 0) =~= Seq::<(int, int)>::empty());
        assert(names(piece) =~= Seq::<Seq<u8>>::empty());
    }
    if n > 0 && piece != seq![0x2eu8] {
        plain_names_stay_whole(piece);
    } else {
        let q = seq![slash()] + piece;
        lemma_names_below(piece);
        assert(q.skip(1) =~= piece);
        assert(q.subrange(1, q.len() as int) =~= piece);
        assert(spans_from(q, 1) =~= Seq::<(int, int)>::empty());
        assert(names_below(piece) =~= Seq::<Seq<u8>>::empty());
    }
}

/// A slash ends a component: those of what stands before it come first, then those of what stands
/// behind it.
pub proof fn slashes_part_components(p: Seq<u8>, tail: Seq<u8>)
    ensures
        names(p + seq![0x2fu8] + tail) == names(p) + names_below(tail),
        names_below(p + seq![0x2fu8] + tail) == names_below(p) + names_below(tail),
{
    lemma_slash_parts(p, tail);
    let q = seq![slash()] + p;
    lemma_slash_parts(q, tail);
    assert(seq![slash()] + (p + seq![0x2fu8] + tail) =~= q + seq![0x2fu8] + tail);
}

proof fn lemma_slash_parts(p: Seq<u8>, tail: Seq<u8>)
    ensures
        names(p + seq![0x2fu8] + tail) == names(p) + names_below(tail),
{
    let q = p + seq![0x2fu8] + tail;
    assert(q =~= p.push(slash()) + tail);
    lemma_spans_split(p, tail, 0);
    lemma_spans(p, 0);
    let spans = spans_from(p, 0);
    let at = p.len() as int + 1;
    let behind = seq![slash()] + tail;
    assert(q.skip(at) =~= behind.skip(1));
    lemma_cut_from(q, at, behind, 1);
    lemma_names_below(tail);
    assert forall|i: int| 0 <= i < spans.len() implies names(q)[i] == names(p)[i] by {
        assert(spans[i].1 <= p.len());
        assert(q.subrange(spans[i].0, spans[i].1) =~= p.subrange(spans[i].0, spans[i].1));
    }
    assert(names(q) =~= names(p) + cut(q, spans_from(q, at)));
}

/// A path that is looked up from a directory is itself where it begins with a slash; else it
/// stands behind the directory, with one slash between them unless the directory is empty or ends
/// in one.
pub proof fn looked_up_paths_stand_behind(base: Seq<u8>, tail: Seq<u8>)
    ensures
        tail.len() > 0 && tail[0] == 0x2f ==> adjoined(base, tail) == tail,
        !(tail.len() > 0 && tail[0] == 0x2f) ==> {
            &&& base.len() == 0 || base[base.len() - 1] == 0x2f ==> adjoined(base, tail) == base
                + tail
            &&& base.len() > 0 && base[base.len() - 1] != 0x2f ==> adjoined(base, tail) == base
                + seq![0x2fu8] + tail
        },
{
    assert(base.push(slash()) + tail =~= base + seq![0x2fu8] + tail);
}

/// A path that is looked up from a directory loses the slashes that it begins with and nothing
/// else.
pub proof fn only_leading_slashes_are_dropped(p: Seq<u8>)
    ensures
        !(relative_of(p).len() > 0 && relative_of(p)[0] == 0x2f),
        relative_of(p).len() <= p.len(),
        p.skip(p.len() - relative_of(p).len()) == relative_of(p),
        forall|i: int| 0 <= i < p.len() - relative_of(p).len() ==> #[trigger] p[i] == 0x2f,
    decreases p.len(),
{
    if rooted(p) {
        let rest = p.skip(1);
        only_leading_slashes_are_dropped(rest);
        let n = p.len() - relative_of(p).len();
        assert(rest.skip(n - 1) =~= p.skip(n));
        assert forall|i: int| 0 <= i < n implies #[trigger] p[i] == 0x2f by {
            if i > 0 {
                assert(rest[i - 1] == p[i]);
            }
        }
    } else {
        assert(p.skip(0) =~= p);
    }
}

proof fn lemma_spans_in_order(p: Seq<u8>, start: int, i: int)
    requires
        0 <= start <= p.len(),
        0 <= i < spans_from(p, start).len() - 1,
    ensures
        spans_from(p, start)[i].1 < spans_from(p, start)[i + 1].0,
        spans_from(p, start)[i].1 < p.len(),
        p[spans_from(p, start)[i].1] == slash(),
    decreases p.len() - start,
{
    let end = start + text::find(p.skip(start), slash());
    text::lemma_find_bounds(p.skip(start), slash());
    let own = if counts(p.subrange(start, end), start == 0) {
        seq![(start, end)]
    } else {
        Seq::empty()
    };
    if end < p.len() {
        let tail = spans_from(p, end + 1);
        assert(spans_from(p, start) == own + tail);
        lemma_spans(p, end + 1);
        assert(p.skip(start)[end - start] == p[end]);
        if i >= own.len() {
            lemma_spans_in_order(p, end + 1, i - own.len());
        } else {
            assert(tail[0].0 >= end + 1);
        }
    }
}

/// The directory that a path lies in begins the path and has all components but the last; the root
/// and the empty path lie in none.
pub proof fn parents_lack_the_last_component(p: Seq<u8>)
    ensures
        parent_of(p) is None <==> names(p).len() == 0,
        parent_of(p) matches Some(q) ==> {
            &&& q.is_prefix_of(p)
            &&& names(q) == names(p).drop_last()
            &&& (q.len() > 0 && q[0] == 0x2f) == (p.len() > 0 && p[0] == 0x2f)
        },
{
    let spans = spans_from(p, 0);
    let n = spans.len() as int;
    if n > 1 {
        let e = spans[n - 2].1;
        lemma_spans(p, 0);
        lemma_spans_in_order(p, 0, n - 2);
        let head = p.take(e);
        let tail = p.skip(e + 1);
        assert(p =~= head.push(slash()) + tail);
        lemma_spans_split(head, tail, 0);
        lemma_spans(head, 0);
        lemma_spans(p, e + 1);
        let own = spans_from(head, 0);
        let rest = spans_from(p, e + 1);
        assert(spans == own + rest);
        assert(own.len() == n - 1) by {
            if own.len() < n - 1 {
                assert(spans[n - 2] == rest[n - 2 - own.len()]);
            }
            if own.len() > n - 1 {
                assert(spans[n - 1] == own[n - 1]);
            }
        }
        assert forall|i: int| 0 <= i < n - 1 implies names(head)[i] == names(p)[i] by {
            assert(own[i] == spans[i]);
            assert(head.subrange(own[i].0, own[i].1) =~= p.subrange(spans[i].0, spans[i].1));
        }
        assert(names(head) =~= names(p).drop_last());
        assert(e > 0);
    } else if n == 1 {
        if rooted(p) {
            let root = p.take(1);
            assert(root =~= seq![0x2fu8] + Seq::<u8>::empty());
            lemma_names_below(Seq::empty());
            let none = Seq::<u8>::empty();
            pieces_without_slashes_are_components(none);
            assert(names(root) =~= Seq::<Seq<u8>>::empty());
        } else {
            let none = Seq::<u8>::empty();
            pieces_without_slashes_are_components(none);
        }
        assert(names(p).drop_last() =~= Seq::<Seq<u8>>::empty());
    }
}

/// A repository is named after the last component of its path, unless that is `.` or `..` or there
/// is none: then after the whole path.
pub proof fn repositories_are_named_by_the_last_component(p: Seq<u8>)
    ensures
        names(p).len() > 0 && names(p)[names(p).len() - 1] != seq![0x2eu8] && names(p)[names(
            p,
        ).len() - 1] != seq![0x2eu8, 0x2eu8] ==> repo_name_of(p) == text::decoded(
            names(p)[names(p).len() - 1],
        ),
        names(p).len() == 0 || names(p)[names(p).len() - 1] == seq![0x2eu8] || names(p)[names(
            p,
        ).len() - 1] == seq![0x2eu8, 0x2eu8] ==> repo_name_of(p) == text::decoded(p),
{
}

} // verus!
