use vstd::prelude::*;

verus! {

// ---------------------------------------------------------------------------
// Byte-level frame codec: one message is a header section of `Key: Value`
// lines, ended by a blank line, followed by a body of exactly the number of
// bytes that the `Content-Length` header gives.
// ---------------------------------------------------------------------------

pub open spec fn is_digit(b: u8) -> bool {
    48 <= b <= 57
}

pub open spec fn all_digits(s: Seq<u8>) -> bool {
    forall|i: int| 0 <= i < s.len() ==> is_digit(s[i])
}

/// The value of a sequence of decimal digit bytes, most significant first.
pub open spec fn dec_val(s: Seq<u8>) -> int
    decreases s.len(),
{
    if s.len() == 0 {
        0
    } else {
        dec_val(s.drop_last()) * 10 + (s.last() - 48)
    }
}

/// A non-empty all-digit run parses to its value; anything else does not parse.
pub open spec fn parse_dec_spec(s: Seq<u8>) -> Option<int> {
    if s.len() > 0 && all_digits(s) {
        Some(dec_val(s))
    } else {
        None
    }
}

pub open spec fn is_ws(b: u8) -> bool {
    b == 32 || b == 9
}

pub open spec fn trim_left(s: Seq<u8>) -> Seq<u8>
    decreases s.len(),
{
    if s.len() > 0 && is_ws(s[0]) {
        trim_left(s.drop_first())
    } else {
        s
    }
}

pub open spec fn trim_right(s: Seq<u8>) -> Seq<u8>
    decreases s.len(),
{
    if s.len() > 0 && is_ws(s.last()) {
        trim_right(s.drop_last())
    } else {
        s
    }
}

pub open spec fn trim_ws(s: Seq<u8>) -> Seq<u8> {
    trim_right(trim_left(s))
}

pub open spec fn is_crlf_at(s: Seq<u8>, i: int) -> bool {
    0 <= i && i + 2 <= s.len() && s[i] == 13 && s[i + 1] == 10
}

pub open spec fn is_sep_at(s: Seq<u8>, i: int) -> bool {
    0 <= i && i + 4 <= s.len() && s[i] == 13 && s[i + 1] == 10 && s[i + 2] == 13 && s[i + 3]
        == 10
}

/// Position of the first `\r\n` at or after `i`, if any.
pub open spec fn find_crlf_from(s: Seq<u8>, i: int) -> Option<int>
    decreases s.len() - i when 0 <= i <= s.len()
{
    if i + 2 > s.len() {
        None
    } else if is_crlf_at(s, i) {
        Some(i)
    } else {
        find_crlf_from(s, i + 1)
    }
}

/// Position of the first `\r\n\r\n` at or after `i`, if any.
pub open spec fn find_sep_from(s: Seq<u8>, i: int) -> Option<int>
    decreases s.len() - i when 0 <= i <= s.len()
{
    if i + 4 > s.len() {
        None
    } else if is_sep_at(s, i) {
        Some(i)
    } else {
        find_sep_from(s, i + 1)
    }
}

/// The bytes of `Content-Length:`.
pub open spec fn cl_key() -> Seq<u8> {
    seq![67u8, 111u8, 110u8, 116u8, 101u8, 110u8, 116u8, 45u8, 76u8, 101u8, 110u8, 103u8, 116u8,
        104u8, 58u8]
}

pub open spec fn starts_with(s: Seq<u8>, p: Seq<u8>) -> bool {
    p.len() <= s.len() && s.subrange(0, p.len() as int) == p
}

pub open spec fn is_cl_line(l: Seq<u8>) -> bool {
    starts_with(l, cl_key())
}

/// The declared length on a `Content-Length` header line: the decimal value
/// after the key, with surrounding blanks ignored.
pub open spec fn line_cl_val(l: Seq<u8>) -> Option<int> {
    parse_dec_spec(trim_ws(l.subrange(15, l.len() as int)))
}

/// The content length declared by the header section `h` (the bytes before
/// the blank line): the value of the first `Content-Length` line, if that
/// line carries a well-formed decimal value.
pub open spec fn header_cl_from(h: Seq<u8>, i: int) -> Option<int>
    decreases h.len() - i when 0 <= i <= h.len()
{
    match find_crlf_from(h, i) {
        Option::None => {
            let l = h.subrange(i, h.len() as int);
            if is_cl_line(l) {
                line_cl_val(l)
            } else {
                None
            }
        },
        Option::Some(j) => {
            if i <= j && j + 2 <= h.len() {
                let l = h.subrange(i, j);
                if is_cl_line(l) {
                    line_cl_val(l)
                } else {
                    header_cl_from(h, j + 2)
                }
            } else {
                None
            }
        },
    }
}

/// What decoding a byte stream yields: a complete frame and how many bytes it
/// used, a request for more bytes, or a malformed header (which consumes the
/// header section so that the connection can go on).
pub enum FrameOut {
    Msg { body: Seq<u8>, used: int },
    Incomplete,
    Malformed { used: int },
}

/// The meaning of decoding: find the header/body separator, read the declared
/// content length, and take exactly that many body bytes if they have arrived.
pub open spec fn decode_spec(s: Seq<u8>) -> FrameOut {
    match find_sep_from(s, 0) {
        Option::None => FrameOut::Incomplete,
        Option::Some(k) => match header_cl_from(s.subrange(0, k), 0) {
            Option::None => FrameOut::Malformed { used: k + 4 },
            Option::Some(cl) => if k + 4 + cl <= s.len() {
                FrameOut::Msg { body: s.subrange(k + 4, k + 4 + cl), used: k + 4 + cl }
            } else {
                FrameOut::Incomplete
            },
        },
    }
}

/// The encoding of a body: a single `Content-Length` header that carries the
/// body's exact byte count, the blank line, then the body.
pub open spec fn encode_spec(body: Seq<u8>) -> Seq<u8> {
    cl_key() + seq![32u8] + dec_repr(body.len() as int) + seq![13u8, 10u8, 13u8, 10u8] + body
}

/// Minimal decimal representation of a non-negative number.
pub open spec fn dec_repr(n: int) -> Seq<u8>
    decreases n when n >= 0
{
    if n < 10 {
        seq![(48 + n) as u8]
    } else {
        dec_repr(n / 10).push((48 + n % 10) as u8)
    }
}

// ---------------------------------------------------------------------------
// Executable decoding
// ---------------------------------------------------------------------------

/// Result of one decoding attempt over a buffered prefix of the stream.
pub enum Decoded {
    Msg { body: Vec<u8>, used: usize },
    Incomplete,
    Malformed { used: usize },
}

impl Decoded {
    pub open spec fn model(&self) -> FrameOut {
        match self {
            Decoded::Msg { body, used } => FrameOut::Msg { body: body@, used: *used as int },
            Decoded::Incomplete => FrameOut::Incomplete,
            Decoded::Malformed { used } => FrameOut::Malformed { used: *used as int },
        }
    }
}

/// Copies `buf[lo..hi]` into a fresh vector.
pub fn copy_range(buf: &Vec<u8>, lo: usize, hi: usize) -> (r: Vec<u8>)
    requires
        lo <= hi <= buf@.len(),
    ensures
        r@ == buf@.subrange(lo as int, hi as int),
{
    let mut r: Vec<u8> = Vec::new();
    let mut i: usize = lo;
    while i < hi
        invariant
            lo <= i <= hi <= buf@.len(),
            r@ == buf@.subrange(lo as int, i as int),
        decreases hi - i,
    {
        r.push(buf[i]);
        proof {
            assert(r@ =~= buf@.subrange(lo as int, i + 1 as int));
        }
        i += 1;
    }
    r
}

proof fn lemma_find_sep_shift(s: Seq<u8>, i: int)
    requires
        0 <= i <= s.len(),
        forall|j: int| 0 <= j < i ==> !is_sep_at(s, j),
    ensures
        find_sep_from(s, 0) == find_sep_from(s, i),
    decreases i,
{
    if i > 0 {
        lemma_find_sep_shift(s, i - 1);
        assert(find_sep_from(s, i - 1) == find_sep_from(s, i));
    }
}

proof fn lemma_find_crlf_shift(s: Seq<u8>, i0: int, i: int)
    requires
        0 <= i0 <= i <= s.len(),
        forall|j: int| i0 <= j < i ==> !is_crlf_at(s, j),
    ensures
        find_crlf_from(s, i0) == find_crlf_from(s, i),
    decreases i - i0,
{
    if i > i0 {
        assert(find_crlf_from(s, i0) == find_crlf_from(s, i0 + 1));
        lemma_find_crlf_shift(s, i0 + 1, i);
    }
}

/// First `\r\n\r\n` at or after `from`, scanning the whole buffer.
fn find_sep(buf: &Vec<u8>) -> (r: Option<usize>)
    ensures
        match r {
            Option::Some(k) => find_sep_from(buf@, 0) == Option::Some(k as int) && k + 4
                <= buf@.len(),
            Option::None => find_sep_from(buf@, 0) is None,
        },
{
    let n = buf.len();
    if n < 4 {
        return None;
    }
    let mut i: usize = 0;
    while n - i >= 4
        invariant
            0 <= i <= n == buf@.len(),
            forall|j: int| 0 <= j < i ==> !is_sep_at(buf@, j),
        decreases n - i,
    {
        if buf[i] == 13 && buf[i + 1] == 10 && buf[i + 2] == 13 && buf[i + 3] == 10 {
            proof {
                lemma_find_sep_shift(buf@, i as int);
            }
            return Some(i);
        }
        i += 1;
    }
    proof {
        lemma_find_sep_shift(buf@, i as int);
    }
    None
}

/// First `\r\n` at or after `from` within `buf[..hi]`.
fn find_crlf(buf: &Vec<u8>, from: usize, hi: usize) -> (r: Option<usize>)
    requires
        from <= hi <= buf@.len(),
        hi == buf@.len(),
    ensures
        match r {
            Option::Some(k) => find_crlf_from(buf@, from as int) == Option::Some(k as int)
                && from <= k && k + 2 <= hi,
            Option::None => find_crlf_from(buf@, from as int) is None,
        },
{
    let mut i: usize = from;
    while hi - i >= 2
        invariant
            from <= i <= hi == buf@.len(),
            forall|j: int| from <= j < i ==> !is_crlf_at(buf@, j),
        decreases hi - i,
    {
        if buf[i] == 13 && buf[i + 1] == 10 {
            proof {
                lemma_find_crlf_shift(buf@, from as int, i as int);
            }
            return Some(i);
        }
        i += 1;
    }
    proof {
        lemma_find_crlf_shift(buf@, from as int, i as int);
    }
    None
}

/// The `Content-Length:` key as bytes.
fn cl_key_vec() -> (r: Vec<u8>)
    ensures
        r@ == cl_key(),
{
    let mut v: Vec<u8> = Vec::new();
    v.push(67);
    v.push(111);
    v.push(110);
    v.push(116);
    v.push(101);
    v.push(110);
    v.push(116);
    v.push(45);
    v.push(76);
    v.push(101);
    v.push(110);
    v.push(103);
    v.push(116);
    v.push(104);
    v.push(58);
    proof {
        assert(v@ =~= cl_key());
    }
    v
}

/// Does the line `buf[lo..hi]` begin with the `Content-Length:` key?
fn line_is_cl(buf: &Vec<u8>, lo: usize, hi: usize) -> (r: bool)
    requires
        lo <= hi <= buf@.len(),
    ensures
        r == is_cl_line(buf@.subrange(lo as int, hi as int)),
{
    let key = cl_key_vec();
    if hi - lo < 15 {
        return false;
    }
    let mut m: usize = 0;
    while m < 15
        invariant
            0 <= m <= 15,
            key@ == cl_key(),
            lo <= hi <= buf@.len(),
            hi - lo >= 15,
            forall|j: int| 0 <= j < m ==> buf@[lo + j] == cl_key()[j],
        decreases 15 - m,
    {
        if buf[lo + m] != key[m] {
            proof {
                let l = buf@.subrange(lo as int, hi as int);
                assert(l[m as int] == buf@[lo + m as int]);
                assert(!is_cl_line(l)) by {
                    if is_cl_line(l) {
                        assert(l.subrange(0, 15)[m as int] == cl_key()[m as int]);
                    }
                }
            }
            return false;
        }
        m += 1;
    }
    proof {
        let l = buf@.subrange(lo as int, hi as int);
        assert(l.subrange(0, 15) =~= cl_key());
    }
    true
}

/// Result of reading a decimal value: the value, a value too large for this
/// machine, or no well-formed value at all.
enum DecRead {
    Val(usize),
    Huge,
    Bad,
}

impl DecRead {
    spec fn agrees(&self, p: Option<int>) -> bool {
        match self {
            DecRead::Val(v) => p == Option::Some(*v as int),
            DecRead::Huge => p is Some && p->0 > usize::MAX,
            DecRead::Bad => p is None,
        }
    }
}

/// Reads the decimal value of `buf[lo..hi]` after dropping surrounding blanks.
fn read_dec_trimmed(buf: &Vec<u8>, lo: usize, hi: usize) -> (r: DecRead)
    requires
        lo <= hi <= buf@.len(),
    ensures
        r.agrees(parse_dec_spec(trim_ws(buf@.subrange(lo as int, hi as int)))),
{
    let ghost orig = buf@.subrange(lo as int, hi as int);
    let mut a: usize = lo;
    let mut b: usize = hi;
    while a < b && (buf[a] == 32 || buf[a] == 9)
        invariant
            lo <= a <= b <= hi <= buf@.len(),
            b == hi,
            trim_left(orig) == trim_left(buf@.subrange(a as int, b as int)),
        decreases b - a,
    {
        proof {
            let cur = buf@.subrange(a as int, b as int);
            assert(cur[0] == buf@[a as int]);
            assert(cur.drop_first() =~= buf@.subrange(a + 1, b as int));
        }
        a += 1;
    }
    proof {
        let cur = buf@.subrange(a as int, b as int);
        if cur.len() > 0 {
            assert(cur[0] == buf@[a as int]);
        }
        assert(trim_left(cur) == cur);
        assert(trim_ws(orig) == trim_right(cur));
    }
    while a < b && (buf[b - 1] == 32 || buf[b - 1] == 9)
        invariant
            lo <= a <= b <= hi <= buf@.len(),
            trim_ws(orig) == trim_right(buf@.subrange(a as int, b as int)),
            trim_left(buf@.subrange(a as int, b as int)) == buf@.subrange(a as int, b as int),
        decreases b,
    {
        proof {
            let cur = buf@.subrange(a as int, b as int);
            assert(cur.last() == buf@[b - 1]);
            assert(cur.drop_last() =~= buf@.subrange(a as int, b - 1));
            assert(trim_right(cur) == trim_right(cur.drop_last()));
            lemma_trim_left_drop_last(cur);
        }
        b -= 1;
    }
    proof {
        let cur = buf@.subrange(a as int, b as int);
        if cur.len() > 0 {
            assert(cur.last() == buf@[b - 1]);
        }
        assert(trim_right(cur) == cur);
        assert(trim_ws(orig) == cur);
    }
    // now buf[a..b] is the trimmed run; parse it as decimal digits
    let ghost t = buf@.subrange(a as int, b as int);
    if a == b {
        proof {
            assert(t.len() == 0);
        }
        return DecRead::Bad;
    }
    let mut i: usize = a;
    let mut val: usize = 0;
    let mut huge: bool = false;
    while i < b
        invariant
            lo <= a <= i <= b <= hi <= buf@.len(),
            t == buf@.subrange(a as int, b as int),
            t == trim_ws(orig),
            orig == buf@.subrange(lo as int, hi as int),
            all_digits(t.subrange(0, i - a)),
            !huge ==> val as int == dec_val(t.subrange(0, i - a)),
            huge ==> dec_val(t.subrange(0, i - a)) > usize::MAX,
        decreases b - i,
    {
        let c = buf[i];
        if c < 48 || c > 57 {
            proof {
                assert(t[i - a] == buf@[i as int]);
                assert(!is_digit(t[i - a]));
                assert(!all_digits(t)) by {
                    if all_digits(t) {
                        assert(is_digit(t[i - a]));
                    }
                }
                assert(parse_dec_spec(trim_ws(orig)) is None);
            }
            return DecRead::Bad;
        }
        let d: usize = (c - 48) as usize;
        let ghost pre = t.subrange(0, i - a);
        let ghost post = t.subrange(0, i + 1 - a);
        proof {
            assert(post.drop_last() =~= pre);
            assert(post.last() == buf@[i as int]);
            assert(dec_val(post) == dec_val(pre) * 10 + d);
        }
        if huge {
            proof {
                assert(dec_val(pre) * 10 >= dec_val(pre)) by (nonlinear_arith)
                    requires dec_val(pre) >= 0;
                assert(dec_val(post) > usize::MAX);
            }
        } else {
            match val.checked_mul(10) {
                Option::Some(v10) => match v10.checked_add(d) {
                    Option::Some(v) => {
                        val = v;
                    },
                    Option::None => {
                        huge = true;
                    },
                },
                Option::None => {
                    huge = true;
                    proof {
                        assert(dec_val(post) > usize::MAX);
                    }
                },
            }
        }
        i += 1;
    }
    proof {
        assert(t.subrange(0, b - a) =~= t);
    }
    if huge {
        DecRead::Huge
    } else {
        DecRead::Val(val)
    }
}

proof fn lemma_trim_left_len(s: Seq<u8>)
    ensures
        trim_left(s).len() <= s.len(),
    decreases s.len(),
{
    if s.len() > 0 && is_ws(s[0]) {
        lemma_trim_left_len(s.drop_first());
    }
}

proof fn lemma_trim_left_drop_last(s: Seq<u8>)
    requires
        s.len() > 0,
        trim_left(s) == s,
    ensures
        trim_left(s.drop_last()) == s.drop_last(),
{
    assert(!is_ws(s[0])) by {
        if is_ws(s[0]) {
            lemma_trim_left_len(s.drop_first());
        }
    }
    if s.drop_last().len() > 0 {
        assert(s.drop_last()[0] == s[0]);
    }
}

/// Reads the content length declared by the header `buf[i..]`, mirroring
/// `header_cl_from` line by line.
fn header_cl(buf: &Vec<u8>, i: usize) -> (r: DecRead)
    requires
        i <= buf@.len(),
    ensures
        r.agrees(header_cl_from(buf@, i as int)),
    decreases buf@.len() - i,
{
    let hi = buf.len();
    match find_crlf(buf, i, hi) {
        Option::None => {
            if line_is_cl(buf, i, hi) {
                proof {
                    let l = buf@.subrange(i as int, hi as int);
                    assert(l.subrange(15, l.len() as int) =~= buf@.subrange(
                        i + 15 as int,
                        hi as int,
                    ));
                }
                read_dec_trimmed(buf, i + 15, hi)
            } else {
                DecRead::Bad
            }
        },
        Option::Some(j) => {
            if line_is_cl(buf, i, j) {
                proof {
                    let l = buf@.subrange(i as int, j as int);
                    assert(l.subrange(15, l.len() as int) =~= buf@.subrange(
                        i + 15 as int,
                        j as int,
                    ));
                }
                read_dec_trimmed(buf, i + 15, j)
            } else {
                header_cl(buf, j + 2)
            }
        },
    }
}

/// Attempts to decode one frame from the front of `buf`; consumes nothing.
pub fn decode_frame(buf: &Vec<u8>) -> (r: Decoded)
    ensures
        r.model() == decode_spec(buf@),
        match r {
            Decoded::Msg { used, .. } => used <= buf@.len(),
            Decoded::Malformed { used } => used <= buf@.len(),
            Decoded::Incomplete => true,
        },
{
    let n = buf.len();
    match find_sep(buf) {
        Option::None => Decoded::Incomplete,
        Option::Some(k) => {
            let header = copy_range(buf, 0, k);
            let cl = header_cl(&header, 0);
            match cl {
                DecRead::Bad => Decoded::Malformed { used: k + 4 },
                DecRead::Huge => {
                    proof {
                        assert(header_cl_from(buf@.subrange(0, k as int), 0)->0 > usize::MAX);
                        assert(n == buf@.len() && n <= usize::MAX);
                    }
                    Decoded::Incomplete
                },
                DecRead::Val(v) => {
                    if v <= n - (k + 4) {
                        let body = copy_range(buf, k + 4, k + 4 + v);
                        Decoded::Msg { body, used: k + 4 + v }
                    } else {
                        Decoded::Incomplete
                    }
                },
            }
        },
    }
}

// ---------------------------------------------------------------------------
// Executable encoding
// ---------------------------------------------------------------------------

/// Decimal digits of `n`, most significant first.
fn dec_digits(n: usize) -> (r: Vec<u8>)
    ensures
        r@ == dec_repr(n as int),
    decreases n,
{
    if n < 10 {
        let mut v: Vec<u8> = Vec::new();
        v.push(48 + n as u8);
        proof {
            assert(v@ =~= dec_repr(n as int));
        }
        v
    } else {
        let mut v = dec_digits(n / 10);
        v.push(48 + (n % 10) as u8);
        v
    }
}

/// Encodes one body as a complete frame, recomputing the `Content-Length`
/// header from the body's exact byte count.
pub fn encode_frame(body: &Vec<u8>) -> (r: Vec<u8>)
    ensures
        r@ == encode_spec(body@),
{
    let mut r = cl_key_vec();
    r.push(32);
    let mut digits = dec_digits(body.len());
    let mut di: usize = 0;
    let dn = digits.len();
    while di < dn
        invariant
            di <= dn == digits@.len(),
            digits@ == dec_repr(body@.len() as int),
            r@ == cl_key() + seq![32u8] + digits@.subrange(0, di as int),
        decreases dn - di,
    {
        r.push(digits[di]);
        proof {
            assert(r@ =~= cl_key() + seq![32u8] + digits@.subrange(0, di + 1 as int));
        }
        di += 1;
    }
    proof {
        assert(digits@.subrange(0, dn as int) =~= digits@);
    }
    r.push(13);
    r.push(10);
    r.push(13);
    r.push(10);
    let mut bi: usize = 0;
    let bn = body.len();
    while bi < bn
        invariant
            bi <= bn == body@.len(),
            r@ == cl_key() + seq![32u8] + dec_repr(body@.len() as int) + seq![
                13u8,
                10u8,
                13u8,
                10u8,
            ] + body@.subrange(0, bi as int),
        decreases bn - bi,
    {
        r.push(body[bi]);
        proof {
            assert(r@ =~= cl_key() + seq![32u8] + dec_repr(body@.len() as int) + seq![
                13u8,
                10u8,
                13u8,
                10u8,
            ] + body@.subrange(0, bi + 1 as int));
        }
        bi += 1;
    }
    proof {
        assert(body@.subrange(0, bn as int) =~= body@);
        assert(r@ =~= encode_spec(body@));
    }
    r
}

// ---------------------------------------------------------------------------
// A resumable decoder over a growing buffer
// ---------------------------------------------------------------------------

/// Buffers arriving bytes and hands out complete frames. Partial input is
/// kept, never consumed, until a whole frame has arrived.
pub struct FrameDecoder {
    buf: Vec<u8>,
}

impl FrameDecoder {
    /// The bytes received and not yet consumed.
    pub closed spec fn buffer(&self) -> Seq<u8> {
        self.buf@
    }

    pub fn new() -> (d: Self)
        ensures
            d.buffer() == Seq::<u8>::empty(),
    {
        FrameDecoder { buf: Vec::new() }
    }

    /// Appends newly arrived bytes to the buffer.
    pub fn feed(&mut self, chunk: &Vec<u8>)
        ensures
            final(self).buffer() == old(self).buffer() + chunk@,
    {
        let mut i: usize = 0;
        let n = chunk.len();
        while i < n
            invariant
                i <= n == chunk@.len(),
                self.buf@ == old(self).buf@ + chunk@.subrange(0, i as int),
            decreases n - i,
        {
            self.buf.push(chunk[i]);
            proof {
                assert(self.buf@ =~= old(self).buf@ + chunk@.subrange(0, i + 1 as int));
            }
            i += 1;
        }
        proof {
            assert(chunk@.subrange(0, n as int) =~= chunk@);
        }
    }

    /// Attempts to take one frame off the front of the buffer. On a frame or
    /// a malformed header the used bytes are consumed; on incomplete input
    /// the buffer is left exactly as it was.
    pub fn try_next(&mut self) -> (r: Decoded)
        ensures
            r.model() == decode_spec(old(self).buffer()),
            match r {
                Decoded::Msg { used, .. } => final(self).buffer() == old(self).buffer().subrange(
                    used as int,
                    old(self).buffer().len() as int,
                ),
                Decoded::Malformed { used } => final(self).buffer() == old(
                    self,
                ).buffer().subrange(used as int, old(self).buffer().len() as int),
                Decoded::Incomplete => final(self).buffer() == old(self).buffer(),
            },
    {
        let r = decode_frame(&self.buf);
        match &r {
            Decoded::Msg { body: _, used } => {
                let rest = copy_range(&self.buf, *used, self.buf.len());
                self.buf = rest;
            },
            Decoded::Malformed { used } => {
                let rest = copy_range(&self.buf, *used, self.buf.len());
                self.buf = rest;
            },
            Decoded::Incomplete => {},
        }
        r
    }
}


// ---------------------------------------------------------------------------
// Laws of the codec
// ---------------------------------------------------------------------------

proof fn lemma_dec_repr_digits(n: int)
    requires
        n >= 0,
    ensures
        all_digits(dec_repr(n)),
        dec_repr(n).len() >= 1,
    decreases n,
{
    if n < 10 {
        assert(is_digit(dec_repr(n)[0]));
    } else {
        lemma_dec_repr_digits(n / 10);
        let d = dec_repr(n / 10);
        let w = dec_repr(n);
        assert(w == d.push((48 + n % 10) as u8));
        assert(forall|i: int| 0 <= i < w.len() ==> is_digit(#[trigger] w[i])) by {
            assert(forall|i: int| 0 <= i < d.len() ==> w[i] == d[i]);
            assert(is_digit(w[w.len() - 1]));
        }
    }
}

proof fn lemma_dec_val_dec_repr(n: int)
    requires
        n >= 0,
    ensures
        dec_val(dec_repr(n)) == n,
    decreases n,
{
    if n < 10 {
        let w = dec_repr(n);
        assert(w.drop_last() =~= Seq::<u8>::empty());
        assert(dec_val(Seq::<u8>::empty()) == 0);
        assert(dec_val(w) == 0 * 10 + ((48 + n) as u8 - 48));
    } else {
        lemma_dec_val_dec_repr(n / 10);
        let d = dec_repr(n / 10);
        let w = dec_repr(n);
        assert(w.drop_last() =~= d);
        assert(dec_val(w) == dec_val(d) * 10 + ((48 + n % 10) as u8 - 48));
        assert(n / 10 * 10 + n % 10 == n) by {
            vstd::arithmetic::div_mod::lemma_fundamental_div_mod(n, 10);
        }
    }
}

/// Encoding then decoding yields the original body, with the whole frame
/// consumed: the codec loses nothing and invents nothing.
pub proof fn lemma_encode_decode(body: Seq<u8>)
    ensures
        decode_spec(encode_spec(body)) == (FrameOut::Msg {
            body,
            used: encode_spec(body).len() as int,
        }),
{
    let s = encode_spec(body);
    let d = dec_repr(body.len() as int);
    let k: int = 16 + d.len() as int;
    lemma_dec_repr_digits(body.len() as int);
    assert(forall|i: int| 0 <= i < 15 ==> cl_key()[i] != 13 && !is_ws(cl_key()[i]));
    assert(forall|i: int| 0 <= i < 15 ==> s[i] == cl_key()[i]);
    assert(s[15] == 32u8);
    assert(forall|i: int| 16 <= i < k ==> s[i] == d[i - 16]);
    assert(forall|i: int| 0 <= i < k ==> s[i] != 13) by {
        assert(forall|i: int| 0 <= i < d.len() ==> is_digit(#[trigger] d[i]));
    }
    assert(s[k] == 13 && s[k + 1] == 10 && s[k + 2] == 13 && s[k + 3] == 10);
    assert(is_sep_at(s, k));
    assert(forall|j: int| 0 <= j < k ==> !is_sep_at(s, j));
    lemma_find_sep_shift(s, k);
    assert(find_sep_from(s, k) == Option::Some(k));
    assert(find_sep_from(s, 0) == Option::Some(k));

    let h = s.subrange(0, k);
    assert(forall|i: int| 0 <= i < h.len() ==> h[i] == s[i]);
    assert(forall|j: int| 0 <= j < h.len() ==> !is_crlf_at(h, j));
    lemma_find_crlf_shift(h, 0, h.len() as int);
    assert(find_crlf_from(h, h.len() as int) is None);
    assert(find_crlf_from(h, 0) is None);
    assert(h.subrange(0, h.len() as int) =~= h);
    assert(h.subrange(0, 15) =~= cl_key());
    assert(is_cl_line(h));
    let v = h.subrange(15, h.len() as int);
    assert(v =~= seq![32u8] + d);
    assert(v.drop_first() =~= d);
    assert(trim_left(v) == trim_left(d));
    assert(d[0] == d.first());
    assert(trim_left(d) == d);
    assert(trim_right(d) == d);
    assert(trim_ws(v) == d);
    lemma_dec_val_dec_repr(body.len() as int);
    assert(line_cl_val(h) == Option::Some(body.len() as int));
    assert(header_cl_from(h, 0) == Option::Some(body.len() as int));
    assert(s.len() == k + 4 + body.len());
    assert(s.subrange(k + 4, k + 4 + body.len() as int) =~= body);
}

/// The round trip of the frame layer: a well-formed frame decodes to its
/// body, and re-encoding that body gives back exactly the original bytes.
pub proof fn lemma_round_trip(s: Seq<u8>, body: Seq<u8>)
    requires
        s == encode_spec(body),
    ensures
        decode_spec(s) matches FrameOut::Msg { body: b, used } && encode_spec(b) == s && used
            == s.len(),
{
    lemma_encode_decode(body);
}

proof fn lemma_find_sep_at(s: Seq<u8>, i: int)
    requires
        0 <= i <= s.len(),
    ensures
        match find_sep_from(s, i) {
            Option::Some(j) => i <= j && is_sep_at(s, j),
            Option::None => true,
        },
    decreases s.len() - i,
{
    if i + 4 > s.len() {
    } else if is_sep_at(s, i) {
    } else {
        lemma_find_sep_at(s, i + 1);
    }
}

proof fn lemma_find_sep_prefix(s: Seq<u8>, t: Seq<u8>, i: int)
    requires
        0 <= i <= t.len() <= s.len(),
        t == s.subrange(0, t.len() as int),
    ensures
        find_sep_from(t, i) == (match find_sep_from(s, i) {
            Option::Some(j) => if j + 4 <= t.len() {
                Option::Some(j)
            } else {
                Option::<int>::None
            },
            Option::None => Option::<int>::None,
        }),
    decreases t.len() - i,
{
    assert(forall|m: int| 0 <= m < t.len() ==> t[m] == s[m]);
    lemma_find_sep_at(s, i);
    if i + 4 > t.len() {
    } else if is_sep_at(t, i) {
        assert(is_sep_at(s, i));
    } else {
        assert(!is_sep_at(s, i));
        lemma_find_sep_prefix(s, t, i + 1);
    }
}

/// Decoding is a function of the buffered bytes alone, so a stream split at
/// any point and re-joined decodes exactly as the unsplit stream does.
pub proof fn lemma_split_invariance(s: Seq<u8>, i: int)
    requires
        0 <= i <= s.len(),
    ensures
        decode_spec(s.subrange(0, i) + s.subrange(i, s.len() as int)) == decode_spec(s),
{
    assert(s.subrange(0, i) + s.subrange(i, s.len() as int) =~= s);
}

/// No prefix of a frame decodes to anything but `Incomplete`: the codec never
/// consumes or invents data on a partial read, so feeding the rest later
/// still yields the identical message.
pub proof fn lemma_prefix_incomplete(s: Seq<u8>, n: int)
    requires
        0 <= n <= s.len(),
        decode_spec(s) is Msg,
        n < decode_spec(s)->Msg_used,
    ensures
        decode_spec(s.subrange(0, n)) is Incomplete,
{
    let t = s.subrange(0, n);
    let k = find_sep_from(s, 0)->0;
    lemma_find_sep_at(s, 0);
    lemma_find_sep_prefix(s, t, 0);
    if k + 4 <= n {
        assert(find_sep_from(t, 0) == Option::Some(k));
        assert(t.subrange(0, k) =~= s.subrange(0, k));
        let cl = header_cl_from(s.subrange(0, k), 0)->0;
        assert(k + 4 + cl > n);
    }
}

} // verus!
