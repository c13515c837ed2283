use vstd::prelude::*;

verus! {

// ---------------------------------------------------------------------------
// Word-list parsing: the dictionary source is plain text, one candidate per
// line; surrounding blanks are trimmed, blank lines are ignored, and the
// dictionary keeps the first occurrence of a word, in load order.
// ---------------------------------------------------------------------------

/// Blank within a line: space, tab, or the carriage return a CRLF line
/// ending leaves behind.
pub open spec fn is_blank(b: u8) -> bool {
    b == 32 || b == 9 || b == 13
}

pub open spec fn wtrim_left(s: Seq<u8>) -> Seq<u8>
    decreases s.len(),
{
    if s.len() > 0 && is_blank(s[0]) {
        wtrim_left(s.drop_first())
    } else {
        s
    }
}

pub open spec fn wtrim_right(s: Seq<u8>) -> Seq<u8>
    decreases s.len(),
{
    if s.len() > 0 && is_blank(s.last()) {
        wtrim_right(s.drop_last())
    } else {
        s
    }
}

pub open spec fn wtrim(s: Seq<u8>) -> Seq<u8> {
    wtrim_right(wtrim_left(s))
}

/// Position of the first line feed at or after `i`, if any.
pub open spec fn find_nl_from(s: Seq<u8>, i: int) -> Option<int>
    decreases s.len() - i when 0 <= i <= s.len()
{
    if i >= s.len() {
        None
    } else if s[i] == 10 {
        Some(i)
    } else {
        find_nl_from(s, i + 1)
    }
}

/// A trimmed line's contribution: nothing if it is blank, else the word.
pub open spec fn one_word(w: Seq<u8>) -> Seq<Seq<u8>> {
    if w.len() == 0 {
        Seq::empty()
    } else {
        seq![w]
    }
}

/// The trimmed, non-blank lines of `s[i..]`, in order.
pub open spec fn words_from_at(s: Seq<u8>, i: int) -> Seq<Seq<u8>>
    decreases s.len() - i when 0 <= i <= s.len()
{
    match find_nl_from(s, i) {
        Option::None => one_word(wtrim(s.subrange(i, s.len() as int))),
        Option::Some(j) => {
            if i <= j && j + 1 <= s.len() {
                one_word(wtrim(s.subrange(i, j))) + words_from_at(s, j + 1)
            } else {
                Seq::empty()
            }
        },
    }
}

/// The sequence with later repetitions of a word dropped: the first
/// occurrence decides the position.
pub open spec fn dedup_of(ws: Seq<Seq<u8>>) -> Seq<Seq<u8>>
    decreases ws.len(),
{
    if ws.len() == 0 {
        ws
    } else {
        let rest = dedup_of(ws.drop_last());
        if rest.contains(ws.last()) {
            rest
        } else {
            rest.push(ws.last())
        }
    }
}

/// The dictionary a word-list text denotes: its trimmed non-blank lines, in
/// load order, with duplicates dropped.
pub open spec fn word_list_spec(s: Seq<u8>) -> Seq<Seq<u8>> {
    dedup_of(words_from_at(s, 0))
}

proof fn lemma_wtrim_left_len(s: Seq<u8>)
    ensures
        wtrim_left(s).len() <= s.len(),
    decreases s.len(),
{
    if s.len() > 0 && is_blank(s[0]) {
        lemma_wtrim_left_len(s.drop_first());
    }
}

proof fn lemma_wtrim_left_drop_last(s: Seq<u8>)
    requires
        s.len() > 0,
        wtrim_left(s) == s,
    ensures
        wtrim_left(s.drop_last()) == s.drop_last(),
{
    assert(!is_blank(s[0])) by {
        if is_blank(s[0]) {
            lemma_wtrim_left_len(s.drop_first());
        }
    }
    if s.drop_last().len() > 0 {
        assert(s.drop_last()[0] == s[0]);
    }
}

proof fn lemma_find_nl_shift(s: Seq<u8>, i0: int, i: int)
    requires
        0 <= i0 <= i <= s.len(),
        forall|j: int| i0 <= j < i ==> s[j] != 10,
    ensures
        find_nl_from(s, i0) == find_nl_from(s, i),
    decreases i - i0,
{
    if i > i0 {
        assert(find_nl_from(s, i0) == find_nl_from(s, i0 + 1));
        lemma_find_nl_shift(s, i0 + 1, i);
    }
}

/// First line feed at or after `from`, if any.
fn find_nl(buf: &Vec<u8>, from: usize) -> (r: Option<usize>)
    requires
        from <= buf@.len(),
    ensures
        match r {
            Option::Some(j) => find_nl_from(buf@, from as int) == Option::Some(j as int) && from
                <= j && j < buf@.len(),
            Option::None => find_nl_from(buf@, from as int) is None,
        },
{
    let n = buf.len();
    let mut i: usize = from;
    while i < n
        invariant
            from <= i <= n == buf@.len(),
            forall|j: int| from <= j < i ==> buf@[j] != 10,
        decreases n - i,
    {
        if buf[i] == 10 {
            proof {
                lemma_find_nl_shift(buf@, from as int, i as int);
            }
            return Some(i);
        }
        i += 1;
    }
    proof {
        lemma_find_nl_shift(buf@, from as int, i as int);
    }
    None
}

/// Copies the trimmed content of `buf[lo..hi]`.
fn trimmed_word(buf: &Vec<u8>, lo: usize, hi: usize) -> (r: Vec<u8>)
    requires
        lo <= hi <= buf@.len(),
    ensures
        r@ == wtrim(buf@.subrange(lo as int, hi as int)),
{
    let ghost orig = buf@.subrange(lo as int, hi as int);
    let mut a: usize = lo;
    let mut b: usize = hi;
    while a < b && (buf[a] == 32 || buf[a] == 9 || buf[a] == 13)
        invariant
            lo <= a <= b <= hi <= buf@.len(),
            b == hi,
            wtrim_left(orig) == wtrim_left(buf@.subrange(a as int, b as int)),
        decreases b - a,
    {
        proof {
            let cur = buf@.subrange(a as int, b as int);
            assert(cur[0] == buf@[a as int]);
            assert(cur.drop_first() =~= buf@.subrange(a + 1, b as int));
        }
        a += 1;
    }
    proof {
        let cur = buf@.subrange(a as int, b as int);
        if cur.len() > 0 {
            assert(cur[0] == buf@[a as int]);
        }
        assert(wtrim_left(cur) == cur);
        assert(wtrim(orig) == wtrim_right(cur));
    }
    while a < b && (buf[b - 1] == 32 || buf[b - 1] == 9 || buf[b - 1] == 13)
        invariant
            lo <= a <= b <= hi <= buf@.len(),
            wtrim(orig) == wtrim_right(buf@.subrange(a as int, b as int)),
            wtrim_left(buf@.subrange(a as int, b as int)) == buf@.subrange(a as int, b as int),
        decreases b,
    {
        proof {
            let cur = buf@.subrange(a as int, b as int);
            assert(cur.last() == buf@[b - 1]);
            assert(cur.drop_last() =~= buf@.subrange(a as int, b - 1));
            assert(wtrim_right(cur) == wtrim_right(cur.drop_last()));
            lemma_wtrim_left_drop_last(cur);
        }
        b -= 1;
    }
    proof {
        let cur = buf@.subrange(a as int, b as int);
        if cur.len() > 0 {
            assert(cur.last() == buf@[b - 1]);
        }
        assert(wtrim_right(cur) == cur);
        assert(wtrim(orig) == cur);
    }
    crate::codec::copy_range(buf, a, b)
}

/// Is the word already in the list?
fn list_contains(ws: &Vec<Vec<u8>>, w: &Vec<u8>) -> (r: bool)
    ensures
        r == ws.deep_view().contains(w@),
{
    let mut i: usize = 0;
    let n = ws.len();
    while i < n
        invariant
            i <= n == ws@.len(),
            forall|j: int| 0 <= j < i ==> ws.deep_view()[j] != w@,
        decreases n - i,
    {
        proof {
            assert(ws.deep_view()[i as int] == ws@[i as int].deep_view());
            assert(ws@[i as int].deep_view() =~= ws@[i as int]@);
        }
        if crate::bytes_eq(&ws[i], w) {
            return true;
        }
        i += 1;
    }
    proof {
        assert(!ws.deep_view().contains(w@)) by {
            if ws.deep_view().contains(w@) {
                let j = choose|j: int|
                    0 <= j < ws.deep_view().len() && ws.deep_view()[j] == w@;
                assert(ws.deep_view()[j] != w@);
            }
        }
    }
    false
}

/// Parses word-list text into the dictionary: one candidate per line,
/// trimmed, blank lines ignored, first occurrence kept.
pub fn parse_word_list(content: &Vec<u8>) -> (r: Vec<Vec<u8>>)
    ensures
        r.deep_view() == word_list_spec(content@),
{
    // split and trim
    let mut raw: Vec<Vec<u8>> = Vec::new();
    let n = content.len();
    let mut lo: usize = 0;
    let mut done: bool = false;
    proof {
        assert(raw.deep_view() =~= Seq::<Seq<u8>>::empty());
    }
    while !done
        invariant
            lo <= n == content@.len(),
            words_from_at(content@, 0) == raw.deep_view() + (if !done {
                words_from_at(content@, lo as int)
            } else {
                Seq::<Seq<u8>>::empty()
            }),
        decreases n - lo, (if done { 0int } else { 1int }),
    {
        let ghost raw0 = raw.deep_view();
        match find_nl(content, lo) {
            Option::Some(j) => {
                let w = trimmed_word(content, lo, j);
                if w.len() > 0 {
                    raw.push(w);
                    proof {
                        assert(raw.deep_view() =~~= raw0.push(w@));
                        assert(raw0 + one_word(w@) + words_from_at(content@, j + 1)
                            =~~= raw.deep_view() + words_from_at(content@, j + 1));
                    }
                } else {
                    proof {
                        assert(raw0 + one_word(w@) + words_from_at(content@, j + 1)
                            =~~= raw.deep_view() + words_from_at(content@, j + 1));
                    }
                }
                proof {
                    assert((raw0 + one_word(w@)) + words_from_at(content@, j + 1) =~= raw0 + (
                    one_word(w@) + words_from_at(content@, j + 1)));
                }
                lo = j + 1;
            },
            Option::None => {
                let w = trimmed_word(content, lo, n);
                if w.len() > 0 {
                    raw.push(w);
                    proof {
                        assert(raw.deep_view() =~~= raw0.push(w@));
                        assert(raw0 + one_word(w@) =~~= raw.deep_view());
                    }
                } else {
                    proof {
                        assert(raw0 + one_word(w@) =~~= raw.deep_view());
                    }
                }
                done = true;
            },
        }
    }
    // drop repetitions, keeping the first occurrence
    let ghost ws = raw.deep_view();
    let mut r: Vec<Vec<u8>> = Vec::new();
    let mut k: usize = 0;
    let m = raw.len();
    proof {
        assert(ws.take(0) =~= Seq::<Seq<u8>>::empty());
        assert(r.deep_view() =~= dedup_of(ws.take(0)));
    }
    while k < m
        invariant
            k <= m == raw@.len(),
            ws == raw.deep_view(),
            r.deep_view() == dedup_of(ws.take(k as int)),
        decreases m - k,
    {
        let ghost r0 = r.deep_view();
        proof {
            assert(ws.take(k + 1).drop_last() =~= ws.take(k as int));
            assert(ws.take(k + 1).last() == ws[k as int]);
            assert(ws[k as int] == raw@[k as int].deep_view());
            assert(raw@[k as int].deep_view() =~= raw@[k as int]@);
        }
        let w = &raw[k];
        if !list_contains(&r, w) {
            let cw = crate::codec::copy_range(w, 0, w.len());
            proof {
                assert(cw@ =~= ws[k as int]);
            }
            r.push(cw);
            proof {
                assert(r.deep_view() =~~= r0.push(ws[k as int]));
            }
        }
        k += 1;
    }
    proof {
        assert(ws.take(m as int) =~= ws);
    }
    r
}

} // verus!
