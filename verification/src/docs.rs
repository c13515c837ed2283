use vstd::prelude::*;
use vstd::map::*;

verus! {

// ---------------------------------------------------------------------------
// Document store: the server's synchronized copy of each open document,
// keyed by URI. Its meaning is a map from URI bytes to version and text.
// ---------------------------------------------------------------------------

/// The mathematical content of one synchronized document.
pub struct DocModel {
    pub version: int,
    pub text: Seq<u8>,
}

/// One open document: its URI, the client-supplied version, and the text.
pub struct Document {
    pub uri: Vec<u8>,
    pub version: u64,
    pub text: Vec<u8>,
}

impl Document {
    pub open spec fn model(&self) -> DocModel {
        DocModel { version: self.version as int, text: self.text@ }
    }
}

/// One content change: replace the whole text, or replace the byte range
/// `start..end` (clamped to the text) with the given bytes.
pub enum Edit {
    Full { text: Vec<u8> },
    Range { start: usize, end: usize, text: Vec<u8> },
}

pub open spec fn apply_edit_spec(t: Seq<u8>, e: Edit) -> Seq<u8> {
    match e {
        Edit::Full { text } => text@,
        Edit::Range { start, end, text } => {
            let lo: int = if start as int <= t.len() {
                start as int
            } else {
                t.len() as int
            };
            let hi0: int = if end as int >= start as int {
                end as int
            } else {
                start as int
            };
            let hi: int = if hi0 <= t.len() {
                hi0
            } else {
                t.len() as int
            };
            t.subrange(0, lo) + text@ + t.subrange(hi, t.len() as int)
        },
    }
}

/// Edits apply in array order, each to the result of the previous one.
pub open spec fn apply_edits_spec(t: Seq<u8>, es: Seq<Edit>) -> Seq<u8>
    decreases es.len(),
{
    if es.len() == 0 {
        t
    } else {
        apply_edits_spec(apply_edit_spec(t, es[0]), es.drop_first())
    }
}

/// The map denoted by a sequence of documents; a later entry for the same
/// URI overrides an earlier one.
pub open spec fn map_of(s: Seq<Document>) -> Map<Seq<u8>, DocModel>
    decreases s.len(),
{
    if s.len() == 0 {
        Map::empty()
    } else {
        map_of(s.drop_last()).insert(s.last().uri@, s.last().model())
    }
}

proof fn lemma_map_of_take_step(s: Seq<Document>, j: int)
    requires
        0 <= j < s.len(),
    ensures
        map_of(s.take(j + 1)) == map_of(s.take(j)).insert(s[j].uri@, s[j].model()),
{
    assert(s.take(j + 1).drop_last() =~= s.take(j));
    assert(s.take(j + 1).last() == s[j]);
}

/// The error a document operation reports when the URI is not open.
pub enum DocError {
    DocumentNotFound,
}

/// In-memory map from document URI to the server's view of that document.
pub struct DocStore {
    docs: Vec<Document>,
}

impl DocStore {
    /// What the store holds, as a map from URI bytes to document content.
    pub closed spec fn model(&self) -> Map<Seq<u8>, DocModel> {
        map_of(self.docs@)
    }

    pub fn new() -> (s: Self)
        ensures
            s.model() == Map::<Seq<u8>, DocModel>::empty(),
    {
        DocStore { docs: Vec::new() }
    }

    /// The entry for `uri`, if one is open.
    pub fn lookup(&self, uri: &Vec<u8>) -> (r: Option<&Document>)
        ensures
            match r {
                Option::Some(d) => self.model().dom().contains(uri@) && self.model()[uri@]
                    == d.model() && d.uri@ == uri@,
                Option::None => !self.model().dom().contains(uri@),
            },
    {
        let ghost sq = self.docs@;
        let mut i: usize = self.docs.len();
        proof {
            assert(sq.take(i as int) =~= sq);
        }
        while i > 0
            invariant
                i <= sq.len(),
                sq == self.docs@,
                map_of(sq).dom().contains(uri@) == map_of(sq.take(i as int)).dom().contains(
                    uri@,
                ),
                map_of(sq).dom().contains(uri@) ==> map_of(sq)[uri@] == map_of(
                    sq.take(i as int),
                )[uri@],
            decreases i,
        {
            let j = i - 1;
            proof {
                lemma_map_of_take_step(sq, j as int);
            }
            if crate::bytes_eq(&self.docs[j].uri, uri) {
                return Some(&self.docs[j]);
            }
            i = j;
        }
        proof {
            assert(sq.take(0) =~= Seq::<Document>::empty());
        }
        None
    }

    /// Drops every entry for `uri`, leaving the rest in place.
    fn remove_uri(&mut self, uri: &Vec<u8>)
        ensures
            final(self).model() == old(self).model().remove(uri@),
    {
        let mut out: Vec<Document> = Vec::new();
        let n0 = self.docs.len();
        let ghost s0 = self.docs@;
        let ghost n = s0.len();
        let mut t: usize = 0;
        proof {
            assert(s0.skip(0) =~= s0);
            assert(s0.take(0) =~= Seq::<Document>::empty());
            assert(map_of(out@) =~= map_of(s0.take(0)).remove(uri@));
        }
        while self.docs.len() > 0
            invariant
                t <= n == s0.len(),
                n == n0 as int,
                self.docs@ == s0.skip(t as int),
                map_of(out@) == map_of(s0.take(t as int)).remove(uri@),
            decreases self.docs@.len(),
        {
            let d = self.docs.remove(0);
            proof {
                assert(d == s0[t as int]);
                assert(s0.skip(t as int).drop_first() =~= s0.skip(t + 1));
                lemma_map_of_take_step(s0, t as int);
            }
            if crate::bytes_eq(&d.uri, uri) {
                proof {
                    assert(map_of(s0.take(t + 1)).remove(uri@) =~= map_of(
                        s0.take(t as int),
                    ).remove(uri@));
                }
            } else {
                let ghost out0 = out@;
                out.push(d);
                proof {
                    assert(out@.drop_last() =~= out0);
                    assert(map_of(out@) == map_of(out0).insert(d.uri@, d.model()));
                    assert(map_of(s0.take(t + 1)).remove(uri@) =~= map_of(
                        s0.take(t as int),
                    ).remove(uri@).insert(d.uri@, d.model()));
                }
            }
            t += 1;
        }
        proof {
            assert(s0.take(n as int) =~= s0);
        }
        self.docs = out;
    }

    /// `didOpen`: inserts the document; re-opening an open URI overwrites it.
    pub fn open_doc(&mut self, uri: Vec<u8>, version: u64, text: Vec<u8>)
        ensures
            final(self).model() == old(self).model().insert(
                uri@,
                DocModel { version: version as int, text: text@ },
            ),
    {
        self.remove_uri(&uri);
        let ghost mid = self.docs@;
        let d = Document { uri, version, text };
        self.docs.push(d);
        proof {
            assert(self.docs@.drop_last() =~= mid);
            assert(self.model() =~= old(self).model().insert(
                d.uri@,
                DocModel { version: version as int, text: text@ },
            ));
        }
    }

    /// `didChange`: applies the edits in order to the stored text and takes
    /// the client-supplied version; fails if the URI is not open.
    pub fn change_doc(&mut self, uri: &Vec<u8>, version: u64, edits: &Vec<Edit>) -> (r: Result<
        (),
        DocError,
    >)
        ensures
            old(self).model().dom().contains(uri@) ==> r is Ok && final(self).model() == old(
                self,
            ).model().insert(
                uri@,
                DocModel {
                    version: version as int,
                    text: apply_edits_spec(old(self).model()[uri@].text, edits@),
                },
            ),
            !old(self).model().dom().contains(uri@) ==> (r matches Result::Err(
                DocError::DocumentNotFound,
            ) && *final(self) == *old(self)),
    {
        let found = match self.lookup(uri) {
            Option::Some(d) => Some(apply_edits(&d.text, edits)),
            Option::None => None,
        };
        match found {
            Option::Some(text) => {
                let u = crate::codec::copy_range(uri, 0, uri.len());
                proof {
                    assert(u@ =~= uri@);
                }
                self.open_doc(u, version, text);
                Ok(())
            },
            Option::None => Err(DocError::DocumentNotFound),
        }
    }

    /// `didSave`: succeeds exactly when the URI is open; the store is not
    /// changed (the client's text is already the synchronized text).
    pub fn save_doc(&self, uri: &Vec<u8>) -> (r: Result<(), DocError>)
        ensures
            self.model().dom().contains(uri@) ==> r is Ok,
            !self.model().dom().contains(uri@) ==> r matches Result::Err(
                DocError::DocumentNotFound,
            ),
    {
        match self.lookup(uri) {
            Option::Some(_) => Ok(()),
            Option::None => Err(DocError::DocumentNotFound),
        }
    }

    /// `didClose`: removes the entry; fails if the URI is not open.
    pub fn close_doc(&mut self, uri: &Vec<u8>) -> (r: Result<(), DocError>)
        ensures
            old(self).model().dom().contains(uri@) ==> r is Ok && final(self).model() == old(
                self,
            ).model().remove(uri@),
            !old(self).model().dom().contains(uri@) ==> (r matches Result::Err(
                DocError::DocumentNotFound,
            ) && *final(self) == *old(self)),
    {
        match self.lookup(uri) {
            Option::Some(_) => {
                self.remove_uri(uri);
                Ok(())
            },
            Option::None => Err(DocError::DocumentNotFound),
        }
    }
}

/// Appends `src[lo..hi]` to `dst`.
fn append_range(dst: &mut Vec<u8>, src: &Vec<u8>, lo: usize, hi: usize)
    requires
        lo <= hi <= src@.len(),
    ensures
        final(dst)@ == old(dst)@ + src@.subrange(lo as int, hi as int),
{
    let mut i: usize = lo;
    while i < hi
        invariant
            lo <= i <= hi <= src@.len(),
            dst@ == old(dst)@ + src@.subrange(lo as int, i as int),
        decreases hi - i,
    {
        dst.push(src[i]);
        proof {
            assert(dst@ =~= old(dst)@ + src@.subrange(lo as int, i + 1));
        }
        i += 1;
    }
    proof {
        assert(old(dst)@ + src@.subrange(lo as int, lo as int) =~= old(dst)@);
    }
}

/// Applies one edit to a text.
pub fn apply_edit(t: &Vec<u8>, e: &Edit) -> (r: Vec<u8>)
    ensures
        r@ == apply_edit_spec(t@, *e),
{
    match e {
        Edit::Full { text } => {
            let mut r: Vec<u8> = Vec::new();
            append_range(&mut r, text, 0, text.len());
            proof {
                assert(r@ =~= text@);
            }
            r
        },
        Edit::Range { start, end, text } => {
            let len = t.len();
            let lo = if *start <= len {
                *start
            } else {
                len
            };
            let hi0 = if *end >= *start {
                *end
            } else {
                *start
            };
            let hi = if hi0 <= len {
                hi0
            } else {
                len
            };
            let mut r: Vec<u8> = Vec::new();
            append_range(&mut r, t, 0, lo);
            append_range(&mut r, text, 0, text.len());
            append_range(&mut r, t, hi, len);
            proof {
                assert(text@.subrange(0, text@.len() as int) =~= text@);
                assert(r@ =~= apply_edit_spec(t@, *e));
            }
            r
        },
    }
}

/// Applies a list of edits in array order.
pub fn apply_edits(t: &Vec<u8>, es: &Vec<Edit>) -> (r: Vec<u8>)
    ensures
        r@ == apply_edits_spec(t@, es@),
{
    let mut cur = crate::codec::copy_range(t, 0, t.len());
    proof {
        assert(cur@ =~= t@);
        assert(es@.subrange(0, es@.len() as int) =~= es@);
    }
    let mut k: usize = 0;
    let n = es.len();
    while k < n
        invariant
            k <= n == es@.len(),
            apply_edits_spec(t@, es@) == apply_edits_spec(
                cur@,
                es@.subrange(k as int, n as int),
            ),
        decreases n - k,
    {
        let ghost tail = es@.subrange(k as int, n as int);
        proof {
            assert(tail[0] == es@[k as int]);
            assert(tail.drop_first() =~= es@.subrange(k + 1, n as int));
        }
        cur = apply_edit(&cur, &es[k]);
        k += 1;
    }
    proof {
        assert(es@.subrange(n as int, n as int) =~= Seq::<Edit>::empty());
    }
    cur
}


/// Law of the document lifecycle: a URI that is opened, then changed, then
/// closed is no longer in the store, so the store's own contracts make any
/// later change or save on it report "document not found".
pub proof fn lemma_open_change_close_gone(
    m0: Map<Seq<u8>, DocModel>,
    u: Seq<u8>,
    v1: int,
    t1: Seq<u8>,
    v2: int,
    es: Seq<Edit>,
)
    ensures
        ({
            let opened = m0.insert(u, DocModel { version: v1, text: t1 });
            let changed = opened.insert(
                u,
                DocModel { version: v2, text: apply_edits_spec(opened[u].text, es) },
            );
            let closed = changed.remove(u);
            &&& opened.dom().contains(u)
            &&& changed.dom().contains(u)
            &&& !closed.dom().contains(u)
        }),
{
}

} // verus!
