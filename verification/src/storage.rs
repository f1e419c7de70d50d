//! The content-addressed staging area shared by all transfers: one chunk
//! store per file hash.
//!
//! Its model is an association of hash strings to store models, with unique
//! keys. `import` stages a whole file and returns its hash and chunk count;
//! `export` reassembles a complete store and verifies the hash before
//! handing the bytes back.

use vstd::prelude::*;

use crate::errors::ProtocolError;
use crate::hashing::{file_hash, hash_of};
use crate::store::{
    chunks_of, complete, concat_upto, has_chunk, chunk_content, lemma_chunks_of_index,
    lemma_chunks_of_len, lemma_chunks_concat, lemma_staged_complete, missing_spec, put_spec,
    staged, ChunkStore, StoreView, copy_range,
};

verus! {

/// One staged transfer: the file hash and the chunks received for it.
struct StoreEntry {
    hash: String,
    store: ChunkStore,
}

/// The staging area: a chunk store per hash.
pub struct Storage {
    entries: Vec<StoreEntry>,
}

/// Some entry carries the hash `h`.
pub open spec fn contains_hash(s: Seq<(Seq<char>, StoreView)>, h: Seq<char>) -> bool {
    exists|i: int| 0 <= i < s.len() && s[i].0 == h
}

/// The index of the entry carrying `h` (unique in a well-formed staging
/// area).
pub open spec fn key_index(s: Seq<(Seq<char>, StoreView)>, h: Seq<char>) -> int {
    choose|i: int| 0 <= i < s.len() && s[i].0 == h
}

/// The store staged under `h`, if any.
pub open spec fn lookup(s: Seq<(Seq<char>, StoreView)>, h: Seq<char>) -> Option<StoreView> {
    if contains_hash(s, h) {
        Some(s[key_index(s, h)].1)
    } else {
        None
    }
}

/// The store staged under `h`, taking an untouched hash as an empty store.
pub open spec fn lookup_or_empty(s: Seq<(Seq<char>, StoreView)>, h: Seq<char>) -> StoreView {
    match lookup(s, h) {
        Some(st) => st,
        None => Seq::empty(),
    }
}

impl View for Storage {
    type V = Seq<(Seq<char>, StoreView)>;

    closed spec fn view(&self) -> Seq<(Seq<char>, StoreView)> {
        Seq::new(self.entries@.len(), |i: int| (self.entries@[i].hash@, self.entries@[i].store@))
    }
}

impl Storage {
    /// Each hash is staged at most once.
    pub open spec fn wf(&self) -> bool {
        forall|i: int, j: int| 0 <= i < j < self@.len() ==> self@[i].0 != self@[j].0
    }

    /// An empty staging area.
    pub fn new() -> (r: Self)
        ensures
            r@ == Seq::<(Seq<char>, StoreView)>::empty(),
            r.wf(),
    {
        let r = Storage { entries: Vec::new() };
        proof {
            assert(r@ =~= Seq::<(Seq<char>, StoreView)>::empty());
        }
        r
    }

    /// The position of the entry carrying `hash`, if any.
    fn find(&self, hash: &String) -> (r: Option<usize>)
        ensures
            r matches Some(i) ==> i < self@.len() && self@[i as int].0 == hash@,
            r is None ==> !contains_hash(self@, hash@),
    {
        let mut i: usize = 0;
        while i < self.entries.len()
            invariant
                i <= self@.len(),
                forall|j: int| 0 <= j < i ==> self@[j].0 != hash@,
            decreases self@.len() - i,
        {
            if self.entries[i].hash == *hash {
                return Some(i);
            }
            i = i + 1;
        }
        None
    }

    /// Whether anything has ever been staged under `hash`.
    pub fn contains(&self, hash: &String) -> (r: bool)
        ensures
            r == contains_hash(self@, hash@),
    {
        match self.find(hash) {
            Some(i) => {
                proof {
                    assert(contains_hash(self@, hash@));
                }
                true
            },
            None => false,
        }
    }

    /// Durably writes chunk `index` of the transfer `hash`, opening a fresh
    /// store for a hash seen for the first time. Idempotent for identical
    /// bytes, and additive: no other slot and no other hash changes.
    pub fn put(&mut self, hash: &String, index: u32, bytes: Vec<u8>)
        requires
            old(self).wf(),
            index < u32::MAX,
        ensures
            final(self).wf(),
            lookup(final(self)@, hash@) == Some(
                put_spec(lookup_or_empty(old(self)@, hash@), index as int, bytes@),
            ),
            forall|h: Seq<char>| h != hash@ ==> lookup(final(self)@, h) == lookup(old(self)@, h),
    {
        let ghost pre = self@;
        match self.find(hash) {
            Some(i) => {
                proof {
                    lemma_key_at(pre, i as int);
                }
                let entry = &mut self.entries[i];
                entry.store.put(index as usize, bytes);
                proof {
                    assert(self@ =~= pre.update(
                        i as int,
                        (hash@, put_spec(pre[i as int].1, index as int, bytes@)),
                    ));
                    lemma_update_value_keeps_lookup(
                        pre,
                        self@,
                        i as int,
                        put_spec(pre[i as int].1, index as int, bytes@),
                    );
                }
            },
            None => {
                let mut store = ChunkStore::new();
                store.put(index as usize, bytes);
                self.entries.push(StoreEntry { hash: clone_string(hash), store });
                proof {
                    assert(self@ =~= pre.push(
                        (hash@, put_spec(Seq::empty(), index as int, bytes@)),
                    ));
                    lemma_push_new_key(pre, self@, hash@);
                }
            },
        }
    }

    /// Whether chunk `index` of the transfer `hash` has been received.
    pub fn has(&self, hash: &String, index: u32) -> (r: bool)
        requires
            self.wf(),
        ensures
            r == has_chunk(lookup_or_empty(self@, hash@), index as int),
    {
        match self.find(hash) {
            Some(i) => {
                proof {
                    lemma_key_at(self@, i as int);
                }
                self.entries[i].store.has(index as usize)
            },
            None => false,
        }
    }

    /// The ascending list of chunk indices below `num_chunks` still absent
    /// for the transfer `hash`; an untouched hash misses every chunk.
    pub fn missing(&self, hash: &String, num_chunks: u32) -> (r: Vec<u32>)
        requires
            self.wf(),
        ensures
            r@ == missing_spec(lookup_or_empty(self@, hash@), num_chunks as int),
    {
        match self.find(hash) {
            Some(i) => {
                proof {
                    lemma_key_at(self@, i as int);
                }
                self.entries[i].store.missing(num_chunks)
            },
            None => {
                let empty = ChunkStore::new();
                empty.missing(num_chunks)
            },
        }
    }

    /// The bytes of chunk `index` of the transfer `hash`, or the gap that
    /// makes the store incomplete.
    pub fn load(&self, hash: &String, index: u32) -> (r: Result<Vec<u8>, ProtocolError>)
        requires
            self.wf(),
        ensures
            r matches Ok(b) ==> has_chunk(lookup_or_empty(self@, hash@), index as int) && b@
                == chunk_content(lookup_or_empty(self@, hash@), index as int),
            r matches Err(e) ==> !has_chunk(lookup_or_empty(self@, hash@), index as int) && e
                == ProtocolError::MissingChunk,
    {
        match self.find(hash) {
            Some(i) => {
                proof {
                    lemma_key_at(self@, i as int);
                }
                self.entries[i].store.load(index as usize)
            },
            None => Err(ProtocolError::MissingChunk),
        }
    }

    /// Stages a whole file: splits it into chunks, writes every chunk under
    /// the file's hash, and returns the hash with the chunk count. Other
    /// hashes are untouched.
    pub fn import(&mut self, data: &Vec<u8>) -> (r: (String, u32))
        requires
            old(self).wf(),
            chunks_of(data@).len() <= u32::MAX,
        ensures
            final(self).wf(),
            r.0@ == hash_of(data@),
            r.1 == chunks_of(data@).len(),
            lookup(final(self)@, r.0@) == Some(staged(data@)),
            forall|h: Seq<char>| h != r.0@ ==> lookup(final(self)@, h) == lookup(old(self)@, h),
    {
        let ghost pre = self@;
        let hash = file_hash(data);
        let store = stage_chunks(data);
        match self.find(&hash) {
            Some(i) => {
                proof {
                    lemma_key_at(pre, i as int);
                }
                let entry = &mut self.entries[i];
                entry.store = store;
                proof {
                    assert(self@ =~= pre.update(i as int, (hash@, staged(data@))));
                    lemma_update_value_keeps_lookup(pre, self@, i as int, staged(data@));
                }
            },
            None => {
                self.entries.push(StoreEntry { hash: clone_string(&hash), store });
                proof {
                    assert(self@ =~= pre.push((hash@, staged(data@))));
                    lemma_push_new_key(pre, self@, hash@);
                }
            },
        }
        let count = chunk_count(data);
        (hash, count)
    }

    /// Reassembles the transfer `hash` from chunks `0 .. num_chunks` and
    /// verifies the result: the bytes come back only when no chunk is
    /// absent and their hash is the expected one.
    pub fn export(&self, hash: &String, num_chunks: u32) -> (r: Result<Vec<u8>, ProtocolError>)
        requires
            self.wf(),
        ensures
            !complete(lookup_or_empty(self@, hash@), num_chunks as int) ==> r == Err::<
                Vec<u8>,
                ProtocolError,
            >(ProtocolError::MissingChunk),
            complete(lookup_or_empty(self@, hash@), num_chunks as int) && hash_of(
                concat_upto(lookup_or_empty(self@, hash@), num_chunks as int),
            ) == hash@ ==> (r matches Ok(b) && b@ == concat_upto(
                lookup_or_empty(self@, hash@),
                num_chunks as int,
            )),
            complete(lookup_or_empty(self@, hash@), num_chunks as int) && hash_of(
                concat_upto(lookup_or_empty(self@, hash@), num_chunks as int),
            ) != hash@ ==> r == Err::<Vec<u8>, ProtocolError>(ProtocolError::HashMismatch),
    {
        let assembled = match self.find(hash) {
            Some(i) => {
                proof {
                    lemma_key_at(self@, i as int);
                }
                self.entries[i].store.assemble(num_chunks)
            },
            None => {
                let empty = ChunkStore::new();
                empty.assemble(num_chunks)
            },
        };
        match assembled {
            Err(e) => Err(e),
            Ok(bytes) => {
                let check = file_hash(&bytes);
                if check == *hash {
                    Ok(bytes)
                } else {
                    Err(ProtocolError::HashMismatch)
                }
            },
        }
    }
}

/// In a well-formed staging area, an entry holding `h` at position `i` is
/// the entry `lookup` speaks of.
proof fn lemma_key_at(s: Seq<(Seq<char>, StoreView)>, i: int)
    requires
        0 <= i < s.len(),
        forall|p: int, q: int| 0 <= p < q < s.len() ==> s[p].0 != s[q].0,
    ensures
        contains_hash(s, s[i].0),
        key_index(s, s[i].0) == i,
        lookup(s, s[i].0) == Some(s[i].1),
{
    assert(contains_hash(s, s[i].0));
    let j = key_index(s, s[i].0);
    assert(0 <= j < s.len() && s[j].0 == s[i].0);
    if i < j {
        assert(s[i].0 != s[j].0);
    } else if j < i {
        assert(s[j].0 != s[i].0);
    }
}

/// Replacing the store of one entry moves only that hash's lookup.
proof fn lemma_update_value_keeps_lookup(
    pre: Seq<(Seq<char>, StoreView)>,
    post: Seq<(Seq<char>, StoreView)>,
    i: int,
    st: StoreView,
)
    requires
        0 <= i < pre.len(),
        forall|p: int, q: int| 0 <= p < q < pre.len() ==> pre[p].0 != pre[q].0,
        post == pre.update(i, (pre[i].0, st)),
    ensures
        forall|p: int, q: int| 0 <= p < q < post.len() ==> post[p].0 != post[q].0,
        lookup(post, pre[i].0) == Some(st),
        forall|h: Seq<char>| h != pre[i].0 ==> lookup(post, h) == lookup(pre, h),
{
    assert(forall|p: int| 0 <= p < post.len() ==> post[p].0 == pre[p].0);
    lemma_key_at(post, i);
    assert forall|h: Seq<char>| h != pre[i].0 implies lookup(post, h) == lookup(pre, h) by {
        if contains_hash(pre, h) {
            let k = key_index(pre, h);
            assert(post[k].0 == h);
            lemma_key_at(post, k);
            assert(k != i);
            assert(post[k].1 == pre[k].1);
        } else {
            assert(!contains_hash(post, h)) by {
                if contains_hash(post, h) {
                    let k = key_index(post, h);
                    assert(pre[k].0 == h);
                }
            }
        }
    }
}

/// Appending an entry under a hash not yet staged moves only that hash's
/// lookup.
proof fn lemma_push_new_key(
    pre: Seq<(Seq<char>, StoreView)>,
    post: Seq<(Seq<char>, StoreView)>,
    h: Seq<char>,
)
    requires
        forall|p: int, q: int| 0 <= p < q < pre.len() ==> pre[p].0 != pre[q].0,
        !contains_hash(pre, h),
        post.len() == pre.len() + 1,
        post[post.len() - 1].0 == h,
        forall|p: int| 0 <= p < pre.len() ==> post[p] == pre[p],
    ensures
        forall|p: int, q: int| 0 <= p < q < post.len() ==> post[p].0 != post[q].0,
        lookup(post, h) == Some(post[post.len() - 1].1),
        forall|g: Seq<char>| g != h ==> lookup(post, g) == lookup(pre, g),
{
    assert forall|p: int, q: int| 0 <= p < q < post.len() implies post[p].0 != post[q].0 by {
        if q == post.len() - 1 {
            assert(post[p].0 == pre[p].0);
            if post[p].0 == h {
                assert(contains_hash(pre, h));
            }
        }
    }
    lemma_key_at(post, post.len() - 1);
    assert forall|g: Seq<char>| g != h implies lookup(post, g) == lookup(pre, g) by {
        if contains_hash(pre, g) {
            let k = key_index(pre, g);
            assert(post[k].0 == g);
            lemma_key_at(post, k);
        } else {
            assert(!contains_hash(post, g)) by {
                if contains_hash(post, g) {
                    let k = key_index(post, g);
                    assert(k < pre.len() ==> pre[k].0 == g);
                }
            }
        }
    }
}

/// How many chunks a file splits into.
fn chunk_count(data: &Vec<u8>) -> (r: u32)
    requires
        chunks_of(data@).len() <= u32::MAX,
    ensures
        r == chunks_of(data@).len(),
{
    proof {
        lemma_chunks_of_len(data@);
    }
    if data.len() == 0 {
        0
    } else {
        (((data.len() - 1) / crate::CHUNK_SIZE) + 1) as u32
    }
}

/// Splits a file into its chunks and fills a fresh store with all of them.
fn stage_chunks(data: &Vec<u8>) -> (r: ChunkStore)
    requires
        chunks_of(data@).len() <= u32::MAX,
    ensures
        r@ == staged(data@),
{
    let count = chunk_count(data);
    let mut store = ChunkStore::new();
    let mut k: u32 = 0;
    while k < count
        invariant
            k <= count,
            count == chunks_of(data@).len(),
            chunks_of(data@).len() <= u32::MAX,
            store@ == staged(data@).take(k as int),
        decreases count - k,
    {
        proof {
            lemma_chunks_of_len(data@);
            lemma_chunks_of_index(data@, k as int);
            lemma_window_in_range(data@, k as int);
        }
        let dlen = data.len();
        let start = (k as usize) * crate::CHUNK_SIZE;
        let end = if dlen - start > crate::CHUNK_SIZE {
            start + crate::CHUNK_SIZE
        } else {
            dlen
        };
        let chunk = copy_range(data, start, end);
        store.put(k as usize, chunk);
        proof {
            assert(store@ =~= staged(data@).take(k + 1));
        }
        k = k + 1;
    }
    proof {
        assert(staged(data@).take(count as int) =~= staged(data@));
    }
    store
}

/// The `k`-th chunk window of a file lies inside the file.
proof fn lemma_window_in_range(data: Seq<u8>, k: int)
    requires
        0 <= k < chunks_of(data).len(),
    ensures
        k * (crate::CHUNK_SIZE as int) < data.len(),
{
    let c = crate::CHUNK_SIZE as int;
    lemma_chunks_of_len(data);
    let n = data.len() as int;
    vstd::arithmetic::div_mod::lemma_fundamental_div_mod(n - 1, c);
    vstd::arithmetic::div_mod::lemma_mod_pos_bound(n - 1, c);
    assert(k * c <= ((n - 1) / c) * c) by (nonlinear_arith)
        requires
            k <= (n - 1) / c,
            c > 0,
    ;
}

/// A copy of a string, character for character.
pub fn clone_string(s: &String) -> (r: String)
    ensures
        r@ == s@,
{
    s.clone()
}

/// After `import`, the staging area reassembles the very bytes that went
/// in, under the very hash that came back: chunking, staging and ordered
/// concatenation are inverses, and the reassembled file passes the hash
/// check.
pub proof fn lemma_round_trip(data: Seq<u8>)
    ensures
        complete(staged(data), chunks_of(data).len() as int),
        concat_upto(staged(data), chunks_of(data).len() as int) == data,
        hash_of(concat_upto(staged(data), chunks_of(data).len() as int)) == hash_of(data),
{
    lemma_staged_complete(data);
    lemma_chunks_concat(data);
}

} // verus!
