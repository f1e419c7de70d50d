//! The staging store of one transfer: one slot per chunk index, filled as
//! chunks arrive, reassembled in ascending order once no gap is left.
//!
//! The model of a store is a sequence of optional byte sequences; slot `i`
//! holds chunk `i` once it has been received. Splitting a file into chunks
//! and concatenating a complete store back are specified here, together with
//! the laws the transfer protocol rests on: writes are idempotent and
//! commute across distinct indices, the gap list enumerates exactly the
//! absent indices in ascending order, and reassembling a freshly staged file
//! yields the file.

use vstd::prelude::*;

use crate::errors::ProtocolError;

verus! {

/// The model of one transfer's store.
pub type StoreView = Seq<Option<Seq<u8>>>;

/// Slot `i` holds a chunk.
pub open spec fn has_chunk(s: StoreView, i: int) -> bool {
    0 <= i < s.len() && s[i] is Some
}

/// The bytes in slot `i`, empty when the slot is vacant.
pub open spec fn chunk_content(s: StoreView, i: int) -> Seq<u8> {
    if has_chunk(s, i) {
        s[i].unwrap()
    } else {
        Seq::empty()
    }
}

/// The store extended with vacant slots until it covers `n` of them.
pub open spec fn padded(s: StoreView, n: int) -> StoreView {
    if n <= s.len() {
        s
    } else {
        s + Seq::new((n - s.len()) as nat, |i: int| None)
    }
}

/// The store after chunk `i` is written with `b`.
pub open spec fn put_spec(s: StoreView, i: int, b: Seq<u8>) -> StoreView {
    padded(s, i + 1).update(i, Some(b))
}

/// Every slot below `n` is filled.
pub open spec fn complete(s: StoreView, n: int) -> bool {
    forall|i: int| 0 <= i < n ==> has_chunk(s, i)
}

/// The ascending list of vacant indices below `n`.
pub open spec fn missing_spec(s: StoreView, n: int) -> Seq<u32>
    decreases n,
{
    if n <= 0 {
        Seq::empty()
    } else if has_chunk(s, n - 1) {
        missing_spec(s, n - 1)
    } else {
        missing_spec(s, n - 1).push((n - 1) as u32)
    }
}

/// The concatenation of the first `n` chunks in ascending index order.
pub open spec fn concat_upto(s: StoreView, n: int) -> Seq<u8>
    decreases n,
{
    if n <= 0 {
        Seq::empty()
    } else {
        concat_upto(s, n - 1) + chunk_content(s, n - 1)
    }
}

/// A file's bytes split into chunks: every chunk holds `CHUNK_SIZE` bytes
/// except the last, which holds the remainder. An empty file has no chunks.
pub open spec fn chunks_of(data: Seq<u8>) -> Seq<Seq<u8>>
    decreases data.len(),
{
    if data.len() == 0 {
        Seq::empty()
    } else if data.len() <= crate::CHUNK_SIZE {
        seq![data]
    } else {
        seq![data.take(crate::CHUNK_SIZE as int)] + chunks_of(
            data.skip(crate::CHUNK_SIZE as int),
        )
    }
}

/// How many chunks a file splits into: one per full window, one more for a
/// remainder.
pub proof fn lemma_chunks_of_len(data: Seq<u8>)
    ensures
        chunks_of(data).len() == if data.len() == 0 {
            0int
        } else {
            (data.len() - 1) / (crate::CHUNK_SIZE as int) + 1
        },
    decreases data.len(),
{
    let c = crate::CHUNK_SIZE as int;
    if data.len() > crate::CHUNK_SIZE {
        let tail = data.skip(c);
        lemma_chunks_of_len(tail);
        assert((data.len() - 1) == (tail.len() - 1) + c);
        assert(((tail.len() - 1) + c) / c == (tail.len() - 1) / c + 1) by {
            let x = tail.len() - 1;
            vstd::arithmetic::div_mod::lemma_fundamental_div_mod(x, c);
            vstd::arithmetic::div_mod::lemma_mod_pos_bound(x, c);
            assert(x + c == (x / c + 1) * c + (x % c)) by (nonlinear_arith)
                requires
                    x == (x / c) * c + (x % c),
            ;
            vstd::arithmetic::div_mod::lemma_fundamental_div_mod_converse(
                x + c,
                c,
                x / c + 1,
                x % c,
            );
        }
    }
}

/// Chunk `k` of a file holds the bytes of its `k`-th window.
pub proof fn lemma_chunks_of_index(data: Seq<u8>, k: int)
    requires
        0 <= k < chunks_of(data).len(),
    ensures
        chunks_of(data)[k] == data.subrange(
            k * (crate::CHUNK_SIZE as int),
            if (k + 1) * (crate::CHUNK_SIZE as int) <= data.len() {
                (k + 1) * (crate::CHUNK_SIZE as int)
            } else {
                data.len() as int
            },
        ),
    decreases data.len(),
{
    let c = crate::CHUNK_SIZE as int;
    if data.len() <= crate::CHUNK_SIZE {
        assert(data.subrange(0, data.len() as int) =~= data);
    } else if k == 0 {
        assert(data.take(c) =~= data.subrange(0, c));
    } else {
        let tail = data.skip(c);
        lemma_chunks_of_index(tail, k - 1);
        let hi = if k * c <= tail.len() {
            k * c
        } else {
            tail.len() as int
        };
        let n = tail.len() as int;
        lemma_chunks_of_len(tail);
        assert((k - 1) * c <= n - 1) by {
            vstd::arithmetic::div_mod::lemma_fundamental_div_mod(n - 1, c);
            vstd::arithmetic::div_mod::lemma_mod_pos_bound(n - 1, c);
            assert((k - 1) * c <= ((n - 1) / c) * c) by (nonlinear_arith)
                requires
                    k - 1 <= (n - 1) / c,
                    c > 0,
            ;
        }
        assert(chunks_of(data)[k] == chunks_of(tail)[k - 1]);
        assert(tail.subrange((k - 1) * c, hi) =~= data.subrange((k - 1) * c + c, hi + c));
        assert((k - 1) * c + c == k * c);
        assert(hi + c == if (k + 1) * c <= data.len() {
            (k + 1) * c
        } else {
            data.len() as int
        });
    }
}

/// The store that holds every chunk of a file.
pub open spec fn staged(data: Seq<u8>) -> StoreView {
    Seq::new(chunks_of(data).len(), |i: int| Some(chunks_of(data)[i]))
}

/// Writing a chunk twice with the same bytes leaves the store exactly as one
/// write leaves it.
pub proof fn lemma_put_idempotent(s: StoreView, i: int, b: Seq<u8>)
    requires
        0 <= i,
    ensures
        put_spec(put_spec(s, i, b), i, b) == put_spec(s, i, b),
{
    assert(put_spec(put_spec(s, i, b), i, b) =~= put_spec(s, i, b));
}

/// Writes to distinct indices commute: chunks may arrive in any order.
pub proof fn lemma_put_commutes(s: StoreView, i: int, j: int, b: Seq<u8>, c: Seq<u8>)
    requires
        0 <= i,
        0 <= j,
        i != j,
    ensures
        put_spec(put_spec(s, i, b), j, c) == put_spec(put_spec(s, j, c), i, b),
{
    assert(put_spec(put_spec(s, i, b), j, c) =~= put_spec(put_spec(s, j, c), i, b));
}

/// The gap list holds exactly the vacant indices below `n`, in ascending
/// order.
pub proof fn lemma_missing_spec_correct(s: StoreView, n: int)
    requires
        0 <= n <= u32::MAX + 1,
    ensures
        forall|x: u32| missing_spec(s, n).contains(x) <==> (x < n && !has_chunk(s, x as int)),
        forall|p: int, q: int|
            0 <= p < q < missing_spec(s, n).len() ==> missing_spec(s, n)[p] < missing_spec(
                s,
                n,
            )[q],
        forall|p: int| 0 <= p < missing_spec(s, n).len() ==> missing_spec(s, n)[p] < n,
    decreases n,
{
    if n > 0 {
        lemma_missing_spec_correct(s, n - 1);
        let prev = missing_spec(s, n - 1);
        let cur = missing_spec(s, n);
        assert forall|x: u32| cur.contains(x) implies (x < n && !has_chunk(s, x as int)) by {
            let k = choose|k: int| 0 <= k < cur.len() && cur[k] == x;
            if k < prev.len() {
                assert(prev[k] == x);
                assert(prev.contains(x));
            }
        }
        assert forall|x: u32| (x < n && !has_chunk(s, x as int)) implies cur.contains(x) by {
            if x < n - 1 {
                assert(prev.contains(x));
                let k = choose|k: int| 0 <= k < prev.len() && prev[k] == x;
                assert(cur[k] == x);
            } else {
                assert(!has_chunk(s, n - 1));
                assert(cur[cur.len() - 1] == x);
            }
        }
    }
}

/// Concatenation past a first chunk: one chunk in front shifts the window.
proof fn lemma_concat_upto_prepend(v: Seq<u8>, s: StoreView, n: int)
    requires
        0 <= n,
    ensures
        concat_upto(seq![Some(v)] + s, n + 1) == v + concat_upto(s, n),
    decreases n,
{
    let c = seq![Some(v)] + s;
    if n == 0 {
        assert(c[0] == Some(v));
        assert(chunk_content(c, 0) == v);
        assert(concat_upto(c, 0) == Seq::<u8>::empty());
        assert(concat_upto(s, 0) == Seq::<u8>::empty());
        assert(concat_upto(c, 1) =~= v + concat_upto(s, 0));
    } else {
        lemma_concat_upto_prepend(v, s, n - 1);
        assert(chunk_content(c, n) == chunk_content(s, n - 1));
        assert((v + concat_upto(s, n - 1)) + chunk_content(s, n - 1) =~= v + concat_upto(s, n));
    }
}

/// Reassembling a freshly staged file yields the file: chunking and ordered
/// concatenation are inverses.
pub proof fn lemma_chunks_concat(data: Seq<u8>)
    ensures
        concat_upto(staged(data), chunks_of(data).len() as int) == data,
    decreases data.len(),
{
    if data.len() == 0 {
        assert(concat_upto(staged(data), 0) =~= data);
    } else if data.len() <= crate::CHUNK_SIZE {
        assert(chunks_of(data) == seq![data]);
        assert(staged(data) =~= seq![Some(data)]);
        assert(chunk_content(staged(data), 0) == data);
        assert(concat_upto(staged(data), 0) == Seq::<u8>::empty());
        assert(concat_upto(staged(data), 1) =~= data);
    } else {
        let head = data.take(crate::CHUNK_SIZE as int);
        let tail = data.skip(crate::CHUNK_SIZE as int);
        lemma_chunks_concat(tail);
        assert(staged(data) =~= seq![Some(head)] + staged(tail));
        lemma_concat_upto_prepend(head, staged(tail), chunks_of(tail).len() as int);
        assert(head + tail =~= data);
    }
}

/// A freshly staged file has no gaps.
pub proof fn lemma_staged_complete(data: Seq<u8>)
    ensures
        complete(staged(data), chunks_of(data).len() as int),
{
}

/// A store after a sequence of chunk writes, first write first.
pub open spec fn apply_deliveries(s: StoreView, ds: Seq<(u32, Seq<u8>)>) -> StoreView
    decreases ds.len(),
{
    if ds.len() == 0 {
        s
    } else {
        apply_deliveries(put_spec(s, ds.first().0 as int, ds.first().1), ds.drop_first())
    }
}

/// Every delivery carries a true chunk of the file.
pub open spec fn deliveries_of(ds: Seq<(u32, Seq<u8>)>, data: Seq<u8>) -> bool {
    forall|k: int|
        0 <= k < ds.len() ==> ds[k].0 < chunks_of(data).len() && ds[k].1 == chunks_of(data)[
            ds[k].0 as int
        ]
}

/// Only true chunks of the file are in the store, and nothing past its
/// chunk count.
pub open spec fn only_true_chunks(s: StoreView, data: Seq<u8>) -> bool {
    s.len() <= chunks_of(data).len() && forall|i: int|
        has_chunk(s, i) ==> s[i] == Some(chunks_of(data)[i])
}

/// Writing true chunks of a file, in any order and with any repetitions,
/// only ever fills slots with their true chunk and never unfills one.
proof fn lemma_apply_deliveries_sound(s: StoreView, ds: Seq<(u32, Seq<u8>)>, data: Seq<u8>)
    requires
        deliveries_of(ds, data),
        only_true_chunks(s, data),
    ensures
        only_true_chunks(apply_deliveries(s, ds), data),
        forall|i: int| has_chunk(s, i) ==> has_chunk(apply_deliveries(s, ds), i),
        forall|k: int|
            0 <= k < ds.len() ==> has_chunk(apply_deliveries(s, ds), ds[k].0 as int),
    decreases ds.len(),
{
    if ds.len() > 0 {
        let i = ds.first().0 as int;
        let s1 = put_spec(s, i, ds.first().1);
        assert(only_true_chunks(s1, data)) by {
            assert forall|j: int| has_chunk(s1, j) implies s1[j] == Some(chunks_of(data)[j]) by {
                if j != i {
                    assert(s1[j] == padded(s, i + 1)[j]);
                }
            }
        }
        assert forall|j: int| has_chunk(s, j) implies has_chunk(s1, j) by {
            assert(padded(s, i + 1)[j] == s[j]);
        }
        assert(has_chunk(s1, i));
        lemma_apply_deliveries_sound(s1, ds.drop_first(), data);
        assert forall|k: int|
            0 <= k < ds.len() implies has_chunk(apply_deliveries(s, ds), ds[k].0 as int) by {
            if k > 0 {
                assert(ds.drop_first()[k - 1] == ds[k]);
            }
        }
    }
}

/// Some delivery writes chunk `i`.
pub open spec fn covers(ds: Seq<(u32, Seq<u8>)>, i: int) -> bool {
    exists|k: int| 0 <= k < ds.len() && #[trigger] ds[k].0 == i
}

/// Chunks delivered in any order, with any duplicates, produce the same
/// final file: a delivery sequence that carries true chunks and covers
/// every index leaves a store that reassembles to the file.
pub proof fn lemma_any_order_delivery(ds: Seq<(u32, Seq<u8>)>, data: Seq<u8>)
    requires
        deliveries_of(ds, data),
        forall|i: int| 0 <= i < chunks_of(data).len() ==> #[trigger] covers(ds, i),
    ensures
        concat_upto(
            apply_deliveries(Seq::empty(), ds),
            chunks_of(data).len() as int,
        ) == data,
{
    let count = chunks_of(data).len() as int;
    let post = apply_deliveries(Seq::empty(), ds);
    lemma_apply_deliveries_sound(Seq::empty(), ds, data);
    assert forall|i: int| 0 <= i < count implies has_chunk(post, i) by {
        assert(covers(ds, i));
        let k = choose|k: int| 0 <= k < ds.len() && #[trigger] ds[k].0 == i;
        assert(has_chunk(post, ds[k].0 as int));
    }
    assert(post.len() == count) by {
        assert(has_chunk(post, count - 1) || count == 0);
    }
    assert(post =~= staged(data));
    lemma_chunks_concat(data);
}

/// Chunks delivered in any order produce the same final file: the store a
/// delivery sequence leaves behind is determined by which indices were
/// written (writes commute, by `lemma_put_commutes`), and any store whose
/// slots all hold their file's chunk reassembles to the file.
pub proof fn lemma_reorder_tolerance(st: StoreView, data: Seq<u8>)
    requires
        st.len() == chunks_of(data).len(),
        forall|i: int| 0 <= i < st.len() ==> st[i] == Some(chunks_of(data)[i]),
    ensures
        concat_upto(st, chunks_of(data).len() as int) == data,
{
    assert(st =~= staged(data));
    lemma_chunks_concat(data);
}

/// The staging store of one transfer.
pub struct ChunkStore {
    chunks: Vec<Option<Vec<u8>>>,
}

/// The model of a vector of received chunks: each slot's bytes, by index.
spec fn deep_of(v: Seq<Option<Vec<u8>>>) -> StoreView {
    Seq::new(v.len(), |i: int| v[i].deep_view())
}

/// Appending a vacant slot appends a vacant slot to the model.
proof fn lemma_deep_of_push_none(v: Seq<Option<Vec<u8>>>)
    ensures
        deep_of(v.push(None)) == deep_of(v).push(None),
{
    assert(deep_of(v.push(None)) =~= deep_of(v).push(None));
}

/// Overwriting one slot overwrites that slot of the model.
proof fn lemma_deep_of_update(v: Seq<Option<Vec<u8>>>, i: int, b: Vec<u8>)
    requires
        0 <= i < v.len(),
    ensures
        deep_of(v.update(i, Some(b))) == deep_of(v).update(i, Some(b@)),
{
    assert(b.deep_view() =~= b@);
    assert(deep_of(v.update(i, Some(b))) =~= deep_of(v).update(i, Some(b@)));
}

impl View for ChunkStore {
    type V = StoreView;

    closed spec fn view(&self) -> StoreView {
        deep_of(self.chunks@)
    }
}

impl ChunkStore {
    /// An empty store: nothing received yet.
    pub fn new() -> (r: Self)
        ensures
            r@ == Seq::<Option<Seq<u8>>>::empty(),
    {
        let r = ChunkStore { chunks: Vec::new() };
        proof {
            assert(r@ =~= Seq::<Option<Seq<u8>>>::empty());
        }
        r
    }

    /// Durably writes chunk `index`; overwrites any earlier bytes at that
    /// index and leaves every other slot untouched.
    pub fn put(&mut self, index: usize, bytes: Vec<u8>)
        requires
            index < usize::MAX,
        ensures
            final(self)@ == put_spec(old(self)@, index as int, bytes@),
    {
        let ghost s0 = self@;
        while self.chunks.len() <= index
            invariant
                index < usize::MAX,
                deep_of(self.chunks@) == padded(s0, self.chunks@.len() as int),
                s0.len() <= self.chunks@.len(),
                self.chunks@.len() <= index + 1 || self.chunks@.len() == s0.len(),
            decreases index + 1 - self.chunks.len(),
        {
            let ghost pre = self.chunks@;
            self.chunks.push(None);
            proof {
                lemma_deep_of_push_none(pre);
                assert(deep_of(self.chunks@) =~= padded(s0, self.chunks@.len() as int));
            }
        }
        let ghost mid = self.chunks@;
        self.chunks[index] = Some(bytes);
        proof {
            lemma_deep_of_update(mid, index as int, bytes);
            assert(self@ =~= put_spec(s0, index as int, bytes@));
        }
    }

    /// Whether chunk `index` has been received.
    pub fn has(&self, index: usize) -> (r: bool)
        ensures
            r == has_chunk(self@, index as int),
    {
        if index < self.chunks.len() {
            self.chunks[index].is_some()
        } else {
            false
        }
    }

    /// A borrow of chunk `index`, when present.
    pub fn get(&self, index: usize) -> (r: Option<&Vec<u8>>)
        ensures
            r matches Some(b) ==> has_chunk(self@, index as int) && b@ == chunk_content(
                self@,
                index as int,
            ),
            r is None ==> !has_chunk(self@, index as int),
    {
        if index < self.chunks.len() {
            match &self.chunks[index] {
                Some(b) => Some(b),
                None => None,
            }
        } else {
            None
        }
    }

    /// The ascending list of chunk indices below `num_chunks` still absent;
    /// an empty list means the store is complete.
    pub fn missing(&self, num_chunks: u32) -> (r: Vec<u32>)
        ensures
            r@ == missing_spec(self@, num_chunks as int),
    {
        let mut out: Vec<u32> = Vec::new();
        let mut i: u32 = 0;
        while i < num_chunks
            invariant
                i <= num_chunks,
                out@ == missing_spec(self@, i as int),
            decreases num_chunks - i,
        {
            if !self.has(i as usize) {
                out.push(i);
            }
            i = i + 1;
        }
        out
    }

    /// The bytes of chunk `index`, or the gap that makes the store
    /// incomplete.
    pub fn load(&self, index: usize) -> (r: Result<Vec<u8>, ProtocolError>)
        ensures
            r matches Ok(b) ==> has_chunk(self@, index as int) && b@ == chunk_content(
                self@,
                index as int,
            ),
            r matches Err(e) ==> !has_chunk(self@, index as int) && e
                == ProtocolError::MissingChunk,
    {
        match self.get(index) {
            Some(b) => Ok(copy_bytes(b)),
            None => Err(ProtocolError::MissingChunk),
        }
    }

    /// Concatenates chunks `0 .. num_chunks` in ascending order, or reports
    /// the first gap.
    pub fn assemble(&self, num_chunks: u32) -> (r: Result<Vec<u8>, ProtocolError>)
        ensures
            r matches Ok(b) ==> complete(self@, num_chunks as int) && b@ == concat_upto(
                self@,
                num_chunks as int,
            ),
            r matches Err(e) ==> !complete(self@, num_chunks as int) && e
                == ProtocolError::MissingChunk,
    {
        let mut out: Vec<u8> = Vec::new();
        let mut i: u32 = 0;
        while i < num_chunks
            invariant
                i <= num_chunks,
                complete(self@, i as int),
                out@ == concat_upto(self@, i as int),
            decreases num_chunks - i,
        {
            match self.get(i as usize) {
                None => {
                    return Err(ProtocolError::MissingChunk);
                },
                Some(b) => {
                    let mut j: usize = 0;
                    while j < b.len()
                        invariant
                            j <= b@.len(),
                            out@ == concat_upto(self@, i as int) + b@.take(j as int),
                        decreases b@.len() - j,
                    {
                        out.push(b[j]);
                        proof {
                            assert(out@ =~= concat_upto(self@, i as int) + b@.take(j + 1));
                        }
                        j = j + 1;
                    }
                    proof {
                        assert(b@.take(b@.len() as int) =~= b@);
                        assert(out@ =~= concat_upto(self@, i as int + 1));
                    }
                },
            }
            i = i + 1;
        }
        Ok(out)
    }

    /// How many slots the store covers (received or vacant).
    pub fn slot_count(&self) -> (r: usize)
        ensures
            r == self@.len(),
    {
        self.chunks.len()
    }
}

/// A copy of the bytes of `src` between `start` and `end`.
pub fn copy_range(src: &Vec<u8>, start: usize, end: usize) -> (r: Vec<u8>)
    requires
        start <= end <= src@.len(),
    ensures
        r@ == src@.subrange(start as int, end as int),
{
    let mut out: Vec<u8> = Vec::new();
    let mut i: usize = start;
    while i < end
        invariant
            start <= i <= end <= src@.len(),
            out@ == src@.subrange(start as int, i as int),
        decreases end - i,
    {
        out.push(src[i]);
        proof {
            assert(out@ =~= src@.subrange(start as int, i + 1));
        }
        i = i + 1;
    }
    out
}

/// A copy of a byte vector, made slot by slot.
pub fn copy_bytes(src: &Vec<u8>) -> (r: Vec<u8>)
    ensures
        r@ == src@,
{
    let mut out: Vec<u8> = Vec::new();
    let mut i: usize = 0;
    while i < src.len()
        invariant
            i <= src@.len(),
            out@ == src@.take(i as int),
        decreases src@.len() - i,
    {
        out.push(src[i]);
        proof {
            assert(out@ =~= src@.take(i + 1));
        }
        i = i + 1;
    }
    proof {
        assert(src@.take(src@.len() as int) =~= src@);
    }
    out
}

} // verus!
