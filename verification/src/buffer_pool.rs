//! A pool of zero-initialised byte buffers, one per size, handed out as
//! fixed-length slices so that every kept buffer keeps its size.
use vstd::prelude::*;
use std::collections::HashMap;
use std::collections::hash_map::Entry;

verus! {

/// `size` zero bytes.
pub open spec fn zeroed(size: nat) -> Seq<u8> {
    Seq::new(size, |i: int| 0u8)
}

/// The buffer that a request for `size` hands out from a pool holding `pool`:
/// the one kept for that size, or `size` fresh zero bytes.
pub open spec fn pooled_buffer(pool: Map<usize, Seq<u8>>, size: usize) -> Seq<u8> {
    if pool.contains_key(size) {
        pool[size]
    } else {
        zeroed(size as nat)
    }
}

/// A read after a write gives back what was written: once the buffer handed
/// out for `size` has been left holding `written`, the next request for
/// `size` hands out `written`, and requests for other sizes are unaffected.
pub proof fn lemma_pool_read_after_write(pool: Map<usize, Seq<u8>>, size: usize, written: Seq<u8>, other: usize)
    ensures
        pooled_buffer(pool.insert(size, written), size) == written,
        other != size ==> pooled_buffer(pool.insert(size, written), other) == pooled_buffer(pool, other),
{
}

/// The pool after a run of requests, each given as the size asked for and the
/// bytes the caller left in the buffer handed out for it.
pub open spec fn pool_after_requests(pool: Map<usize, Seq<u8>>, requests: Seq<(usize, Seq<u8>)>) -> Map<usize, Seq<u8>>
    decreases requests.len(),
{
    if requests.len() == 0 {
        pool
    } else {
        let (size, written) = requests.last();
        pool_after_requests(pool, requests.drop_last()).insert(size, written)
    }
}

/// Whatever was left in the buffer for `size`, any run of requests for other
/// sizes keeps it there: the next request for `size` hands it out again,
/// unchanged and of the same length.
pub proof fn lemma_pool_keeps_buffer_across_requests(
    pool: Map<usize, Seq<u8>>,
    size: usize,
    written: Seq<u8>,
    requests: Seq<(usize, Seq<u8>)>,
)
    requires
        forall|i: int| 0 <= i < requests.len() ==> (#[trigger] requests[i]).0 != size,
    ensures
        pooled_buffer(pool_after_requests(pool.insert(size, written), requests), size) == written,
    decreases requests.len(),
{
    if requests.len() > 0 {
        let shorter = requests.drop_last();
        assert forall|i: int| 0 <= i < shorter.len() implies (#[trigger] shorter[i]).0 != size by {
            assert(shorter[i] == requests[i]);
        }
        lemma_pool_keeps_buffer_across_requests(pool, size, written, shorter);
        assert(requests.last() == requests[requests.len() - 1]);
    }
}

/// A first request for a size hands out that many zero bytes.
pub proof fn lemma_pool_fresh_buffer_is_zeroed(pool: Map<usize, Seq<u8>>, size: usize)
    requires
        !pool.contains_key(size),
    ensures
        pooled_buffer(pool, size).len() == size,
        forall|i: int| 0 <= i < size ==> #[trigger] pooled_buffer(pool, size)[i] == 0,
{
}


/// Byte buffers kept by size, reused across frames.
pub struct BufferPool {
    buffers_pool: HashMap<usize, Vec<u8>>,
}

impl View for BufferPool {
    type V = Map<usize, Seq<u8>>;

    /// The contents of each kept buffer, by the size it was made for.
    closed spec fn view(&self) -> Map<usize, Seq<u8>> {
        self.buffers_pool@.map_values(|v: Vec<u8>| v@)
    }
}

impl BufferPool {
    /// Every kept buffer has the size it was made for.
    pub open spec fn wf(&self) -> bool {
        forall|k: usize| self@.contains_key(k) ==> (#[trigger] self@[k]).len() == k
    }

    /// An empty pool.
    pub fn new() -> (pool: Self)
        ensures
            pool@ == Map::<usize, Seq<u8>>::empty(),
            pool.wf(),
    {
        let pool = BufferPool { buffers_pool: HashMap::new() };
        assert(pool@ =~= Map::<usize, Seq<u8>>::empty());
        pool
    }

    /// The buffer kept for `size` as a slice of `size` bytes, made zeroed the
    /// first time that size is asked for; what the caller writes into it is
    /// kept for the next request of the same size.
    pub fn get_buffer(&mut self, size: usize) -> (buf: &mut [u8])
        ensures
            buf@ == pooled_buffer(old(self)@, size),
            old(self).wf() ==> buf@.len() == size,
            final(self)@ == old(self)@.insert(size, final(buf)@),
            old(self).wf() && final(buf)@.len() == size ==> final(self).wf(),
    {
        broadcast use vstd::std_specs::hash::group_hash_axioms;
        let buffer = match self.buffers_pool.entry(size) {
            Entry::Occupied(occupied) => occupied.into_mut(),
            Entry::Vacant(vacant) => {
                let fresh: Vec<u8> = vec![0u8; size];
                assert(fresh@ =~= zeroed(size as nat));
                vacant.insert(fresh)
            },
        };
        buffer.as_mut_slice()
    }
}

} // verus!
