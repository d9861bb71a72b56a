//! The replacement heap allocator.
//!
//! The sandbox provides no default allocator for the linked engine, so the
//! adapter supplies one: a flat byte arena in which every block is preceded
//! by an out-of-band header, eight bytes holding the block's requested size
//! in little-endian order. Because the size travels with the block, freeing
//! and reallocating need no external bookkeeping: both recover the size
//! from the header at `ptr - ALIGN`. The address handed out is always the
//! header's address plus the alignment, and sits on the alignment boundary.
//!
//! Reallocation policy: a failed resize leaves the arena untouched and the
//! original block valid.

use vstd::prelude::*;
use vstd::arithmetic::div_mod::{
    lemma_fundamental_div_mod,
    lemma_mod_add_multiples_vanish,
    lemma_mod_multiples_basic,
};
use vstd::bytes::{
    lemma_auto_spec_u64_to_from_le_bytes,
    spec_u64_from_le_bytes,
    spec_u64_to_le_bytes,
    u64_from_le_bytes,
    u64_to_le_bytes,
};
use vstd::pervasive::VecAdditionalExecFns;
use vstd::slice::slice_subrange;

verus! {

/// Alignment of every handed-out address, and the size of the header.
pub const ALIGN: usize = 8;

/// Zero bytes that round a block's content up to the alignment boundary,
/// so the next header is aligned as well.
pub open spec fn spec_pad(size: nat) -> nat {
    (((8 - (size % 8)) % 8)) as nat
}

/// The arena after reserving a block of `size` content bytes: the header
/// holding `size`, then the zeroed content, padded to the alignment.
pub open spec fn spec_allocate(mem: Seq<u8>, size: nat) -> Seq<u8> {
    mem + spec_u64_to_le_bytes(size as u64) + Seq::new(size + spec_pad(size), |i: int| 0u8)
}

/// The address a reservation on `mem` hands out: just past the header that
/// the reservation appends.
pub open spec fn spec_alloc_ptr(mem: Seq<u8>) -> int {
    mem.len() + ALIGN
}

/// The size stored in the header of the block at `ptr`.
pub open spec fn spec_block_size(mem: Seq<u8>, ptr: int) -> int {
    spec_u64_from_le_bytes(mem.subrange(ptr - ALIGN, ptr)) as int
}

/// `ptr` addresses a block of `mem`: its header is in range and the stored
/// size keeps the whole content in range.
pub open spec fn spec_is_block(mem: Seq<u8>, ptr: int) -> bool {
    &&& ALIGN <= ptr <= mem.len()
    &&& ptr + spec_block_size(mem, ptr) <= mem.len()
}

/// The arena after releasing the block at `ptr`: the content bytes are
/// surrendered (zeroed); the header and every byte outside the block stay
/// exactly as they were.
pub open spec fn spec_free(mem: Seq<u8>, ptr: int) -> Seq<u8> {
    Seq::new(
        mem.len(),
        |i: int|
            if ptr <= i < ptr + spec_block_size(mem, ptr) {
                0u8
            } else {
                mem[i]
            },
    )
}

/// The arena after moving the block at `ptr` to a fresh reservation of
/// `new_size` content bytes, spelled out byte by byte: the old block's
/// content is released, every other old byte stays, the new header stores
/// `new_size`, the first min(old, new) new content bytes carry the old
/// content, and the rest of the new block is zero.
pub open spec fn spec_reallocate(mem: Seq<u8>, ptr: int, new_size: nat) -> Seq<u8> {
    let np = spec_alloc_ptr(mem);
    let old_size = spec_block_size(mem, ptr);
    let carried = if old_size < new_size {
        old_size
    } else {
        new_size as int
    };
    Seq::new(
        (mem.len() + ALIGN + new_size + spec_pad(new_size)) as nat,
        |i: int|
            if ptr <= i < ptr + old_size {
                0u8
            } else if i < mem.len() {
                mem[i]
            } else if i < np {
                spec_u64_to_le_bytes(new_size as u64)[i - mem.len()]
            } else if i < np + carried {
                mem[ptr + (i - np)]
            } else {
                0u8
            },
    )
}

/// The content padding really does round the block out to the alignment.
proof fn lemma_pad_aligns(size: nat)
    ensures
        (size + spec_pad(size)) % 8 == 0,
{
    let m = size % 8;
    lemma_fundamental_div_mod(size as int, 8);
    if m == 0 {
        lemma_mod_multiples_basic((size as int) / 8, 8);
    } else {
        assert(size + spec_pad(size) == 8 * ((size as int) / 8 + 1));
        lemma_mod_multiples_basic((size as int) / 8 + 1, 8);
    }
}

/// The replacement heap: a byte arena growing at its end, each block headed
/// by its stored size.
pub struct Heap {
    mem: Vec<u8>,
}

impl View for Heap {
    type V = Seq<u8>;

    closed spec fn view(&self) -> Seq<u8> {
        self.mem@
    }
}

impl Heap {
    /// The arena keeps its length on the alignment boundary, so every
    /// reservation hands out an aligned address.
    pub open spec fn wf(&self) -> bool {
        (self@.len() as int) % (ALIGN as int) == 0
    }

    /// An empty arena.
    pub fn new() -> (h: Heap)
        ensures
            h.wf(),
            h@.len() == 0,
    {
        Heap { mem: Vec::new() }
    }

    /// Read the size stored in the header of the block at `ptr`.
    pub fn block_size(&self, ptr: usize) -> (s: usize)
        requires
            spec_is_block(self@, ptr as int),
        ensures
            s == spec_block_size(self@, ptr as int),
    {
        let n = self.mem.len();
        let hdr = slice_subrange(self.mem.as_slice(), ptr - ALIGN, ptr);
        let s64 = u64_from_le_bytes(hdr);
        proof {
            assert(ptr + spec_block_size(self@, ptr as int) <= n);
        }
        s64 as usize
    }

    /// Reserve `size + ALIGN` bytes (rounded out to the alignment), store
    /// `size` at the block's base, zero the content, and hand out
    /// `base + ALIGN`. Fails — with the arena untouched — exactly when the
    /// reservation would overflow the machine word.
    #[verifier::loop_isolation(false)]
    pub fn allocate(&mut self, size: usize) -> (r: Option<usize>)
        requires
            old(self).wf(),
        ensures
            final(self).wf(),
            match r {
                Some(p) => {
                    &&& final(self)@ == spec_allocate(old(self)@, size as nat)
                    &&& p == spec_alloc_ptr(old(self)@)
                    &&& (p as int) % (ALIGN as int) == 0
                    &&& spec_is_block(final(self)@, p as int)
                    &&& spec_block_size(final(self)@, p as int) == size
                    &&& forall|i: int| 0 <= i < old(self)@.len() ==> final(self)@[i] == old(self)@[i]
                    &&& forall|i: int| 0 <= i < size ==> #[trigger] final(self)@[p + i] == 0u8
                },
                None => final(self)@ == old(self)@,
            },
            r is None <==> size + spec_pad(size as nat) + ALIGN > usize::MAX || old(self)@.len()
                + size + spec_pad(size as nat) + ALIGN > usize::MAX,
    {
        let pad: usize = (8 - size % 8) % 8;
        let content = match size.checked_add(pad) {
            Some(c) => c,
            None => {
                return None;
            },
        };
        let needed = match content.checked_add(ALIGN) {
            Some(n) => n,
            None => {
                return None;
            },
        };
        if self.mem.len() > usize::MAX - needed {
            return None;
        }
        let base = self.mem.len();
        proof {
            lemma_auto_spec_u64_to_from_le_bytes();
        }
        let mut hdr = u64_to_le_bytes(size as u64);
        self.mem.append(&mut hdr);
        let mut j: usize = 0;
        while j < content
            invariant
                j <= content,
                self.mem@ == old(self).mem@ + spec_u64_to_le_bytes(size as u64) + Seq::new(
                    j as nat,
                    |k: int| 0u8,
                ),
            decreases content - j,
        {
            self.mem.push(0u8);
            proof {
                assert(self.mem@ =~= old(self).mem@ + spec_u64_to_le_bytes(size as u64)
                    + Seq::new((j + 1) as nat, |k: int| 0u8));
            }
            j += 1;
        }
        proof {
            assert(self.mem@ =~= spec_allocate(old(self)@, size as nat));
            lemma_pad_aligns(size as nat);
            assert(final(self).wf()) by {
                assert(self@.len() == base + 8 + size + spec_pad(size as nat));
                assert(base % 8 == 0);
                assert((size + spec_pad(size as nat)) % 8 == 0);
                lemma_fundamental_div_mod(base as int, 8);
                lemma_fundamental_div_mod(size as int + spec_pad(size as nat), 8);
                assert(self@.len() == 8 * ((base as int) / 8 + (size as int + spec_pad(
                    size as nat,
                )) / 8 + 1));
                lemma_mod_multiples_basic(
                    (base as int) / 8 + (size as int + spec_pad(size as nat)) / 8 + 1,
                    8,
                );
            }
            assert((base + 8) % 8 == 0) by {
                lemma_mod_add_multiples_vanish(base as int, 8);
            }
            assert(self@.subrange(base as int, base + 8) =~= spec_u64_to_le_bytes(size as u64));
            assert(spec_block_size(self@, base + 8) == size);
        }
        Some(base + ALIGN)
    }

    /// Release the block at `ptr`: the stored size is recovered from the
    /// header and the content is surrendered; no byte outside the block is
    /// touched, so every neighbouring header and content survives intact.
    #[verifier::loop_isolation(false)]
    pub fn free(&mut self, ptr: usize)
        requires
            old(self).wf(),
            spec_is_block(old(self)@, ptr as int),
        ensures
            final(self).wf(),
            final(self)@ == spec_free(old(self)@, ptr as int),
            final(self)@.len() == old(self)@.len(),
            forall|i: int|
                0 <= i < final(self)@.len() && !(ptr <= i < ptr + spec_block_size(
                    old(self)@,
                    ptr as int,
                )) ==> final(self)@[i] == old(self)@[i],
    {
        let n = self.mem.len();
        let size = self.block_size(ptr);
        let mut j: usize = 0;
        while j < size
            invariant
                j <= size,
                ptr + size <= n,
                self.mem@.len() == n,
                forall|k: int|
                    0 <= k < self.mem@.len() && !(ptr <= k < ptr + j) ==> self.mem@[k] == old(
                        self,
                    )@[k],
                forall|k: int| ptr <= k < ptr + j ==> self.mem@[k] == 0u8,
            decreases size - j,
        {
            self.mem.set(ptr + j, 0u8);
            j += 1;
        }
        proof {
            assert(self@.subrange(ptr - 8, ptr as int) =~= old(self)@.subrange(
                ptr - 8,
                ptr as int,
            ));
            assert(self@ =~= spec_free(old(self)@, ptr as int));
        }
    }

    /// Move the block at `ptr` to a fresh reservation of `new_size` bytes:
    /// the old size is recovered from the header, the first min(old, new)
    /// content bytes are carried over, the header of the new block holds
    /// `new_size`, and the old block is released. On failure the arena is
    /// untouched and the original block stays valid.
    #[verifier::loop_isolation(false)]
    pub fn reallocate(&mut self, ptr: usize, new_size: usize) -> (r: Option<usize>)
        requires
            old(self).wf(),
            spec_is_block(old(self)@, ptr as int),
        ensures
            final(self).wf(),
            match r {
                Some(np) => {
                    &&& final(self)@ == spec_reallocate(old(self)@, ptr as int, new_size as nat)
                    &&& np == spec_alloc_ptr(old(self)@)
                    &&& (np as int) % (ALIGN as int) == 0
                    &&& spec_is_block(final(self)@, np as int)
                    &&& spec_block_size(final(self)@, np as int) == new_size
                    &&& forall|i: int|
                        0 <= i < spec_block_size(old(self)@, ptr as int) && i < new_size
                            ==> #[trigger] final(self)@[np + i] == old(self)@[ptr + i]
                },
                None => final(self)@ == old(self)@,
            },
            r is None <==> new_size + spec_pad(new_size as nat) + ALIGN > usize::MAX || old(
                self,
            )@.len() + new_size + spec_pad(new_size as nat) + ALIGN > usize::MAX,
    {
        let n0 = self.mem.len();
        let old_size = self.block_size(ptr);
        let np = match self.allocate(new_size) {
            Some(p) => p,
            None => {
                return None;
            },
        };
        let n1 = self.mem.len();
        let ghost grown = self@;
        let carried = if old_size < new_size {
            old_size
        } else {
            new_size
        };
        let mut j: usize = 0;
        while j < carried
            invariant
                j <= carried,
                ptr + carried <= n0,
                np + carried <= n1,
                self.mem@.len() == n1,
                forall|k: int|
                    0 <= k < grown.len() && !(np <= k < np + j) ==> self.mem@[k] == grown[k],
                forall|k: int| 0 <= k < j ==> #[trigger] self.mem@[np + k] == old(self)@[ptr + k],
            decreases carried - j,
        {
            let b = self.mem[ptr + j];
            self.mem.set(np + j, b);
            j += 1;
        }
        let ghost copied = self@;
        proof {
            let om = old(self)@;
            let osz = spec_block_size(om, ptr as int);
            assert(copied.len() == grown.len());
            assert(forall|k: int|
                0 <= k < grown.len() && !(np <= k < np + carried) ==> #[trigger] copied[k]
                    == grown[k]);
            assert(forall|k: int| 0 <= k < carried ==> #[trigger] copied[np + k] == om[ptr + k]);
            assert(copied.subrange(ptr - 8, ptr as int) =~= om.subrange(ptr - 8, ptr as int));
            assert(spec_block_size(copied, ptr as int) == osz);
            assert(spec_is_block(copied, ptr as int));
        }
        self.free(ptr);
        proof {
            lemma_auto_spec_u64_to_from_le_bytes();
            let om = old(self)@;
            let osz = spec_block_size(om, ptr as int);
            let carry = if osz < new_size {
                osz
            } else {
                new_size as int
            };
            let rr = spec_reallocate(om, ptr as int, new_size as nat);
            assert(self@ == spec_free(copied, ptr as int));
            assert(self@.len() == rr.len());
            assert forall|i: int| 0 <= i < self@.len() implies self@[i] == rr[i] by {
                if !(ptr <= i < ptr + osz) {
                    assert(self@[i] == copied[i]);
                    if np <= i < np + carry {
                        let k = i - np;
                        assert(copied[np + k] == om[ptr + k]);
                    } else {
                        assert(copied[i] == grown[i]);
                    }
                }
            }
            assert(self@ =~= rr);
            lemma_reallocate_preserves_prefix(om, ptr as int, new_size as nat);
        }
        Some(np)
    }

    /// Write one byte of the content of the block at `ptr`. The header is
    /// out of reach: it is written at allocation and read-only afterwards.
    pub fn write_byte(&mut self, ptr: usize, offset: usize, b: u8)
        requires
            old(self).wf(),
            spec_is_block(old(self)@, ptr as int),
            offset < spec_block_size(old(self)@, ptr as int),
        ensures
            final(self).wf(),
            final(self)@ == old(self)@.update(ptr + offset, b),
            spec_is_block(final(self)@, ptr as int),
            spec_block_size(final(self)@, ptr as int) == spec_block_size(old(self)@, ptr as int),
    {
        let n = self.mem.len();
        proof {
            assert(ptr + spec_block_size(self@, ptr as int) <= n);
        }
        self.mem.set(ptr + offset, b);
        proof {
            assert(self@.subrange(ptr - 8, ptr as int) =~= old(self)@.subrange(
                ptr - 8,
                ptr as int,
            ));
        }
    }

    /// Read one byte of the content of the block at `ptr`.
    pub fn read_byte(&self, ptr: usize, offset: usize) -> (b: u8)
        requires
            spec_is_block(self@, ptr as int),
            offset < spec_block_size(self@, ptr as int),
        ensures
            b == self@[ptr + offset],
    {
        let n = self.mem.len();
        proof {
            assert(ptr + spec_block_size(self@, ptr as int) <= n);
        }
        self.mem[ptr + offset]
    }
}

/// Allocator round trip, release half: freeing a block just allocated
/// succeeds and disturbs no byte that existed before the allocation — in
/// particular every neighbouring header and every neighbouring block's
/// content survives intact.
pub proof fn lemma_free_after_allocate(mem: Seq<u8>, size: nat)
    requires
        size <= u64::MAX,
    ensures
        spec_is_block(spec_allocate(mem, size), spec_alloc_ptr(mem)),
        spec_block_size(spec_allocate(mem, size), spec_alloc_ptr(mem)) == size,
        forall|i: int|
            0 <= i < mem.len() ==> spec_free(spec_allocate(mem, size), spec_alloc_ptr(mem))[i]
                == mem[i],
{
    lemma_auto_spec_u64_to_from_le_bytes();
    let grown = spec_allocate(mem, size);
    let p = spec_alloc_ptr(mem);
    assert(grown.subrange(p - 8, p) =~= spec_u64_to_le_bytes(size as u64));
    assert(spec_block_size(grown, p) == size);
}

/// Allocator round trip, resize half: reallocating a block — whatever its
/// content by then holds — yields a fresh block whose header stores the new
/// size and whose first min(old, new) content bytes equal the old content.
/// Instantiated with a block just allocated (and then written to), this is
/// the statement that resizing what `allocate` handed out preserves the
/// content prefix.
pub proof fn lemma_reallocate_preserves_prefix(mem: Seq<u8>, ptr: int, new_size: nat)
    requires
        spec_is_block(mem, ptr),
        new_size <= u64::MAX,
    ensures
        spec_is_block(spec_reallocate(mem, ptr, new_size), spec_alloc_ptr(mem)),
        spec_block_size(spec_reallocate(mem, ptr, new_size), spec_alloc_ptr(mem)) == new_size,
        forall|i: int|
            0 <= i < spec_block_size(mem, ptr) && i < new_size ==> #[trigger] spec_reallocate(
                mem,
                ptr,
                new_size,
            )[spec_alloc_ptr(mem) + i] == mem[ptr + i],
{
    lemma_auto_spec_u64_to_from_le_bytes();
    let rr = spec_reallocate(mem, ptr, new_size);
    let np = spec_alloc_ptr(mem);
    assert(rr.subrange(np - 8, np) =~= spec_u64_to_le_bytes(new_size as u64));
    assert(spec_block_size(rr, np) == new_size);
}

} // verus!
