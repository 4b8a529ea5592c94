//! The page/block model of driver memory: a `Page` is one coarse driver
//! allocation with a free list of sub-ranges, a `MemoryBlock` is a carved
//! sub-range owned by exactly one cache entry, and a `MemoryCache` groups the
//! pages of one size class and memory kind.
//!
//! All ranges are absolute addresses inside the model's address space, so
//! blocks from different pages are disjoint exactly when their page windows
//! are.

use vstd::prelude::*;
use vstd::arithmetic::div_mod::{lemma_fundamental_div_mod, lemma_mod_multiples_basic};
use crate::limits::ALIGN_GRANULARITY;

verus! {

/// One past the highest address the model ever hands out.
pub const ADDR_SPACE_END: u64 = 0x1000_0000_0000;

/// The largest single sub-allocation a caller may request.
pub const MAX_ALLOC_SIZE: u64 = 0x4000_0000;

/// The largest page the model creates: a maximal request rounded up to the
/// granularity, with one granule of slack.
pub const MAX_PAGE_SIZE: u64 = 0x4002_0000;

/// `[s2, s2 + l2)` and `[s1, s1 + l1)` do not overlap.
pub open spec fn i_disjoint(s1: int, l1: int, s2: int, l2: int) -> bool {
    s1 + l1 <= s2 || s2 + l2 <= s1
}

/// `[s2, s2 + l2)` lies inside `[s1, s1 + l1)`.
pub open spec fn i_contains(s1: int, l1: int, s2: int, l2: int) -> bool {
    s1 <= s2 && s2 + l2 <= s1 + l1
}

/// The least multiple of `a` that is at least `x`.
pub open spec fn spec_align_up(x: int, a: int) -> int {
    ((x + a - 1) / a) * a
}

/// Rounds `x` up to a multiple of `a`.
pub fn align_up_u64(x: u64, a: u64) -> (r: u64)
    requires
        1 <= a,
        x + a <= u64::MAX,
    ensures
        r == spec_align_up(x as int, a as int),
        x <= r < x + a,
        r % a == 0,
{
    let t = x + a - 1;
    proof {
        lemma_fundamental_div_mod(t as int, a as int);
        lemma_mod_multiples_basic((t as int) / (a as int), a as int);
        assert(0 <= (t as int) % (a as int) < a as int) by {
            vstd::arithmetic::div_mod::lemma_mod_bound(t as int, a as int);
        }
    }
    let q = t / a;
    q * a
}

/// If `a` divides `g` and `g` divides `x`, then `a` divides `x`.
pub proof fn lemma_divides_transitive(x: int, a: int, g: int)
    requires
        1 <= a,
        1 <= g,
        g % a == 0,
        x % g == 0,
        0 <= x,
    ensures
        x % a == 0,
{
    let q = x / g;
    let p = g / a;
    lemma_fundamental_div_mod(x, g);
    lemma_fundamental_div_mod(g, a);
    assert(x == (p * q) * a) by (nonlinear_arith)
        requires
            x == g * q,
            g == a * p,
    ;
    lemma_mod_multiples_basic(p * q, a);
}

/// Rounding up to a multiple of `a` is monotone.
pub proof fn lemma_align_up_monotone(x1: int, x2: int, a: int)
    requires
        1 <= a,
        x1 <= x2,
    ensures
        spec_align_up(x1, a) <= spec_align_up(x2, a),
{
    vstd::arithmetic::div_mod::lemma_div_is_ordered(x1 + a - 1, x2 + a - 1, a);
    assert(((x1 + a - 1) / a) * a <= ((x2 + a - 1) / a) * a) by (nonlinear_arith)
        requires
            (x1 + a - 1) / a <= (x2 + a - 1) / a,
            1 <= a,
    ;
}

/// A coarse driver allocation: an address window `[base, base + size)` and a
/// free list of carved-out sub-ranges still available for reuse.
#[derive(Debug)]
pub struct Page {
    /// First address of the window; a multiple of [`ALIGN_GRANULARITY`].
    pub base: u64,
    /// Length of the window.
    pub size: u64,
    /// Available sub-ranges `(start, len)`, in absolute addresses.
    pub free: Vec<(u64, u64)>,
}

impl Page {
    /// Free ranges are nonempty, lie inside the window and never overlap,
    /// and the window itself is bounded and granularity-aligned.
    pub open spec fn wf(self) -> bool {
        &&& 1 <= self.size <= MAX_PAGE_SIZE
        &&& (self.base as int) % (ALIGN_GRANULARITY as int) == 0
        &&& self.base + self.size <= ADDR_SPACE_END
        &&& forall|k: int|
            0 <= k < self.free@.len() ==> {
                &&& 1 <= (#[trigger] self.free@[k]).1
                &&& i_contains(
                    self.base as int,
                    self.size as int,
                    self.free@[k].0 as int,
                    self.free@[k].1 as int,
                )
            }
        &&& forall|k1: int, k2: int|
            0 <= k1 < self.free@.len() && 0 <= k2 < self.free@.len() && k1 != k2
                ==> i_disjoint(
                (#[trigger] self.free@[k1]).0 as int,
                self.free@[k1].1 as int,
                (#[trigger] self.free@[k2]).0 as int,
                self.free@[k2].1 as int,
            )
    }

    /// Some free range can serve a `required`-byte allocation at `align`.
    pub open spec fn has_fit(self, required: u64, align: u64) -> bool {
        exists|k: int|
            0 <= k < self.free@.len() && range_fits(#[trigger] self.free@[k], required, align)
    }

    /// Carves `pad + required` bytes out of the first fitting free range.
    /// Returns the carved range's start and the padding up to its first
    /// `align`-ed byte, or `None` when no free range fits.
    pub fn carve(&mut self, required: u64, align: u64) -> (r: Option<(u64, u64)>)
        requires
            old(self).wf(),
            1 <= required <= MAX_ALLOC_SIZE,
            1 <= align <= ALIGN_GRANULARITY,
        ensures
            final(self).wf(),
            final(self).base == old(self).base,
            final(self).size == old(self).size,
            match r {
                Some((offset, pad)) => {
                    &&& old(self).has_fit(required, align)
                    &&& pad < align
                    &&& ((offset + pad) as int) % (align as int) == 0
                    &&& exists|k: int|
                        0 <= k < old(self).free@.len() && i_contains(
                            (#[trigger] old(self).free@[k]).0 as int,
                            old(self).free@[k].1 as int,
                            offset as int,
                            pad + required,
                        )
                    // the block takes the front of one free range; the
                    // range's remainder stays free and nothing else moves
                    &&& exists|k: int|
                        {
                            &&& 0 <= k < old(self).free@.len()
                            &&& (#[trigger] old(self).free@[k]).0 == offset
                            &&& pad + required <= old(self).free@[k].1
                            &&& final(self).free@ == (if pad + required == old(
                                self,
                            ).free@[k].1 {
                                old(self).free@.remove(k)
                            } else {
                                old(self).free@.update(
                                    k,
                                    (
                                        ((offset + pad + required) as u64),
                                        ((old(self).free@[k].1 - pad - required) as u64),
                                    ),
                                )
                            })
                        }
                    &&& forall|m: int|
                        0 <= m < final(self).free@.len() ==> {
                            &&& i_disjoint(
                                (#[trigger] final(self).free@[m]).0 as int,
                                final(self).free@[m].1 as int,
                                offset as int,
                                pad + required,
                            )
                            &&& exists|k: int|
                                0 <= k < old(self).free@.len() && i_contains(
                                    (#[trigger] old(self).free@[k]).0 as int,
                                    old(self).free@[k].1 as int,
                                    final(self).free@[m].0 as int,
                                    final(self).free@[m].1 as int,
                                )
                        }
                },
                None => {
                    &&& *final(self) == *old(self)
                    &&& !old(self).has_fit(required, align)
                },
            },
    {
        let mut k: usize = 0;
        while k < self.free.len()
            invariant
                *self == *old(self),
                old(self).wf(),
                1 <= required <= MAX_ALLOC_SIZE,
                1 <= align <= ALIGN_GRANULARITY,
                k <= self.free@.len(),
                forall|m: int|
                    0 <= m < k ==> !range_fits(#[trigger] self.free@[m], required, align),
            decreases self.free@.len() - k,
        {
            let (s, l) = self.free[k];
            proof {
                assert(old(self).free@[k as int].1 >= 1);
            }
            let a = align_up_u64(s, align);
            let pad = a - s;
            if required <= l && pad <= l - required {
                let need = pad + required;
                let ghost carved_k = k as int;
                if need == l {
                    self.free.remove(k);
                } else {
                    self.free[k] = (s + need, l - need);
                }
                proof {
                    assert(range_fits(old(self).free@[carved_k], required, align));
                    assert(old(self).free@[carved_k].0 == s);
                    if need == l {
                        assert(final(self).free@ == old(self).free@.remove(carved_k));
                    } else {
                        assert(final(self).free@ == old(self).free@.update(
                            carved_k,
                            (((s + need) as u64), ((l - need) as u64)),
                        ));
                    }
                    assert forall|m: int| 0 <= m < final(self).free@.len() implies {
                        &&& i_disjoint(
                            (#[trigger] final(self).free@[m]).0 as int,
                            final(self).free@[m].1 as int,
                            s as int,
                            pad + required,
                        )
                        &&& exists|k2: int|
                            0 <= k2 < old(self).free@.len() && i_contains(
                                (#[trigger] old(self).free@[k2]).0 as int,
                                old(self).free@[k2].1 as int,
                                final(self).free@[m].0 as int,
                                final(self).free@[m].1 as int,
                            )
                    } by {
                        if need == l {
                            // the remaining ranges are exactly the old ones with
                            // index `carved_k` dropped
                            let k2 = if m < carved_k {
                                m
                            } else {
                                m + 1
                            };
                            assert(final(self).free@[m] == old(self).free@[k2]);
                            assert(i_contains(
                                old(self).free@[k2].0 as int,
                                old(self).free@[k2].1 as int,
                                final(self).free@[m].0 as int,
                                final(self).free@[m].1 as int,
                            ));
                        } else {
                            if m == carved_k {
                                assert(i_contains(
                                    old(self).free@[carved_k].0 as int,
                                    old(self).free@[carved_k].1 as int,
                                    final(self).free@[m].0 as int,
                                    final(self).free@[m].1 as int,
                                ));
                            } else {
                                assert(final(self).free@[m] == old(self).free@[m]);
                                assert(i_contains(
                                    old(self).free@[m].0 as int,
                                    old(self).free@[m].1 as int,
                                    final(self).free@[m].0 as int,
                                    final(self).free@[m].1 as int,
                                ));
                            }
                        }
                    }
                }
                return Some((s, pad));
            }
            proof {
                assert(!range_fits(self.free@[k as int], required, align));
            }
            k += 1;
        }
        None
    }

    /// Returns a carved range to the free list.
    pub fn insert_free(&mut self, start: u64, len: u64)
        requires
            old(self).wf(),
            1 <= len,
            i_contains(old(self).base as int, old(self).size as int, start as int, len as int),
            forall|m: int|
                0 <= m < old(self).free@.len() ==> i_disjoint(
                    (#[trigger] old(self).free@[m]).0 as int,
                    old(self).free@[m].1 as int,
                    start as int,
                    len as int,
                ),
        ensures
            final(self).wf(),
            final(self).base == old(self).base,
            final(self).size == old(self).size,
            final(self).free@ == old(self).free@.push((start, len)),
    {
        self.free.push((start, len));
    }
}

/// Whether the free range `r` can hold `required` bytes starting at an
/// `align`-aligned address.
pub open spec fn range_fits(r: (u64, u64), required: u64, align: u64) -> bool {
    spec_align_up(r.0 as int, align as int) + required <= r.0 + r.1
}

/// How one carve changed a cache: either a free range of an existing page
/// was split (its front becomes the block, any remainder stays free), or a
/// fresh page was appended and the block carved from its start.
pub open spec fn carved_from(c0: MemoryCache, c1: MemoryCache, b: MemoryBlock) -> bool {
    ||| carved_in_place(c0, c1, b)
    ||| carved_on_new_page(c0, c1, b)
}

/// The block was carved from the front of free range `k` of page `j`; the
/// range's remainder (if any) stays free, and every other page and range is
/// untouched.
pub open spec fn carved_in_place(c0: MemoryCache, c1: MemoryCache, b: MemoryBlock) -> bool {
    &&& c1.pages@.len() == c0.pages@.len()
    &&& exists|j: int, k: int|
        {
            &&& 0 <= j < c0.pages@.len()
            &&& 0 <= k < c0.pages@[j].free@.len()
            &&& c0.pages@[j].base == b.page_base
            &&& c1.pages@[j].base == c0.pages@[j].base
            &&& c1.pages@[j].size == c0.pages@[j].size
            &&& (#[trigger] c0.pages@[j].free@[k]).0 == b.offset
            &&& b.size <= c0.pages@[j].free@[k].1
            &&& c1.pages@[j].free@ == (if b.size == c0.pages@[j].free@[k].1 {
                c0.pages@[j].free@.remove(k)
            } else {
                c0.pages@[j].free@.update(
                    k,
                    (
                        (b.offset + b.size) as u64,
                        (c0.pages@[j].free@[k].1 - b.size) as u64,
                    ),
                )
            })
            &&& forall|j2: int|
                0 <= j2 < c0.pages@.len() && j2 != j ==> #[trigger] c1.pages@[j2]
                    == c0.pages@[j2]
        }
}

/// The block was carved from the start of a page appended by this very
/// call; the page's remainder (if any) is its whole free list.
pub open spec fn carved_on_new_page(c0: MemoryCache, c1: MemoryCache, b: MemoryBlock) -> bool {
    &&& c1.pages@.len() == c0.pages@.len() + 1
    &&& forall|j: int|
        0 <= j < c0.pages@.len() ==> #[trigger] c1.pages@[j] == c0.pages@[j]
    &&& c1.pages@.last().base == b.page_base
    &&& c1.pages@.last().size == b.page_size
    &&& b.offset == b.page_base
    &&& b.pad == 0
    &&& c1.pages@.last().free@ == (if b.size == b.page_size {
        Seq::<(u64, u64)>::empty()
    } else {
        seq![(((b.offset + b.size) as u64), ((b.page_size - b.size) as u64))]
    })
}

/// The range `[s, s + l)` is wholly free in page `j` of `c`: as one free
/// range starting at `s`, or as two that meet and cover it exactly.
pub open spec fn free_covered(c: MemoryCache, j: int, s: int, l: int) -> bool {
    exists|m1: int|
        {
            &&& 0 <= m1 < c.pages@[j].free@.len()
            &&& (#[trigger] c.pages@[j].free@[m1]).0 == s
            &&& {
                ||| c.pages@[j].free@[m1].1 == l
                ||| exists|m2: int|
                    {
                        &&& 0 <= m2 < c.pages@[j].free@.len()
                        &&& (#[trigger] c.pages@[j].free@[m2]).0 == s + c.pages@[j].free@[m1].1
                        &&& c.pages@[j].free@[m1].1 + c.pages@[j].free@[m2].1 == l
                    }
            }
        }
}

/// Nothing that was free before is lost: every old free range is still
/// wholly free in its page (a failed allocation returns what it carved, so
/// at most one range is temporarily split in two).
pub open spec fn free_ranges_preserved(c0: MemoryCache, c1: MemoryCache) -> bool {
    &&& c0.pages@.len() <= c1.pages@.len()
    &&& forall|j: int, k: int|
        0 <= j < c0.pages@.len() && 0 <= k < c0.pages@[j].free@.len() ==> free_covered(
            c1,
            j,
            (#[trigger] c0.pages@[j].free@[k]).0 as int,
            c0.pages@[j].free@[k].1 as int,
        )
}

/// After a block is carved ([`carved_from`]) and then released again (each
/// page holding its base gains the range back, everything else untouched),
/// every range that was free at the start is wholly free again.
pub proof fn lemma_carve_then_release_preserves_free(
    c0: MemoryCache,
    c1: MemoryCache,
    c2: MemoryCache,
    b: MemoryBlock,
    lo: int,
)
    requires
        c0.pages_wf(),
        c0.pages_disjoint(),
        c0.below(lo),
        carved_from(c0, c1, b),
        c1.pages@.len() > c0.pages@.len() ==> c1.pages@.last().base as int >= lo,
        c2.pages@.len() == c1.pages@.len(),
        forall|j: int|
            0 <= j < c1.pages@.len() && (#[trigger] c1.pages@[j]).base != b.page_base
                ==> c2.pages@[j] == c1.pages@[j],
        forall|j: int|
            0 <= j < c1.pages@.len() && (#[trigger] c1.pages@[j]).base == b.page_base
                ==> c2.pages@[j].free@ == c1.pages@[j].free@.push((b.offset, b.size)),
    ensures
        free_ranges_preserved(c0, c2),
{
    assert forall|j: int, k: int|
        0 <= j < c0.pages@.len() && 0 <= k < c0.pages@[j].free@.len() implies free_covered(
        c2,
        j,
        (#[trigger] c0.pages@[j].free@[k]).0 as int,
        c0.pages@[j].free@[k].1 as int,
    ) by {
        let s = c0.pages@[j].free@[k].0 as int;
        let l = c0.pages@[j].free@[k].1 as int;
        if carved_in_place(c0, c1, b) {
            let (j0, k0) = choose|j0: int, k0: int|
                {
                    &&& 0 <= j0 < c0.pages@.len()
                    &&& 0 <= k0 < c0.pages@[j0].free@.len()
                    &&& c0.pages@[j0].base == b.page_base
                    &&& c1.pages@[j0].base == c0.pages@[j0].base
                    &&& c1.pages@[j0].size == c0.pages@[j0].size
                    &&& (#[trigger] c0.pages@[j0].free@[k0]).0 == b.offset
                    &&& b.size <= c0.pages@[j0].free@[k0].1
                    &&& c1.pages@[j0].free@ == (if b.size == c0.pages@[j0].free@[k0].1 {
                        c0.pages@[j0].free@.remove(k0)
                    } else {
                        c0.pages@[j0].free@.update(
                            k0,
                            (
                                (b.offset + b.size) as u64,
                                (c0.pages@[j0].free@[k0].1 - b.size) as u64,
                            ),
                        )
                    })
                    &&& forall|j2: int|
                        0 <= j2 < c0.pages@.len() && j2 != j0 ==> #[trigger] c1.pages@[j2]
                            == c0.pages@[j2]
                };
            if j != j0 {
                // page j is untouched: its base differs from the block's
                assert(i_disjoint(
                    c0.pages@[j].base as int,
                    c0.pages@[j].size as int,
                    c0.pages@[j0].base as int,
                    c0.pages@[j0].size as int,
                ));
                assert(c0.pages@[j].wf() && c0.pages@[j0].wf());
                assert(c1.pages@[j] == c0.pages@[j]);
                assert(c1.pages@[j].base != b.page_base);
                assert(c2.pages@[j] == c0.pages@[j]);
                assert(c2.pages@[j].free@[k] == c0.pages@[j].free@[k]);
            } else {
                // page j0: the carved front was pushed back
                let f1 = c1.pages@[j0].free@;
                assert(c2.pages@[j0].free@ == f1.push((b.offset, b.size)));
                let pushed = f1.len() as int;
                assert(c2.pages@[j0].free@[pushed] == (b.offset, b.size));
                if k == k0 {
                    if b.size == c0.pages@[j0].free@[k0].1 {
                        // the whole range was carved and came back in one piece
                        assert(c2.pages@[j0].free@[pushed].0 == s
                            && c2.pages@[j0].free@[pushed].1 == l);
                    } else {
                        // front piece pushed, remainder still at k0
                        assert(c2.pages@[j0].free@[k0] == (
                            (b.offset + b.size) as u64,
                            (c0.pages@[j0].free@[k0].1 - b.size) as u64,
                        ));
                        assert(c2.pages@[j0].free@[pushed].0 == s);
                        assert(c2.pages@[j0].free@[k0].0 == s + c2.pages@[j0].free@[pushed].1);
                        assert(c2.pages@[j0].free@[pushed].1 + c2.pages@[j0].free@[k0].1 == l);
                    }
                } else {
                    if b.size == c0.pages@[j0].free@[k0].1 {
                        let m1 = if k < k0 {
                            k
                        } else {
                            k - 1
                        };
                        assert(c2.pages@[j0].free@[m1] == c0.pages@[j0].free@[k]);
                    } else {
                        assert(c2.pages@[j0].free@[k] == c0.pages@[j0].free@[k]);
                    }
                }
            }
        } else {
            // the block came from a fresh page past every old window
            assert(carved_on_new_page(c0, c1, b));
            assert(c1.pages@[j] == c0.pages@[j]);
            assert(c0.pages@[j].wf());
            assert(c0.pages@[j].base + c0.pages@[j].size <= lo);
            assert(c1.pages@.last().base as int >= lo);
            assert(b.page_base == c1.pages@.last().base);
            assert(c1.pages@[j].base != b.page_base);
            assert(c2.pages@[j] == c0.pages@[j]);
            assert(c2.pages@[j].free@[k] == c0.pages@[j].free@[k]);
        }
    }
}

/// Some current page of the cache carries the block's window base.
pub open spec fn page_resident(c: MemoryCache, b: MemoryBlock) -> bool {
    exists|j: int| 0 <= j < c.pages@.len() && (#[trigger] c.pages@[j]).base == b.page_base
}

/// Every old free range is trivially covered when nothing changed.
pub proof fn lemma_free_ranges_preserved_refl(c: MemoryCache)
    ensures
        free_ranges_preserved(c, c),
{
    assert forall|j: int, k: int|
        0 <= j < c.pages@.len() && 0 <= k < c.pages@[j].free@.len() implies free_covered(
        c,
        j,
        (#[trigger] c.pages@[j].free@[k]).0 as int,
        c.pages@[j].free@[k].1 as int,
    ) by {
        assert(c.pages@[j].free@[k].0 == c.pages@[j].free@[k].0);
    }
}

/// A sub-range of a page, exclusively owned by one cache entry. The usable
/// region starts `pad` bytes in, at the first `align`-ed address of the
/// carved range.
#[derive(Debug, Clone, Copy)]
pub struct MemoryBlock {
    /// Base of the owning page's window; page bases are never reused, so
    /// this identifies the page for as long as it exists.
    pub page_base: u64,
    /// Size of the owning page's window.
    pub page_size: u64,
    /// Absolute start of the carved range (including alignment padding).
    pub offset: u64,
    /// Length of the carved range.
    pub size: u64,
    /// Padding before the first aligned usable byte.
    pub pad: u64,
    /// Whether the owning page is host-visible (mapped for CPU writes).
    pub host_visible: bool,
}

impl MemoryBlock {
    /// The address handed to callers: first usable byte of the block.
    pub open spec fn addr_spec(self) -> int {
        self.offset + self.pad
    }

    /// Usable bytes: the carved length minus the alignment padding.
    pub open spec fn usable_size(self) -> int {
        self.size - self.pad
    }

    /// The carved range lies inside the recorded page window and actually
    /// holds usable bytes past the padding.
    pub open spec fn wf(self) -> bool {
        &&& 1 <= self.size
        &&& self.pad < self.size
        &&& 1 <= self.page_size <= MAX_PAGE_SIZE
        &&& self.page_base + self.page_size <= ADDR_SPACE_END
        &&& i_contains(
            self.page_base as int,
            self.page_size as int,
            self.offset as int,
            self.size as int,
        )
    }

    /// The host-writable address of this block's usable region.
    pub fn addr(&self) -> (r: u64)
        requires
            self.wf(),
        ensures
            r as int == self.addr_spec(),
    {
        self.offset + self.pad
    }
}

/// Device memory bound to an image, carved from an image page cache.
#[derive(Debug, Clone, Copy)]
pub struct MemoryImageBlock {
    /// The underlying carved block.
    pub base: MemoryBlock,
}

/// Pages of one size class and memory kind, with their free lists.
#[derive(Debug)]
pub struct MemoryCache {
    /// The pages, in creation order; never reordered.
    pub pages: Vec<Page>,
    /// Whether this cache's pages are host-visible.
    pub host_visible: bool,
}

impl MemoryCache {
    /// Every page of the cache is well formed.
    pub open spec fn pages_wf(self) -> bool {
        forall|j: int| 0 <= j < self.pages@.len() ==> (#[trigger] self.pages@[j]).wf()
    }

    /// Some page has a free range that can serve the request.
    pub open spec fn has_fit(self, required: u64, align: u64) -> bool {
        exists|j: int|
            0 <= j < self.pages@.len() && (#[trigger] self.pages@[j]).has_fit(required, align)
    }

    /// An empty cache for pages of the given visibility.
    pub fn new(host_visible: bool) -> (r: MemoryCache)
        ensures
            r.pages@.len() == 0,
            r.host_visible == host_visible,
            r.pages_wf(),
    {
        MemoryCache { pages: Vec::new(), host_visible }
    }

    /// Every page window of the cache ends at or before `bound`.
    pub open spec fn below(self, bound: int) -> bool {
        forall|j: int|
            0 <= j < self.pages@.len() ==> (#[trigger] self.pages@[j]).base + self.pages@[j].size
                <= bound
    }

    /// Page windows never overlap (page bases are issued fresh, so two
    /// distinct pages of a well-run cache occupy distinct windows).
    pub open spec fn pages_disjoint(self) -> bool {
        forall|j1: int, j2: int|
            0 <= j1 < self.pages@.len() && 0 <= j2 < self.pages@.len() && j1 != j2 ==> i_disjoint(
                (#[trigger] self.pages@[j1]).base as int,
                self.pages@[j1].size as int,
                (#[trigger] self.pages@[j2]).base as int,
                self.pages@[j2].size as int,
            )
    }

    /// Carves a block out of the first page with a fitting free range;
    /// `None` exactly when no page fits. Page windows are not touched.
    pub fn try_carve(&mut self, required: u64, align: u64) -> (r: Option<MemoryBlock>)
        requires
            old(self).pages_wf(),
            old(self).pages_disjoint(),
            1 <= required <= MAX_ALLOC_SIZE,
            1 <= align <= ALIGN_GRANULARITY,
        ensures
            final(self).pages_wf(),
            final(self).pages_disjoint(),
            final(self).host_visible == old(self).host_visible,
            final(self).pages@.len() == old(self).pages@.len(),
            forall|j: int|
                0 <= j < old(self).pages@.len() ==> (#[trigger] final(self).pages@[j]).base
                    == old(self).pages@[j].base && final(self).pages@[j].size
                    == old(self).pages@[j].size,
            match r {
                Some(b) => {
                    &&& old(self).has_fit(required, align)
                    &&& b.wf()
                    &&& b.host_visible == old(self).host_visible
                    &&& b.usable_size() == required
                    &&& b.pad < align
                    &&& b.addr_spec() % (align as int) == 0
                    &&& carved_in_place(*old(self), *final(self), b)
                    &&& exists|j: int|
                        0 <= j < old(self).pages@.len()
                            && (#[trigger] old(self).pages@[j]).base == b.page_base
                            && old(self).pages@[j].size == b.page_size
                    &&& exists|j: int, k: int|
                        0 <= j < old(self).pages@.len() && 0 <= k < old(self).pages@[j].free@.len()
                            && i_contains(
                            (#[trigger] old(self).pages@[j].free@[k]).0 as int,
                            old(self).pages@[j].free@[k].1 as int,
                            b.offset as int,
                            b.size as int,
                        )
                    &&& forall|j: int, m: int|
                        0 <= j < final(self).pages@.len() && 0 <= m < final(self).pages@[j].free@.len()
                            ==> {
                            &&& i_disjoint(
                                (#[trigger] final(self).pages@[j].free@[m]).0 as int,
                                final(self).pages@[j].free@[m].1 as int,
                                b.offset as int,
                                b.size as int,
                            )
                            &&& exists|k: int|
                                0 <= k < old(self).pages@[j].free@.len() && i_contains(
                                    (#[trigger] old(self).pages@[j].free@[k]).0 as int,
                                    old(self).pages@[j].free@[k].1 as int,
                                    final(self).pages@[j].free@[m].0 as int,
                                    final(self).pages@[j].free@[m].1 as int,
                                )
                        }
                },
                None => {
                    &&& *final(self) == *old(self)
                    &&& !old(self).has_fit(required, align)
                },
            },
    {
        let mut j: usize = 0;
        while j < self.pages.len()
            invariant
                *self == *old(self),
                old(self).pages_wf(),
                old(self).pages_disjoint(),
                1 <= required <= MAX_ALLOC_SIZE,
                1 <= align <= ALIGN_GRANULARITY,
                j <= self.pages@.len(),
                forall|i: int|
                    0 <= i < j ==> !(#[trigger] self.pages@[i]).has_fit(required, align),
            decreases self.pages@.len() - j,
        {
            // read-only scan of page j's free list for a fitting range
            let mut k: usize = 0;
            let mut found: bool = false;
            while k < self.pages[j].free.len()
                invariant
                    *self == *old(self),
                    old(self).pages_wf(),
                    1 <= required <= MAX_ALLOC_SIZE,
                    1 <= align <= ALIGN_GRANULARITY,
                    j < self.pages@.len(),
                    k <= self.pages@[j as int].free@.len(),
                    !found ==> forall|m: int|
                        0 <= m < k ==> !range_fits(
                            #[trigger] self.pages@[j as int].free@[m],
                            required,
                            align,
                        ),
                    found ==> self.pages@[j as int].has_fit(required, align),
                ensures
                    *self == *old(self),
                    found ==> self.pages@[j as int].has_fit(required, align),
                    !found ==> !self.pages@[j as int].has_fit(required, align),
                decreases self.pages@[j as int].free@.len() - k,
            {
                let (st, l) = self.pages[j].free[k];
                proof {
                    assert(old(self).pages@[j as int].wf());
                    assert(old(self).pages@[j as int].free@[k as int].1 >= 1);
                }
                let a = align_up_u64(st, align);
                let pad = a - st;
                if required <= l && pad <= l - required {
                    found = true;
                    proof {
                        assert(range_fits(self.pages@[j as int].free@[k as int], required, align));
                    }
                    break ;
                }
                k += 1;
            }
            if found {
                let jj = j;
                let carve_res = self.pages[jj].carve(required, align);
                match carve_res {
                    Some((offset, pad)) => {
                        let p_base = self.pages[jj].base;
                        let p_size = self.pages[jj].size;
                        let b = MemoryBlock {
                            page_base: p_base,
                            page_size: p_size,
                            offset,
                            size: pad + required,
                            pad,
                            host_visible: self.host_visible,
                        };
                        proof {
                            let ghost jx = jj as int;
                            assert(old(self).pages@[jx].has_fit(required, align));
                            // carry the page-level split up to the cache
                            let kx = choose|k: int|
                                {
                                    &&& 0 <= k < old(self).pages@[jx].free@.len()
                                    &&& (#[trigger] old(self).pages@[jx].free@[k]).0 == offset
                                    &&& pad + required <= old(self).pages@[jx].free@[k].1
                                    &&& final(self).pages@[jx].free@ == (if pad + required == old(
                                        self,
                                    ).pages@[jx].free@[k].1 {
                                        old(self).pages@[jx].free@.remove(k)
                                    } else {
                                        old(self).pages@[jx].free@.update(
                                            k,
                                            (
                                                ((offset + pad + required) as u64),
                                                ((old(self).pages@[jx].free@[k].1 - pad
                                                    - required) as u64),
                                            ),
                                        )
                                    })
                                };
                            assert(0 <= kx < old(self).pages@[jx].free@.len()
                                && old(self).pages@[jx].free@[kx].0 == b.offset && b.size <= old(
                                self,
                            ).pages@[jx].free@[kx].1 && final(self).pages@[jx].free@ == (
                            if b.size == old(self).pages@[jx].free@[kx].1 {
                                old(self).pages@[jx].free@.remove(kx)
                            } else {
                                old(self).pages@[jx].free@.update(
                                    kx,
                                    (
                                        ((b.offset + b.size) as u64),
                                        ((old(self).pages@[jx].free@[kx].1 - b.size) as u64),
                                    ),
                                )
                            }));
                            assert(carved_in_place(*old(self), *final(self), b));
                            // the block sits inside page jj's window
                            let k0 = choose|k2: int|
                                0 <= k2 < old(self).pages@[jx].free@.len() && i_contains(
                                    (#[trigger] old(self).pages@[jx].free@[k2]).0 as int,
                                    old(self).pages@[jx].free@[k2].1 as int,
                                    b.offset as int,
                                    b.size as int,
                                );
                            assert(i_contains(
                                old(self).pages@[jx].base as int,
                                old(self).pages@[jx].size as int,
                                b.offset as int,
                                b.size as int,
                            ));
                            assert forall|j2: int, m: int|
                                0 <= j2 < final(self).pages@.len() && 0 <= m < final(self).pages@[j2].free@.len() implies {
                                &&& i_disjoint(
                                    (#[trigger] final(self).pages@[j2].free@[m]).0 as int,
                                    final(self).pages@[j2].free@[m].1 as int,
                                    b.offset as int,
                                    b.size as int,
                                )
                                &&& exists|k2: int|
                                    0 <= k2 < old(self).pages@[j2].free@.len() && i_contains(
                                        (#[trigger] old(self).pages@[j2].free@[k2]).0 as int,
                                        old(self).pages@[j2].free@[k2].1 as int,
                                        final(self).pages@[j2].free@[m].0 as int,
                                        final(self).pages@[j2].free@[m].1 as int,
                                    )
                            } by {
                                if j2 != jx {
                                    // untouched page: the range is its own witness, and it
                                    // cannot overlap the block, which sits in page jj's
                                    // window while the range sits in page j2's
                                    assert(final(self).pages@[j2] == old(self).pages@[j2]);
                                    assert(i_contains(
                                        old(self).pages@[j2].free@[m].0 as int,
                                        old(self).pages@[j2].free@[m].1 as int,
                                        final(self).pages@[j2].free@[m].0 as int,
                                        final(self).pages@[j2].free@[m].1 as int,
                                    ));
                                    assert(i_contains(
                                        old(self).pages@[j2].base as int,
                                        old(self).pages@[j2].size as int,
                                        old(self).pages@[j2].free@[m].0 as int,
                                        old(self).pages@[j2].free@[m].1 as int,
                                    ));
                                    assert(i_disjoint(
                                        old(self).pages@[j2].base as int,
                                        old(self).pages@[j2].size as int,
                                        old(self).pages@[jx].base as int,
                                        old(self).pages@[jx].size as int,
                                    ));
                                }
                            }
                            assert forall|j1: int, j2: int|
                                0 <= j1 < final(self).pages@.len() && 0 <= j2 < final(self).pages@.len() && j1 != j2 implies i_disjoint(
                                (#[trigger] final(self).pages@[j1]).base as int,
                                final(self).pages@[j1].size as int,
                                (#[trigger] final(self).pages@[j2]).base as int,
                                final(self).pages@[j2].size as int,
                            ) by {
                                assert(final(self).pages@[j1].base == old(self).pages@[j1].base);
                                assert(final(self).pages@[j2].base == old(self).pages@[j2].base);
                            }
                        }
                        return Some(b);
                    },
                    None => {
                        // the scan saw a fitting range, so the carve cannot miss
                        proof {
                            assert(false);
                        }
                    },
                }
            }
            proof {
                if !found {
                    assert(!self.pages@[j as int].has_fit(required, align));
                }
            }
            j += 1;
        }
        None
    }

    /// Whether some page of the cache carries the given window base.
    pub fn has_page_with_base(&self, base: u64) -> (r: bool)
        ensures
            r == exists|j: int|
                0 <= j < self.pages@.len() && (#[trigger] self.pages@[j]).base == base,
    {
        let mut j: usize = 0;
        while j < self.pages.len()
            invariant
                j <= self.pages@.len(),
                forall|i: int| 0 <= i < j ==> (#[trigger] self.pages@[i]).base != base,
            decreases self.pages@.len() - j,
        {
            if self.pages[j].base == base {
                return true;
            }
            j += 1;
        }
        false
    }

    /// Appends a freshly issued page whose whole window is free.
    pub fn add_page(&mut self, base: u64, size: u64)
        requires
            old(self).pages_wf(),
            1 <= size <= MAX_PAGE_SIZE,
            base + size <= ADDR_SPACE_END,
            (base as int) % (ALIGN_GRANULARITY as int) == 0,
        ensures
            final(self).pages_wf(),
            final(self).host_visible == old(self).host_visible,
            final(self).pages@.len() == old(self).pages@.len() + 1,
            forall|j: int|
                0 <= j < old(self).pages@.len() ==> final(self).pages@[j] == old(self).pages@[j],
            final(self).pages@.last().base == base,
            final(self).pages@.last().size == size,
            final(self).pages@.last().free@.len() == 1,
            final(self).pages@.last().free@[0] == (base, size),
    {
        let mut free: Vec<(u64, u64)> = Vec::new();
        free.push((base, size));
        self.pages.push(Page { base, size, free });
    }

    /// Returns a block's carved range to its page's free list. If the page
    /// was purged in the meantime the range simply dies with it.
    pub fn release(&mut self, block: &MemoryBlock)
        requires
            old(self).pages_wf(),
            block.wf(),
            // a page carrying the block's base really is the block's page
            forall|j: int|
                0 <= j < old(self).pages@.len() && (#[trigger] old(self).pages@[j]).base
                    == block.page_base ==> old(self).pages@[j].size == block.page_size,
            // at most one page carries it
            forall|j1: int, j2: int|
                0 <= j1 < old(self).pages@.len() && 0 <= j2 < old(self).pages@.len()
                    && (#[trigger] old(self).pages@[j1]).base == block.page_base && (#[trigger] old(
                    self,
                ).pages@[j2]).base == block.page_base ==> j1 == j2,
            // the range overlaps nothing already free
            forall|j: int, m: int|
                0 <= j < old(self).pages@.len() && 0 <= m < old(self).pages@[j].free@.len()
                    ==> i_disjoint(
                    (#[trigger] old(self).pages@[j].free@[m]).0 as int,
                    old(self).pages@[j].free@[m].1 as int,
                    block.offset as int,
                    block.size as int,
                ),
        ensures
            final(self).pages_wf(),
            final(self).host_visible == old(self).host_visible,
            final(self).pages@.len() == old(self).pages@.len(),
            forall|j: int|
                0 <= j < old(self).pages@.len() ==> (#[trigger] final(self).pages@[j]).base == old(
                    self,
                ).pages@[j].base && final(self).pages@[j].size == old(self).pages@[j].size,
            // pages that do not carry the block are untouched
            forall|j: int|
                0 <= j < old(self).pages@.len() && (#[trigger] old(self).pages@[j]).base
                    != block.page_base ==> final(self).pages@[j] == old(self).pages@[j],
            // the page that does gains exactly the block's range
            forall|j: int|
                0 <= j < old(self).pages@.len() && (#[trigger] old(self).pages@[j]).base
                    == block.page_base ==> final(self).pages@[j].free@ == old(
                    self,
                ).pages@[j].free@.push((block.offset, block.size)),
    {
        let mut j: usize = 0;
        while j < self.pages.len()
            invariant
                self.host_visible == old(self).host_visible,
                self.pages@ == old(self).pages@,
                old(self).pages_wf(),
                block.wf(),
                j <= self.pages@.len(),
                forall|i: int|
                    0 <= i < j ==> (#[trigger] old(self).pages@[i]).base != block.page_base,
                forall|i: int|
                    0 <= i < old(self).pages@.len() && (#[trigger] old(self).pages@[i]).base
                        == block.page_base ==> old(self).pages@[i].size == block.page_size,
                forall|i1: int, i2: int|
                    0 <= i1 < old(self).pages@.len() && 0 <= i2 < old(self).pages@.len()
                        && (#[trigger] old(self).pages@[i1]).base == block.page_base && (
                    #[trigger] old(self).pages@[i2]).base == block.page_base ==> i1 == i2,
                forall|i: int, m: int|
                    0 <= i < old(self).pages@.len() && 0 <= m < old(self).pages@[i].free@.len()
                        ==> i_disjoint(
                        (#[trigger] old(self).pages@[i].free@[m]).0 as int,
                        old(self).pages@[i].free@[m].1 as int,
                        block.offset as int,
                        block.size as int,
                    ),
            decreases self.pages@.len() - j,
        {
            if self.pages[j].base == block.page_base {
                let ghost jj = j as int;
                self.pages[j].insert_free(block.offset, block.size);
                proof {
                    assert forall|i: int|
                        0 <= i < old(self).pages@.len() && (#[trigger] old(self).pages@[i]).base
                            != block.page_base implies final(self).pages@[i] == old(
                        self,
                    ).pages@[i] by {
                        assert(i != jj);
                    }
                }
                return ;
            }
            j += 1;
        }
    }
}

} // verus!
