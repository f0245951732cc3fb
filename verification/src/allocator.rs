use vstd::prelude::*;

pub mod bump;
pub mod list;

verus! {

/// The least multiple of `align` that is at least `addr`.
pub open spec fn align_up_spec(addr: int, align: int) -> int {
    if addr % align == 0 {
        addr
    } else {
        addr + (align - addr % align)
    }
}

/// Rounds `addr` up to the next multiple of `align`.
/// Returns `None` when that multiple lies beyond the address space.
pub fn align_up(addr: usize, align: usize) -> (r: Option<usize>)
    requires
        align > 0,
    ensures
        match r {
            Some(a) => a == align_up_spec(addr as int, align as int),
            None => align_up_spec(addr as int, align as int) > usize::MAX,
        },
{
    let rem = addr % align;
    if rem == 0 {
        Some(addr)
    } else {
        addr.checked_add(align - rem)
    }
}

/// The aligned address lies in `[addr, addr + align)` and is a multiple of `align`.
pub proof fn lemma_align_up_bounds(addr: int, align: int)
    requires
        addr >= 0,
        align > 0,
    ensures
        addr <= align_up_spec(addr, align) < addr + align,
        align_up_spec(addr, align) % align == 0,
{
    let r = addr % align;
    if r != 0 {
        assert((addr + (align - r)) % align == 0) by {
            vstd::arithmetic::div_mod::lemma_fundamental_div_mod(addr, align);
            vstd::arithmetic::div_mod::lemma_mod_multiples_basic(addr / align + 1, align);
            assert(addr + (align - r) == (addr / align + 1) * align) by (nonlinear_arith)
                requires addr == align * (addr / align) + r;
        }
    }
}

/// The aligned address is the only multiple of `align` in `[addr, addr + align)`.
pub proof fn lemma_align_up_unique(addr: int, align: int, s: int)
    requires
        addr >= 0,
        align > 0,
        s % align == 0,
        addr <= s < addr + align,
    ensures
        s == align_up_spec(addr, align),
{
    lemma_align_up_bounds(addr, align);
    let t = align_up_spec(addr, align);
    vstd::arithmetic::div_mod::lemma_fundamental_div_mod(s, align);
    vstd::arithmetic::div_mod::lemma_fundamental_div_mod(t, align);
    let qs = s / align;
    let qt = t / align;
    assert(s == align * qs && t == align * qt);
    assert(qs == qt) by (nonlinear_arith)
        requires
            s == align * qs,
            t == align * qt,
            s - t < align,
            t - s < align,
            align > 0,
    {
        if qs > qt {
            assert(align * qs >= align * (qt + 1));
        } else if qs < qt {
            assert(align * qt >= align * (qs + 1));
        }
    }
}

} // verus!
