//! Which memory page has its protection lifted around a write.
use vstd::prelude::*;

verus! {

/// The start of the page of size `page_size` that holds `address`: the address with its
/// low bits cleared. Only this one page is made writable, so a write that runs past its end
/// is not covered.
pub fn page_start(address: usize, page_size: usize) -> (r: usize)
    requires
        page_size > 0,
    ensures
        r == address - address % page_size,
        r % page_size == 0,
        r <= address < r + page_size,
{
    let m = address % page_size;
    proof {
        let q = address as int / page_size as int;
        vstd::arithmetic::div_mod::lemma_fundamental_div_mod(address as int, page_size as int);
        vstd::arithmetic::div_mod::lemma_mod_multiples_basic(q, page_size as int);
        assert(q >= 0) by (nonlinear_arith)
            requires
                page_size > 0,
                address >= 0,
                q == address as int / page_size as int,
        ;
        assert(q * page_size >= 0) by (nonlinear_arith)
            requires
                page_size > 0,
                q >= 0,
        ;
        assert(address - m == q * page_size);
    }
    address - m
}

} // verus!
