//! Pages of the route result list.
use vstd::prelude::*;

verus! {

/// Number of pages for `count` results: at least one.
pub open spec fn pages_for(count: nat, page_size: nat) -> nat {
    if count == 0 {
        1
    } else {
        ((count + page_size - 1) / page_size as int) as nat
    }
}

/// Positions `start .. end` of the results shown on `page`: empty past the
/// last result.
pub open spec fn page_span(page: nat, page_size: nat, len: nat) -> (nat, nat) {
    let start = page * page_size;
    if start >= len {
        (0, 0)
    } else if start + page_size <= len {
        (start, start + page_size)
    } else {
        (start, len)
    }
}

pub fn total_pages(count: usize, page_size: usize) -> (r: usize)
    requires
        page_size > 0,
    ensures
        r == pages_for(count as nat, page_size as nat),
{
    if count == 0 {
        1
    } else {
        let q = count / page_size;
        if count % page_size == 0 {
            assert((count + page_size - 1) / page_size as int == q) by (nonlinear_arith)
                requires
                    q == count / page_size,
                    count % page_size == 0,
                    page_size > 0,
            ;
            q
        } else {
            assert((count + page_size - 1) / page_size as int == q + 1 && q < count) by (
            nonlinear_arith)
                requires
                    q == count / page_size,
                    count % page_size != 0,
                    page_size > 0,
            ;
            q + 1
        }
    }
}

/// The span of results on `page`, whose start (and, when it lies before the
/// last result, its end) fits in `usize`.
pub fn page_range(page: usize, page_size: usize, len: usize) -> (r: (usize, usize))
    requires
        page * page_size <= usize::MAX,
        page * page_size >= len || page * page_size + page_size <= usize::MAX,
    ensures
        (r.0 as nat, r.1 as nat) == page_span(page as nat, page_size as nat, len as nat),
{
    let start = page * page_size;
    if start >= len {
        return (0, 0);
    }
    let end = if start + page_size <= len {
        start + page_size
    } else {
        len
    };
    (start, end)
}

/// Every result lies on exactly one page, and that page is one of the
/// counted pages.
pub proof fn lemma_result_on_one_page(i: nat, page_size: nat, len: nat)
    requires
        page_size > 0,
        i < len,
    ensures
        ({
            let p = i / page_size;
            let (s, e) = page_span(p, page_size, len);
            &&& s <= i < e
            &&& p < pages_for(len, page_size)
        }),
        forall|q: nat|
            #![trigger page_span(q, page_size, len)]
            q != i / page_size ==> !(page_span(q, page_size, len).0 <= i < page_span(
                q,
                page_size,
                len,
            ).1),
{
    let p = i / page_size;
    assert(p * page_size <= i < p * page_size + page_size) by (nonlinear_arith)
        requires
            p == i / page_size,
            page_size > 0,
    ;
    assert(p < pages_for(len, page_size)) by (nonlinear_arith)
        requires
            p == i / page_size,
            page_size > 0,
            i < len,
            len > 0,
            pages_for(len, page_size) == (len + page_size - 1) / page_size as int,
    ;
    assert forall|q: nat|
        #![trigger page_span(q, page_size, len)]
        q != p implies !(page_span(q, page_size, len).0 <= i < page_span(q, page_size, len).1) by {
        if q < p {
            assert(q * page_size + page_size <= p * page_size) by (nonlinear_arith)
                requires
                    q < p,
                    page_size > 0,
            ;
        } else {
            assert(p * page_size + page_size <= q * page_size) by (nonlinear_arith)
                requires
                    p < q,
                    page_size > 0,
            ;
        }
    }
}

} // verus!
