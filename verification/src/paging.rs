//! Pagination: given an ordered list and `(limit, page)`, the zero-indexed
//! page slice of at most `limit` records, together with the total record
//! count and the total page count. A page past the end yields an empty
//! slice, not an error.

use vstd::prelude::*;

verus! {

/// One page of an ordered result set, with the totals a caller needs to
/// request the remaining pages.
#[derive(Debug)]
pub struct PagedResponse<T> {
    pub page: usize,
    pub limit: usize,
    pub total: usize,
    pub total_pages: usize,
    pub data: Vec<T>,
}

/// The zero-indexed page slice: records `page * limit` up to the smaller of
/// `(page + 1) * limit` and the total; empty past the end.
pub open spec fn spec_page_slice<T>(s: Seq<T>, limit: int, page: int) -> Seq<T>
    recommends
        limit >= 1,
{
    if page * limit >= s.len() {
        Seq::<T>::empty()
    } else if (page + 1) * limit <= s.len() {
        s.subrange(page * limit, (page + 1) * limit)
    } else {
        s.subrange(page * limit, s.len() as int)
    }
}

/// The number of pages `total` records fill at `limit` records a page: the
/// total divided by the limit, rounded up.
pub open spec fn spec_total_pages(total: int, limit: int) -> int
    recommends
        limit >= 1,
{
    if total == 0 {
        0
    } else {
        (total - 1) / limit + 1
    }
}

/// Slices one page out of an ordered list. The result carries the requested
/// page and limit back, the total record count, and the total page count;
/// a page past the end yields an empty slice.
#[verifier::loop_isolation(false)]
pub fn get_paged_data<T>(data: Vec<T>, limit: usize, page: usize) -> (r: PagedResponse<T>)
    requires
        limit >= 1,
    ensures
        r.page == page,
        r.limit == limit,
        r.total == data@.len(),
        r.total_pages == spec_total_pages(data@.len() as int, limit as int),
        r.data@ == spec_page_slice(data@, limit as int, page as int),
{
    let ghost orig = data@;
    let mut data = data;
    let total = data.len();
    let total_pages: usize = if total == 0 {
        0
    } else {
        proof {
            assert(((total - 1) as int) / (limit as int) <= (total - 1) as int)
                by (nonlinear_arith)
                requires
                    limit >= 1,
                    total >= 1,
            ;
        }
        (total - 1) / limit + 1
    };
    if total == 0 {
        proof {
            assert(page * limit >= orig.len()) by (nonlinear_arith)
                requires
                    page >= 0,
                    limit >= 1,
                    orig.len() == 0,
            ;
        }
        return PagedResponse { page, limit, total, total_pages, data };
    }
    let last_page: usize = (total - 1) / limit;
    if page > last_page {
        proof {
            assert(page * limit >= orig.len()) by (nonlinear_arith)
                requires
                    limit >= 1,
                    total == orig.len(),
                    total >= 1,
                    page > ((total - 1) as int) / (limit as int),
            ;
        }
        let empty: Vec<T> = Vec::new();
        return PagedResponse { page, limit, total, total_pages, data: empty };
    }
    proof {
        assert(page * limit <= (total - 1) as int) by (nonlinear_arith)
            requires
                limit >= 1,
                total >= 1,
                0 <= page <= ((total - 1) as int) / (limit as int),
        ;
    }
    let start: usize = page * limit;
    let mut rest = data.split_off(start);
    rest.truncate(limit);
    proof {
        let l = limit as int;
        let p = page as int;
        let n = orig.len() as int;
        assert(p * l < n);
        if (p + 1) * l <= n {
            assert(rest@ =~= orig.subrange(p * l, (p + 1) * l)) by {
                assert((p + 1) * l == p * l + l) by (nonlinear_arith);
            }
        } else {
            assert((p + 1) * l == p * l + l) by (nonlinear_arith);
            assert(rest@ =~= orig.subrange(p * l, n));
        }
    }
    PagedResponse { page, limit, total, total_pages, data: rest }
}

} // verus!
