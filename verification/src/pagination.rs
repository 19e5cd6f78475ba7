//! Limit/offset computation shared by every list endpoint.

use vstd::prelude::*;
use crate::schema::FilterOptions;

verus! {

/// Default number of rows for a plain list endpoint.
pub const DEFAULT_LIST_LIMIT: usize = 10;

/// Default number of rows for the featured-products view.
pub const FEATURED_PRODUCTS_LIMIT: usize = 14;

/// The limit actually used: the requested one, or the component default.
pub open spec fn effective_limit(opts: FilterOptions, default_limit: usize) -> int {
    match opts.limit {
        Some(l) => l as int,
        None => default_limit as int,
    }
}

/// The page actually used: the requested one, or page 1.
pub open spec fn effective_page(opts: FilterOptions) -> int {
    match opts.page {
        Some(p) => p as int,
        None => 1,
    }
}

/// Computes `(limit, offset)` for a list query: `limit` is the requested or
/// default limit, and `offset` skips the first `page - 1` pages. Pages are
/// 1-based; page 0 would demand a negative offset, which no caller may ask
/// for.
pub fn compute_pagination(opts: &FilterOptions, default_limit: usize) -> (r: (usize, usize))
    requires
        effective_page(*opts) >= 1,
        (effective_page(*opts) - 1) * effective_limit(*opts, default_limit) <= usize::MAX,
    ensures
        r.0 == effective_limit(*opts, default_limit),
        r.1 == (effective_page(*opts) - 1) * effective_limit(*opts, default_limit),
{
    let limit: usize = match opts.limit {
        Some(l) => l,
        None => default_limit,
    };
    let page: usize = match opts.page {
        Some(p) => p,
        None => 1,
    };
    let offset: usize = (page - 1) * limit;
    (limit, offset)
}

} // verus!
