//! The pagination primitive: a page of rows plus paging metadata, and the
//! shared parsing and arithmetic every list operation uses. `page` parses
//! as a positive integer, defaulting to 1 and flooring at 1; `limit`
//! parses as a positive integer, capping at 100; anything missing,
//! unparseable or non-positive falls back to 10, so the page size is
//! always at least 1 and the page count never divides by zero.

use vstd::prelude::*;

use crate::numeric::parse_u64;
use crate::numeric::parse_u64_spec;
use crate::text::str_eq;

verus! {

/// One page of results together with the paging metadata: the count of
/// all rows matching the filter, the 1-based page number, the page size,
/// and the number of pages needed to cover the whole filtered set.
pub struct PaginatedResult<T> {
    pub data: Vec<T>,
    pub total: u64,
    pub page: u64,
    pub limit: u64,
    pub total_pages: u64,
}

/// The page number a list request resolves to: the parsed value floored
/// at 1; missing or unparseable input falls back to 1.
pub open spec fn spec_page(page: Option<String>) -> u64 {
    match page {
        Some(s) => match parse_u64_spec(s@) {
            Some(v) => if v >= 1 {
                v
            } else {
                1
            },
            None => 1,
        },
        None => 1,
    }
}

/// The page size a list request resolves to: the parsed value capped at
/// 100. The parameter must parse as a positive integer; a missing,
/// unparseable or zero value falls back to 10.
pub open spec fn spec_limit(limit: Option<String>) -> u64 {
    match limit {
        Some(s) => match parse_u64_spec(s@) {
            Some(v) => if v > 100 {
                100
            } else if v == 0 {
                10
            } else {
                v
            },
            None => 10,
        },
        None => 10,
    }
}

/// Resolves the string-typed `page` query parameter.
pub fn page_param(page: &Option<String>) -> (p: u64)
    ensures
        p == spec_page(*page),
        p >= 1,
{
    match page {
        Some(s) => match parse_u64(s.as_str()) {
            Some(v) => if v >= 1 {
                v
            } else {
                1
            },
            None => 1,
        },
        None => 1,
    }
}

/// Resolves the string-typed `limit` query parameter.
pub fn limit_param(limit: &Option<String>) -> (l: u64)
    ensures
        l == spec_limit(*limit),
        1 <= l <= 100,
{
    match limit {
        Some(s) => match parse_u64(s.as_str()) {
            Some(v) => if v > 100 {
                100
            } else if v == 0 {
                10
            } else {
                v
            },
            None => 10,
        },
        None => 10,
    }
}

/// The number of pages of size `limit` needed to hold `total` rows.
pub open spec fn spec_total_pages(total: int, limit: int) -> int {
    if total % limit == 0 {
        total / limit
    } else {
        total / limit + 1
    }
}

/// Computes the page count by ceiling division.
pub fn total_pages(total: u64, limit: u64) -> (tp: u64)
    requires
        1 <= limit,
    ensures
        tp == spec_total_pages(total as int, limit as int),
{
    let q = total / limit;
    if total % limit == 0 {
        q
    } else {
        proof {
            assert(limit >= 2) by {
                if limit == 1 {
                    assert(total as int % 1 == 0);
                }
            }
            assert(q < u64::MAX) by (nonlinear_arith)
                requires
                    q == total as int / limit as int,
                    limit >= 2,
                    total <= u64::MAX,
            ;
        }
        q + 1
    }
}

/// Whether the `direction` parameter selects descending order: exactly
/// the two literals "desc" and "DESC" do; anything else, or nothing,
/// keeps ascending order.
pub open spec fn spec_is_desc(direction: Option<String>) -> bool {
    match direction {
        Some(d) => d@ == "desc"@ || d@ == "DESC"@,
        None => false,
    }
}

/// Resolves the `direction` query parameter.
pub fn is_desc(direction: &Option<String>) -> (r: bool)
    ensures
        r == spec_is_desc(*direction),
{
    match direction {
        Some(d) => str_eq(d.as_str(), "desc") || str_eq(d.as_str(), "DESC"),
        None => false,
    }
}

/// Order on nullable timestamps: a missing value sorts after every
/// present one.
pub open spec fn opt_lt(a: Option<i64>, b: Option<i64>) -> bool {
    match (a, b) {
        (Some(x), Some(y)) => x < y,
        (Some(_), None) => true,
        (None, _) => false,
    }
}

/// Compares nullable timestamps with missing values last.
pub fn opt_i64_lt(a: &Option<i64>, b: &Option<i64>) -> (r: bool)
    ensures
        r == opt_lt(*a, *b),
{
    match (a, b) {
        (Some(x), Some(y)) => *x < *y,
        (Some(_), None) => true,
        (None, _) => false,
    }
}

/// Where the requested page starts in the filtered, ordered row list.
pub open spec fn spec_page_start(len: int, page: int, limit: int) -> int {
    if (page - 1) * limit <= len {
        (page - 1) * limit
    } else {
        len
    }
}

/// Where the requested page ends in the filtered, ordered row list.
pub open spec fn spec_page_end(len: int, page: int, limit: int) -> int {
    if spec_page_start(len, page, limit) + limit <= len {
        spec_page_start(len, page, limit) + limit
    } else {
        len
    }
}

/// Computes the half-open index range of the requested page.
pub fn page_bounds(len: usize, page: u64, limit: u64) -> (se: (usize, usize))
    requires
        page >= 1,
        1 <= limit <= 100,
    ensures
        se.0 == spec_page_start(len as int, page as int, limit as int),
        se.1 == spec_page_end(len as int, page as int, limit as int),
        se.0 <= se.1 <= len,
{
    let start: usize = match (page - 1).checked_mul(limit) {
        Some(off) => {
            if off <= len as u64 {
                off as usize
            } else {
                len
            }
        },
        None => {
            proof {
                assert((page - 1) as int * limit as int > u64::MAX);
            }
            len
        },
    };
    let rem = len - start;
    let end: usize = if (limit as usize) <= rem {
        start + limit as usize
    } else {
        len
    };
    (start, end)
}

} // verus!
