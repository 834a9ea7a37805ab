//! Common query parameters: pagination options and the id path segment.

use vstd::prelude::*;

verus! {

/// Pagination query options shared by resources without extra filters.
pub struct FilterOptions {
    pub limit: Option<usize>,
    pub offset: Option<usize>,
}

/// The parsed id path segment.
pub struct PathOptions {
    pub id: u128,
}

/// The page size: `limit`, defaulting to 10.
pub open spec fn eff_limit(l: Option<usize>) -> int {
    match l {
        None => 10,
        Some(x) => x as int,
    }
}

/// The 1-based page index: `offset`, defaulting to 1.
pub open spec fn eff_offset(o: Option<usize>) -> int {
    match o {
        None => 1,
        Some(x) => x as int,
    }
}

/// How many rows a page skips: `(offset - 1) * base`, where `base` is the
/// resource's page-size base (its limit, or 1 where the resource pages by
/// single rows).
pub open spec fn eff_skip(o: Option<usize>, base: int) -> int {
    (eff_offset(o) - 1) * base
}

/// The pagination inputs a list call accepts: a positive page index whose
/// skip count fits in a machine word.
pub open spec fn list_opts_ok(l: Option<usize>, o: Option<usize>, unit_base: bool) -> bool {
    &&& eff_offset(o) >= 1
    &&& eff_skip(o, if unit_base { 1 } else { eff_limit(l) }) <= usize::MAX
}

/// The `skip..skip+limit` window of `s`, clipped to its length.
pub open spec fn page_of<T>(s: Seq<T>, skip: int, limit: int) -> Seq<T> {
    if skip >= s.len() {
        Seq::empty()
    } else if skip + limit <= s.len() {
        s.subrange(skip, skip + limit)
    } else {
        s.subrange(skip, s.len() as int)
    }
}

/// The effective page size.
pub fn limit_count(l: &Option<usize>) -> (r: usize)
    ensures
        r as int == eff_limit(*l),
{
    match l {
        None => 10,
        Some(x) => *x,
    }
}

/// The number of rows a page skips.
pub fn skip_count(l: &Option<usize>, o: &Option<usize>, unit_base: bool) -> (r: usize)
    requires
        list_opts_ok(*l, *o, unit_base),
    ensures
        r as int == eff_skip(*o, if unit_base { 1 } else { eff_limit(*l) }),
{
    let off: usize = match o {
        None => 1,
        Some(x) => *x,
    };
    let base: usize = if unit_base {
        1
    } else {
        limit_count(l)
    };
    (off - 1) * base
}

} // verus!
