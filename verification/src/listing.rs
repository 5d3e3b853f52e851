//! Paging arithmetic and the query shapes of the listing endpoints.

use vstd::prelude::*;

verus! {

/// A jobs listing request: paging plus optional filters.
pub struct ListQuery {
    pub page: Option<u32>,
    pub limit: Option<u32>,
    pub status: Option<String>,
    pub job_type: Option<String>,
    pub task_id: Option<String>,
}

/// A logs listing request: paging plus optional filters.
pub struct ListLogsQuery {
    pub page: Option<u32>,
    pub limit: Option<u32>,
    pub log_type: Option<String>,
    pub entity_type: Option<String>,
    pub entity_id: Option<String>,
    pub level: Option<String>,
}

/// A sidecar edit request: only the present fields change.
pub struct UpdateMetadataRequest {
    pub database_name: Option<String>,
    pub database_config_id: Option<String>,
    pub backup_type: Option<String>,
    pub compression_type: Option<String>,
}

/// The page count a listing reports: the total rounded up by the page
/// size, zero when the size is zero.
pub open spec fn spec_total_pages(total: int, limit: int) -> int {
    if limit <= 0 {
        0
    } else {
        (total + limit - 1) / limit
    }
}

/// One page's bookkeeping, as every listing response carries it.
#[derive(Clone, Copy, Debug, PartialEq, Eq, Structural)]
pub struct Pagination {
    pub page: u32,
    pub limit: u32,
    pub total: u64,
    pub total_pages: u64,
    pub has_next: bool,
    pub has_prev: bool,
    /// How many rows the listing skips before this page.
    pub offset: u64,
}

/// Settles a listing's paging: absent page and limit fall back to one
/// and the given default, and the offset skips the earlier pages.
pub fn paginate(page: Option<u32>, limit: Option<u32>, default_limit: u32, total: u64) -> (r:
    Pagination)
    ensures
        r.page == (match page {
            Some(p) => p,
            None => 1u32,
        }),
        r.limit == (match limit {
            Some(l) => l,
            None => default_limit,
        }),
        r.total == total,
        r.total_pages == spec_total_pages(total as int, r.limit as int),
        r.has_next == (r.page < r.total_pages),
        r.has_prev == (r.page > 1),
        r.offset == (if r.page >= 1 {
            (r.page - 1) as int * r.limit as int
        } else {
            0int
        }),
{
    let p = match page {
        Some(p) => p,
        None => 1,
    };
    let l = match limit {
        Some(l) => l,
        None => default_limit,
    };
    let total_pages: u64 = if l == 0 {
        0
    } else {
        let q = total / (l as u64);
        if total % (l as u64) == 0 {
            q
        } else {
            proof {
                vstd::arithmetic::div_mod::lemma_fundamental_div_mod(total as int, l as int);
                assert((total as int / l as int) < total as int) by (nonlinear_arith)
                    requires
                        l as int >= 1,
                        total as int % l as int >= 1,
                        total as int == (l as int) * (total as int / l as int) + (total as int
                            % l as int),
                        total as int / l as int >= 0,
                ;
            }
            q + 1
        }
    };
    proof {
        if l > 0 {
            vstd::arithmetic::div_mod::lemma_fundamental_div_mod(total as int, l as int);
            let t = total as int;
            let li = l as int;
            let q = t / li;
            let m = t % li;
            if m == 0 {
                vstd::arithmetic::div_mod::lemma_fundamental_div_mod_converse(
                    t + li - 1,
                    li,
                    q,
                    li - 1,
                );
            } else {
                assert(t + li - 1 == (q + 1) * li + (m - 1)) by (nonlinear_arith)
                    requires
                        t == li * q + m,
                ;
                vstd::arithmetic::div_mod::lemma_fundamental_div_mod_converse(
                    t + li - 1,
                    li,
                    q + 1,
                    m - 1,
                );
            }
        }
    }
    let offset: u64 = if p >= 1 {
        proof {
            assert(((p - 1) as int) * (l as int) <= 0xFFFFFFFFint * 0xFFFFFFFFint)
                by (nonlinear_arith)
                requires
                    0 <= (p - 1) as int <= 0xFFFFFFFFint,
                    0 <= l as int <= 0xFFFFFFFFint,
            ;
        }
        ((p - 1) as u64) * (l as u64)
    } else {
        0
    };
    Pagination {
        page: p,
        limit: l,
        total,
        total_pages,
        has_next: (p as u64) < total_pages,
        has_prev: p > 1,
        offset,
    }
}

} // verus!
