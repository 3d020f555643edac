//! Page selection shared by both search backends, and the envelope in which
//! a page of results travels.
use vstd::prelude::*;

verus! {

/// The page that is served when the caller names none.
pub const DEFAULT_PAGE: i64 = 1;

/// The page size that is served when the caller names none.
pub const DEFAULT_PER_PAGE: i64 = 10;

/// A page number or page size below one counts as one.
pub open spec fn at_least_one(n: int) -> int {
    if n < 1 {
        1
    } else {
        n
    }
}

/// The request that `page` and `per_page` stand for, each raised to one.
pub open spec fn clamped_request(page: int, per_page: int) -> PageRequest {
    PageRequest { page: at_least_one(page) as u64, per_page: at_least_one(per_page) as u64 }
}

/// A normalised page request: both numbers are at least one.
#[derive(Debug, Clone, Copy, PartialEq, Eq)]
pub struct PageRequest {
    pub page: u64,
    pub per_page: u64,
}

impl PageRequest {
    pub open spec fn wf(&self) -> bool {
        self.page >= 1 && self.per_page >= 1
    }

    /// How many results come before this page.
    pub open spec fn offset_of(&self) -> int {
        (self.page - 1) * self.per_page
    }

    /// `page` and `per_page`, each raised to one where it is lower.
    pub fn new(page: i64, per_page: i64) -> (r: PageRequest)
        ensures
            r.wf(),
            r == clamped_request(page as int, per_page as int),
    {
        let p: u64 = if page < 1 {
            1
        } else {
            page as u64
        };
        let n: u64 = if per_page < 1 {
            1
        } else {
            per_page as u64
        };
        PageRequest { page: p, per_page: n }
    }

    /// The request that optional parameters stand for.
    pub open spec fn from_params_spec(page: Option<i64>, per_page: Option<i64>) -> PageRequest {
        clamped_request(
            match page {
                Some(p) => p as int,
                None => DEFAULT_PAGE as int,
            },
            match per_page {
                Some(n) => n as int,
                None => DEFAULT_PER_PAGE as int,
            },
        )
    }

    /// A request from optional parameters: a missing one takes its default
    /// (page 1, ten per page), then both are raised to one where lower.
    pub fn from_params(page: Option<i64>, per_page: Option<i64>) -> (r: PageRequest)
        ensures
            r.wf(),
            r == PageRequest::from_params_spec(page, per_page),
    {
        let p = match page {
            Some(p) => p,
            None => DEFAULT_PAGE,
        };
        let n = match per_page {
            Some(n) => n,
            None => DEFAULT_PER_PAGE,
        };
        PageRequest::new(p, n)
    }

    /// `(page - 1) * per_page`.
    pub fn offset(&self) -> (r: u128)
        requires
            self.wf(),
        ensures
            r == self.offset_of(),
            r + self.per_page <= u128::MAX,
    {
        let a: u128 = (self.page - 1) as u128;
        let b: u128 = self.per_page as u128;
        assert(a * b + b <= 0x1_0000_0000_0000_0000u128 * 0xffff_ffff_ffff_ffffu128)
            by (nonlinear_arith)
            requires
                a < 0xffff_ffff_ffff_ffffu128,
                b <= 0xffff_ffff_ffff_ffffu128,
        ;
        a * b
    }

    /// The bounds of this page within `len` results: `[start, end)`, both cut
    /// to `len`.
    pub fn window(&self, len: usize) -> (r: (usize, usize))
        requires
            self.wf(),
        ensures
            r.0 == min_int(self.offset_of(), len as int),
            r.1 == min_int(self.offset_of() + self.per_page, len as int),
    {
        let off = self.offset();
        let start: usize = if off >= len as u128 {
            len
        } else {
            off as usize
        };
        let end: usize = if off + self.per_page as u128 >= len as u128 {
            len
        } else {
            (off + self.per_page as u128) as usize
        };
        (start, end)
    }
}

/// The smaller of two integers.
pub open spec fn min_int(a: int, b: int) -> int {
    if a < b {
        a
    } else {
        b
    }
}

/// The results of `rs` that fall on the page `req`.
pub open spec fn page_of<T>(rs: Seq<T>, req: PageRequest) -> Seq<T> {
    rs.subrange(
        min_int(req.offset_of(), rs.len() as int),
        min_int(req.offset_of() + req.per_page, rs.len() as int),
    )
}

/// One page of results: the items on it, how many results there are in
/// all, the page and page size it was cut with, and the query as given.
#[derive(Debug)]
pub struct PaginatedResult<T> {
    pub items: Vec<T>,
    pub total: u64,
    pub page: u64,
    pub per_page: u64,
    pub query: String,
}

impl<T> PaginatedResult<T> {
    /// A page with no items and a total of zero.
    pub fn empty(query: String, req: PageRequest) -> (r: Self)
        ensures
            r.items@.len() == 0,
            r.total == 0,
            r.page == req.page,
            r.per_page == req.per_page,
            r.query == query,
    {
        PaginatedResult { items: Vec::new(), total: 0, page: req.page, per_page: req.per_page, query }
    }
}

} // verus!
