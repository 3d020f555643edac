//! The local search: a query, trimmed and lower-cased, matches a book when
//! its title, summary or author's name, lower-cased, holds the query either
//! as a contiguous run or as a subsequence. A relational store runs it with
//! the two `LIKE` patterns of `pattern`, which select exactly those texts;
//! over rows already read, `search_books_by_description` runs it here.
use vstd::prelude::*;
use crate::models::BookWithAuthor;
use crate::paging::{clamped_request, page_of, PageRequest, PaginatedResult};
use crate::pattern::{contiguous_pattern, contiguous_pattern_of, subsequence_pattern, subsequence_pattern_of};
use crate::text::{
    chars_of, copy_str, is_subsequence, is_substring, lower_of, subsequence_of, substring_of,
    to_lowercase, trim, trim_of,
};

verus! {

/// The query as it is matched: trimmed, then lower-cased.
pub open spec fn normalized_query(q: Seq<char>) -> Seq<char> {
    lower_of(trim_of(q))
}

/// A field matches when, lower-cased, it holds the query contiguously or as
/// a subsequence.
pub open spec fn field_matches(qn: Seq<char>, field: Seq<char>) -> bool {
    is_substring(qn, lower_of(field)) || is_subsequence(qn, lower_of(field))
}

/// A book matches when its title, its summary (if any) or its author's name
/// matches.
pub open spec fn book_matches(qn: Seq<char>, b: BookWithAuthor) -> bool {
    field_matches(qn, b.title@) || (b.summary is Some && field_matches(qn, b.summary->0@))
        || field_matches(qn, b.author.name@)
}

/// The books of `rows` that match, in the order of `rows`.
pub open spec fn matching_books(qn: Seq<char>, rows: Seq<BookWithAuthor>) -> Seq<BookWithAuthor>
    decreases rows.len(),
{
    if rows.len() == 0 {
        Seq::empty()
    } else {
        let before = matching_books(qn, rows.drop_last());
        if book_matches(qn, rows.last()) {
            before.push(rows.last())
        } else {
            before
        }
    }
}

/// Whether one field matches the normalised query `qn`.
pub fn field_matches_query(qn: &Vec<char>, field: &str) -> (r: bool)
    ensures
        r == field_matches(qn@, field@),
{
    let lowered = to_lowercase(field);
    let cs = chars_of(lowered.as_str());
    substring_of(qn, &cs) || subsequence_of(qn, &cs)
}

/// Whether a book matches the normalised query `qn`.
pub fn book_matches_query(qn: &Vec<char>, b: &BookWithAuthor) -> (r: bool)
    ensures
        r == book_matches(qn@, *b),
{
    if field_matches_query(qn, b.title.as_str()) {
        return true;
    }
    if let Some(s) = &b.summary {
        if field_matches_query(qn, s.as_str()) {
            return true;
        }
    }
    field_matches_query(qn, b.author.name.as_str())
}

/// The page `page` (of `per_page` books) of the books in `rows` that match
/// `q`, with the number of all that match. `rows` is the catalogue in the
/// order in which pages are cut. A query that is blank once trimmed
/// matches nothing. The page and the page size are raised to one where
/// lower.
pub fn search_books_by_description(rows: &Vec<BookWithAuthor>, q: &str, page: i64, per_page: i64)
    -> (r: PaginatedResult<BookWithAuthor>)
    ensures
        r.page == clamped_request(page as int, per_page as int).page,
        r.per_page == clamped_request(page as int, per_page as int).per_page,
        r.query@ == q@,
        trim_of(q@).len() == 0 ==> r.total == 0 && r.items@.len() == 0,
        trim_of(q@).len() > 0 ==> {
            let all = matching_books(normalized_query(q@), rows@);
            &&& r.total == all.len()
            &&& r.items@ == page_of(all, clamped_request(page as int, per_page as int))
        },
{
    let req = PageRequest::new(page, per_page);
    let trimmed = trim(q);
    if trimmed.unicode_len() == 0 {
        return PaginatedResult::empty(copy_str(q), req);
    }
    let lowered = to_lowercase(trimmed);
    let qn = chars_of(lowered.as_str());
    let ghost qs = normalized_query(q@);
    let mut all: Vec<BookWithAuthor> = Vec::new();
    let mut i: usize = 0;
    while i < rows.len()
        invariant
            qn@ == qs,
            i <= rows.len(),
            all@ == matching_books(qs, rows@.subrange(0, i as int)),
        decreases rows.len() - i,
    {
        let ghost prefix = rows@.subrange(0, i + 1);
        assert(prefix.drop_last() =~= rows@.subrange(0, i as int));
        assert(prefix.last() == rows@[i as int]);
        if book_matches_query(&qn, &rows[i]) {
            all.push(rows[i].clone());
        }
        i = i + 1;
    }
    assert(rows@.subrange(0, rows.len() as int) =~= rows@);
    let (start, end) = req.window(all.len());
    let mut items: Vec<BookWithAuthor> = Vec::new();
    let mut k: usize = start;
    while k < end
        invariant
            start <= k <= end,
            end <= all.len(),
            items@ == all@.subrange(start as int, k as int),
        decreases end - k,
    {
        items.push(all[k].clone());
        k = k + 1;
        assert(items@ =~= all@.subrange(start as int, k as int));
    }
    PaginatedResult {
        items,
        total: all.len() as u64,
        page: req.page,
        per_page: req.per_page,
        query: copy_str(q),
    }
}

/// The parameters of the two queries that run the local search in a
/// relational store: the patterns to match (with `\` as escape
/// character) against the lower-cased title, summary and author's name, and
/// the page to cut from the matches.
#[derive(Debug, Clone, PartialEq, Eq)]
pub struct LikeQuery {
    pub contiguous: String,
    pub subsequence: String,
    pub limit: i64,
    pub offset: i64,
}

/// The store's queries for `q` on page `page` of `per_page`; none for a
/// query that is blank once trimmed, which matches nothing. The offset is
/// cut to the largest `i64`.
pub fn like_query(q: &str, page: i64, per_page: i64) -> (r: Option<LikeQuery>)
    ensures
        trim_of(q@).len() == 0 ==> r is None,
        trim_of(q@).len() > 0 ==> r is Some && {
            let lq = r->0;
            let req = clamped_request(page as int, per_page as int);
            &&& lq.contiguous@ == contiguous_pattern_of(normalized_query(q@))
            &&& lq.subsequence@ == subsequence_pattern_of(normalized_query(q@))
            &&& lq.limit == req.per_page
            &&& lq.offset == if req.offset_of() > i64::MAX {
                i64::MAX as int
            } else {
                req.offset_of()
            }
        },
{
    let trimmed = trim(q);
    if trimmed.unicode_len() == 0 {
        return None;
    }
    let lowered = to_lowercase(trimmed);
    let req = PageRequest::new(page, per_page);
    let off = req.offset();
    let offset: i64 = if off > i64::MAX as u128 {
        i64::MAX
    } else {
        off as i64
    };
    Some(
        LikeQuery {
            contiguous: contiguous_pattern(lowered.as_str()),
            subsequence: subsequence_pattern(lowered.as_str()),
            limit: req.per_page as i64,
            offset,
        },
    )
}

} // verus!
