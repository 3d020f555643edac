//! The search gateway: fixed at construction as remote-enabled or
//! remote-disabled. Each operation is a step that either answers at once or
//! names the request to send; the caller sends it and hands the answer (or
//! nothing, when the call failed in any way) to the finishing step.
use vstd::prelude::*;
use crate::json::Json;
use crate::models::{copy_opt_string, BookWithAuthor};
use crate::paging::{PageRequest, PaginatedResult};
use crate::response::{
    page_read_from, parse_book_ids, parse_search_response, parse_suggestions, response_book_ids,
    suggestions_of,
    views, SearchHit,
};
use crate::text::{copy_str, push_char, push_str, trim, trim_of};

verus! {

/// How a multi-field match combines its fields.
#[derive(Debug, Clone, Copy, PartialEq, Eq)]
pub enum MatchKind {
    /// Scores by the best single field.
    BestFields,
    /// Treats the fields as one combined field.
    CrossFields,
}

/// A field to match, with its relevance weight.
#[derive(Debug, Clone, PartialEq, Eq)]
pub struct FieldBoost {
    pub field: String,
    pub boost: u32,
}

/// A query matched across several weighted fields.
#[derive(Debug, Clone, PartialEq, Eq)]
pub struct MultiMatch {
    pub query: String,
    pub kind: MatchKind,
    pub fields: Vec<FieldBoost>,
    /// Typo tolerance chosen by the engine from each term's length.
    pub fuzzy: bool,
    /// Every term must match, not just one.
    pub all_terms: bool,
}

/// Which fields to return highlighted, and the markers around each match.
#[derive(Debug, Clone, PartialEq, Eq)]
pub struct Highlight {
    pub fields: Vec<String>,
    pub pre_tag: String,
    pub post_tag: String,
}

/// A ranked search to send to the engine.
#[derive(Debug, Clone, PartialEq, Eq)]
pub struct SearchRequest {
    pub url: String,
    pub from: u64,
    pub size: u64,
    pub source_fields: Vec<String>,
    pub must: MultiMatch,
    pub should: Option<MultiMatch>,
    pub minimum_should_match: u32,
    pub highlight: Option<Highlight>,
}

/// A completion query to send to the engine.
#[derive(Debug, Clone, PartialEq, Eq)]
pub struct SuggestRequest {
    pub url: String,
    pub prefix: String,
    pub field: String,
    pub skip_duplicates: bool,
    pub fuzziness: u32,
    pub size: u64,
}

/// The first step of a search: an answer, or a request to send.
#[derive(Debug)]
pub enum SearchStep {
    Done(PaginatedResult<SearchHit>),
    Send(SearchRequest, PageRequest),
}

/// The engine's address, index names, credentials and highlight markers,
/// and whether the engine is used at all; fixed at construction.
#[derive(Debug, Clone)]
pub struct Search {
    pub enabled: bool,
    pub base: String,
    pub idx_books: String,
    pub idx_reviews: String,
    pub user: Option<String>,
    pub pass: Option<String>,
    /// The markers written before and after each highlighted match.
    pub pre_tag: String,
    pub post_tag: String,
}

/// A book as the engine indexes it; `suggest` feeds the completion
/// structure.
#[derive(Debug, Clone, PartialEq, Eq)]
pub struct SearchDocument {
    pub id: Option<i32>,
    pub title: String,
    pub author: String,
    pub description: Option<String>,
    pub suggest: Vec<String>,
}

/// The document that indexes `b`: its title, its author's name and its
/// summary, completed by its title.
pub fn search_document(b: &BookWithAuthor) -> (r: SearchDocument)
    ensures
        r.id == b.id,
        r.title@ == b.title@,
        r.author@ == b.author.name@,
        r.description == b.summary,
        views(r.suggest@) == seq![b.title@],
{
    let mut suggest: Vec<String> = Vec::new();
    suggest.push(b.title.clone());
    assert(views(suggest@) =~= seq![b.title@]);
    SearchDocument {
        id: b.id,
        title: b.title.clone(),
        author: b.author.name.clone(),
        description: copy_opt_string(&b.summary),
        suggest,
    }
}

/// `s` without the `/` characters at its end.
pub open spec fn without_trailing_slashes(s: Seq<char>) -> Seq<char>
    decreases s.len(),
{
    if s.len() > 0 && s.last() == '/' {
        without_trailing_slashes(s.drop_last())
    } else {
        s
    }
}

/// `c` with ASCII upper case letters made lower case.
pub open spec fn ascii_lower(c: char) -> char {
    if 'A' <= c <= 'Z' {
        ((c as u32) + 32) as char
    } else {
        c
    }
}

/// `s` equals `word` when ASCII letters are compared without case.
pub open spec fn ascii_eq_ignoring_case(s: Seq<char>, word: Seq<char>) -> bool {
    s.len() == word.len() && forall|i: int| 0 <= i < s.len() ==> ascii_lower(#[trigger] s[i])
        == ascii_lower(word[i])
}

/// A setting that switches a feature on: `1`, `true`, `yes` or `on`, in any
/// ASCII case.
pub open spec fn is_on(s: Seq<char>) -> bool {
    ascii_eq_ignoring_case(s, "1"@) || ascii_eq_ignoring_case(s, "true"@)
        || ascii_eq_ignoring_case(s, "yes"@) || ascii_eq_ignoring_case(s, "on"@)
}

/// The search endpoint of index `index` under `base`.
pub open spec fn search_url_of(base: Seq<char>, index: Seq<char>) -> Seq<char> {
    base + "/"@ + index + "/_search"@
}

/// The fields of a weighted list, with their weights.
pub open spec fn weighted(fs: Seq<FieldBoost>) -> Seq<(Seq<char>, u32)> {
    fs.map_values(|f: FieldBoost| (f.field@, f.boost))
}

/// The weights of the required clause of a ranked search: the title
/// weighs most.
pub open spec fn must_weights() -> Seq<(Seq<char>, u32)> {
    seq![("title"@, 4u32), ("author"@, 3u32), ("description"@, 1u32)]
}

/// The weights of the optional typo-tolerant clause.
pub open spec fn should_weights() -> Seq<(Seq<char>, u32)> {
    seq![("title"@, 3u32), ("author"@, 2u32), ("description"@, 1u32)]
}

/// The weights of the identifier search.
pub open spec fn id_search_weights() -> Seq<(Seq<char>, u32)> {
    seq![
        ("title"@, 4u32),
        ("title.ac"@, 5u32),
        ("author"@, 3u32),
        ("author.ac"@, 3u32),
        ("description"@, 1u32),
    ]
}

/// The document fields a ranked search returns.
pub open spec fn ranked_source_fields() -> Seq<Seq<char>> {
    seq![
        "id"@,
        "title"@,
        "author"@,
        "description"@,
        "genres"@,
        "rating"@,
        "published_year"@,
    ]
}

/// The fields that come back highlighted.
pub open spec fn highlighted_fields() -> Seq<Seq<char>> {
    seq!["title"@, "author"@, "description"@]
}

/// `n`, or the largest `u64` where `n` is larger.
pub open spec fn saturate(n: int) -> u64 {
    if n > u64::MAX {
        u64::MAX
    } else {
        n as u64
    }
}

/// The ranked search for `q` on page `req`: every term must match across
/// title, author and description (title weighted highest); an optional
/// typo-tolerant clause over the same fields only reorders, since no
/// optional clause needs to match; the three fields come back highlighted
/// with the gateway's markers around each match.
pub open spec fn is_ranked_request(r: SearchRequest, s: Search, q: Seq<char>, req: PageRequest) -> bool {
    &&& r.url@ == search_url_of(s.base@, s.idx_books@)
    &&& r.from == saturate(req.offset_of())
    &&& r.size == req.per_page
    &&& views(r.source_fields@) == ranked_source_fields()
    &&& r.must.query@ == q
    &&& r.must.kind == MatchKind::CrossFields
    &&& weighted(r.must.fields@) == must_weights()
    &&& !r.must.fuzzy
    &&& r.must.all_terms
    &&& r.should is Some
    &&& r.should->0.query@ == q
    &&& r.should->0.kind == MatchKind::BestFields
    &&& weighted(r.should->0.fields@) == should_weights()
    &&& r.should->0.fuzzy
    &&& !r.should->0.all_terms
    &&& r.minimum_should_match == 0
    &&& r.highlight is Some
    &&& views(r.highlight->0.fields@) == highlighted_fields()
    &&& r.highlight->0.pre_tag@ == s.pre_tag@
    &&& r.highlight->0.post_tag@ == s.post_tag@
}

/// The completion query for `prefix`: on the `suggest` field, duplicates
/// skipped, one edit of typo tolerance, at most `limit` options.
pub open spec fn is_suggest_request(r: SuggestRequest, s: Search, prefix: Seq<char>, limit: usize) -> bool {
    &&& r.url@ == search_url_of(s.base@, s.idx_books@)
    &&& r.prefix@ == prefix
    &&& r.field@ == "suggest"@
    &&& r.skip_duplicates
    &&& r.fuzziness == 1
    &&& r.size == limit
}

/// Relies on `char::to_ascii_lowercase`: ASCII upper case letters become
/// lower case, every other character stays.
#[verifier::external_body]
fn lower_ascii_char(c: char) -> (r: char)
    ensures
        r == ascii_lower(c),
{
    c.to_ascii_lowercase()
}

/// Whether `s` equals `word` when ASCII letters are compared without case.
fn eq_ignoring_ascii_case(s: &str, word: &str) -> (r: bool)
    ensures
        r == ascii_eq_ignoring_case(s@, word@),
{
    let n = s.unicode_len();
    if n != word.unicode_len() {
        return false;
    }
    let mut i: usize = 0;
    while i < n
        invariant
            n == s@.len(),
            n == word@.len(),
            i <= n,
            forall|k: int| 0 <= k < i ==> ascii_lower(#[trigger] s@[k]) == ascii_lower(word@[k]),
        decreases n - i,
    {
        if lower_ascii_char(s.get_char(i)) != lower_ascii_char(word.get_char(i)) {
            return false;
        }
        i = i + 1;
    }
    true
}

/// Whether a setting switches a feature on.
pub fn flag_is_on(s: &str) -> (r: bool)
    ensures
        r == is_on(s@),
{
    eq_ignoring_ascii_case(s, "1") || eq_ignoring_ascii_case(s, "true") || eq_ignoring_ascii_case(
        s,
        "yes",
    ) || eq_ignoring_ascii_case(s, "on")
}

/// `s` without the `/` characters at its end.
pub fn strip_trailing_slashes(s: &str) -> (r: String)
    ensures
        r@ == without_trailing_slashes(s@),
{
    let mut n = s.unicode_len();
    assert(s@.subrange(0, n as int) =~= s@);
    while n > 0 && s.get_char(n - 1) == '/'
        invariant
            n <= s@.len(),
            without_trailing_slashes(s@) == without_trailing_slashes(s@.subrange(0, n as int)),
        decreases n,
    {
        let ghost cur = s@.subrange(0, n as int);
        assert(cur.drop_last() =~= s@.subrange(0, n - 1));
        n = n - 1;
    }
    assert(n == 0 || s@.subrange(0, n as int).last() == s@[n - 1]);
    assert(s@.subrange(0, n as int) == without_trailing_slashes(s@));
    let mut out = String::new();
    let mut i: usize = 0;
    while i < n
        invariant
            n <= s@.len(),
            s@.subrange(0, n as int) == without_trailing_slashes(s@),
            i <= n,
            out@ == s@.subrange(0, i as int),
        decreases n - i,
    {
        push_char(&mut out, s.get_char(i));
        i = i + 1;
        assert(out@ =~= s@.subrange(0, i as int));
    }
    out
}

fn field(name: &str, boost: u32) -> (r: FieldBoost)
    ensures
        r.field@ == name@,
        r.boost == boost,
{
    FieldBoost { field: copy_str(name), boost }
}

impl Search {
    /// A gateway that highlights with `<mark>` and `</mark>`; `base` loses
    /// its trailing `/` characters.
    pub fn new(
        enabled: bool,
        base: &str,
        idx_books: &str,
        idx_reviews: &str,
        user: Option<String>,
        pass: Option<String>,
    ) -> (r: Search)
        ensures
            r.enabled == enabled,
            r.base@ == without_trailing_slashes(base@),
            r.idx_books@ == idx_books@,
            r.idx_reviews@ == idx_reviews@,
            r.user == user,
            r.pass == pass,
            r.pre_tag@ == "<mark>"@,
            r.post_tag@ == "</mark>"@,
    {
        Search {
            enabled,
            base: strip_trailing_slashes(base),
            idx_books: copy_str(idx_books),
            idx_reviews: copy_str(idx_reviews),
            user,
            pass,
            pre_tag: copy_str("<mark>"),
            post_tag: copy_str("</mark>"),
        }
    }

    /// This gateway with other highlight markers.
    pub fn with_highlight_tags(self, pre_tag: &str, post_tag: &str) -> (r: Search)
        ensures
            r.pre_tag@ == pre_tag@,
            r.post_tag@ == post_tag@,
            r.enabled == self.enabled,
            r.base == self.base,
            r.idx_books == self.idx_books,
            r.idx_reviews == self.idx_reviews,
            r.user == self.user,
            r.pass == self.pass,
    {
        Search { pre_tag: copy_str(pre_tag), post_tag: copy_str(post_tag), ..self }
    }

    /// A gateway from settings as they are read, each possibly missing: the
    /// switch (off unless it reads as on), the engine's address (by default
    /// `https://localhost:9200`), the two index names (by default `books`
    /// and `reviews`) and the credentials.
    pub fn from_settings(
        switch: Option<&str>,
        node: Option<&str>,
        idx_books: Option<&str>,
        idx_reviews: Option<&str>,
        user: Option<String>,
        pass: Option<String>,
    ) -> (r: Search)
        ensures
            r.enabled == (switch is Some && is_on(switch->0@)),
            r.base@ == without_trailing_slashes(
                match node {
                    Some(n) => n@,
                    None => "https://localhost:9200"@,
                },
            ),
            r.idx_books@ == match idx_books {
                Some(b) => b@,
                None => "books"@,
            },
            r.idx_reviews@ == match idx_reviews {
                Some(b) => b@,
                None => "reviews"@,
            },
            r.user == user,
            r.pass == pass,
            r.pre_tag@ == "<mark>"@,
            r.post_tag@ == "</mark>"@,
    {
        let enabled = match switch {
            Some(s) => flag_is_on(s),
            None => false,
        };
        let base = match node {
            Some(n) => n,
            None => "https://localhost:9200",
        };
        let books = match idx_books {
            Some(b) => b,
            None => "books",
        };
        let reviews = match idx_reviews {
            Some(b) => b,
            None => "reviews",
        };
        Search::new(enabled, base, books, reviews, user, pass)
    }

    /// Whether the remote engine is used.
    pub fn enabled(&self) -> (r: bool)
        ensures
            r == self.enabled,
    {
        self.enabled
    }

    /// The search endpoint of index `index`.
    pub fn search_url(&self, index: &str) -> (r: String)
        ensures
            r@ == search_url_of(self.base@, index@),
    {
        let mut out = copy_str(self.base.as_str());
        push_str(&mut out, "/");
        push_str(&mut out, index);
        push_str(&mut out, "/_search");
        out
    }

    /// The address under which the document of book `id` is indexed.
    pub fn document_url(&self, id: i32) -> (r: String)
        ensures
            r@ == self.base@ + "/"@ + self.idx_books@ + "/_doc/"@ + crate::keys::decimal_of(id as int),
    {
        let mut out = copy_str(self.base.as_str());
        push_str(&mut out, "/");
        push_str(&mut out, self.idx_books.as_str());
        let id_part = crate::keys::item_key("/_doc/", id);
        push_str(&mut out, id_part.as_str());
        out
    }

    /// The first step of `search(q, page, per_page)`. With the engine
    /// disabled, or a query that is blank once trimmed, the answer is an
    /// empty page at once; otherwise the ranked search to send.
    pub fn begin_search(&self, q: &str, page: Option<i64>, per_page: Option<i64>) -> (r: SearchStep)
        ensures
            !self.enabled || trim_of(q@).len() == 0 ==> (r matches SearchStep::Done(p) && p.total == 0
                && p.items@.len() == 0 && p.query@ == q@ && p.page == PageRequest::from_params_spec(
                page,
                per_page,
            ).page && p.per_page == PageRequest::from_params_spec(page, per_page).per_page),
            self.enabled && trim_of(q@).len() > 0 ==> (r matches SearchStep::Send(sr, req) && req
                == PageRequest::from_params_spec(page, per_page) && is_ranked_request(sr, *self, q@, req)),
    {
        let req = PageRequest::from_params(page, per_page);
        if !self.enabled || trim(q).unicode_len() == 0 {
            return SearchStep::Done(PaginatedResult::empty(copy_str(q), req));
        }
        let off = req.offset();
        let from: u64 = if off > u64::MAX as u128 {
            u64::MAX
        } else {
            off as u64
        };
        let mut source_fields: Vec<String> = Vec::new();
        source_fields.push(copy_str("id"));
        source_fields.push(copy_str("title"));
        source_fields.push(copy_str("author"));
        source_fields.push(copy_str("description"));
        source_fields.push(copy_str("genres"));
        source_fields.push(copy_str("rating"));
        source_fields.push(copy_str("published_year"));
        assert(views(source_fields@) =~= ranked_source_fields());
        let mut must_fields: Vec<FieldBoost> = Vec::new();
        must_fields.push(field("title", 4));
        must_fields.push(field("author", 3));
        must_fields.push(field("description", 1));
        assert(weighted(must_fields@) =~= must_weights());
        let mut should_fields: Vec<FieldBoost> = Vec::new();
        should_fields.push(field("title", 3));
        should_fields.push(field("author", 2));
        should_fields.push(field("description", 1));
        assert(weighted(should_fields@) =~= should_weights());
        let mut hl_fields: Vec<String> = Vec::new();
        hl_fields.push(copy_str("title"));
        hl_fields.push(copy_str("author"));
        hl_fields.push(copy_str("description"));
        assert(views(hl_fields@) =~= highlighted_fields());
        let sr = SearchRequest {
            url: self.search_url(self.idx_books.as_str()),
            from,
            size: req.per_page,
            source_fields,
            must: MultiMatch {
                query: copy_str(q),
                kind: MatchKind::CrossFields,
                fields: must_fields,
                fuzzy: false,
                all_terms: true,
            },
            should: Some(
                MultiMatch {
                    query: copy_str(q),
                    kind: MatchKind::BestFields,
                    fields: should_fields,
                    fuzzy: true,
                    all_terms: false,
                },
            ),
            minimum_should_match: 0,
            highlight: Some(
                Highlight {
                    fields: hl_fields,
                    pre_tag: self.pre_tag.clone(),
                    post_tag: self.post_tag.clone(),
                },
            ),
        };
        SearchStep::Send(sr, req)
    }

    /// The last step of a search: the engine's answer read into a page, or
    /// an empty page where the call failed (`None`).
    pub fn finish_search(&self, q: &str, req: PageRequest, reply: Option<Json>) -> (r: PaginatedResult<
        SearchHit,
    >)
        ensures
            r.page == req.page,
            r.per_page == req.per_page,
            r.query@ == q@,
            reply is None ==> r.total == 0 && r.items@.len() == 0,
            reply is Some ==> page_read_from(r, reply->0),
    {
        match reply {
            Some(resp) => parse_search_response(resp, copy_str(q), req),
            None => PaginatedResult::empty(copy_str(q), req),
        }
    }

    /// The completion query for `prefix`, or nothing where none is sent:
    /// with the engine disabled, or a prefix that is blank once trimmed.
    pub fn suggest_request(&self, prefix: &str, limit: usize) -> (r: Option<SuggestRequest>)
        ensures
            !self.enabled || trim_of(prefix@).len() == 0 ==> r is None,
            self.enabled && trim_of(prefix@).len() > 0 ==> r is Some && is_suggest_request(
                r->0,
                *self,
                prefix@,
                limit,
            ),
    {
        if !self.enabled || trim(prefix).unicode_len() == 0 {
            return None;
        }
        Some(
            SuggestRequest {
                url: self.search_url(self.idx_books.as_str()),
                prefix: copy_str(prefix),
                field: copy_str("suggest"),
                skip_duplicates: true,
                fuzziness: 1,
                size: limit as u64,
            },
        )
    }

    /// The completions of the engine's answer: each once, in the engine's
    /// order, at most `limit`; none with the engine disabled or where the
    /// call failed (`None`).
    pub fn suggest_titles(&self, reply: Option<&Json>, limit: usize) -> (r: Vec<String>)
        ensures
            !self.enabled || reply is None ==> r@.len() == 0,
            self.enabled && reply is Some ==> views(r@) == suggestions_of(*reply->0, limit as int),
    {
        if !self.enabled {
            return Vec::new();
        }
        match reply {
            Some(resp) => parse_suggestions(resp, limit),
            None => Vec::new(),
        }
    }

    /// The identifier search for `q`, `size` results from `from` on, or
    /// nothing where none is sent: with the engine disabled, or a query that
    /// is blank once trimmed. It asks every term to match, with typo
    /// tolerance, over the titles, authors and descriptions.
    pub fn ids_request(&self, q: &str, from: u32, size: u32) -> (r: Option<SearchRequest>)
        ensures
            !self.enabled || trim_of(q@).len() == 0 ==> r is None,
            self.enabled && trim_of(q@).len() > 0 ==> r is Some && {
                let sr = r->0;
                &&& sr.url@ == search_url_of(self.base@, self.idx_books@)
                &&& sr.from == from
                &&& sr.size == size
                &&& views(sr.source_fields@) == seq!["id"@, "book_id"@]
                &&& sr.must.query@ == q@
                &&& sr.must.kind == MatchKind::BestFields
                &&& weighted(sr.must.fields@) == id_search_weights()
                &&& sr.must.fuzzy
                &&& sr.must.all_terms
                &&& sr.should is None
                &&& sr.minimum_should_match == 0
                &&& sr.highlight is None
            },
    {
        if !self.enabled || trim(q).unicode_len() == 0 {
            return None;
        }
        let mut source_fields: Vec<String> = Vec::new();
        source_fields.push(copy_str("id"));
        source_fields.push(copy_str("book_id"));
        assert(views(source_fields@) =~= seq!["id"@, "book_id"@]);
        let mut fields: Vec<FieldBoost> = Vec::new();
        fields.push(field("title", 4));
        fields.push(field("title.ac", 5));
        fields.push(field("author", 3));
        fields.push(field("author.ac", 3));
        fields.push(field("description", 1));
        assert(weighted(fields@) =~= id_search_weights());
        Some(
            SearchRequest {
                url: self.search_url(self.idx_books.as_str()),
                from: from as u64,
                size: size as u64,
                source_fields,
                must: MultiMatch {
                    query: copy_str(q),
                    kind: MatchKind::BestFields,
                    fields,
                    fuzzy: true,
                    all_terms: true,
                },
                should: None,
                minimum_should_match: 0,
                highlight: None,
            },
        )
    }

    /// The book identifiers of the engine's answer, each once, in the order
    /// of the hits; none with the engine disabled or where the call failed
    /// (`None`).
    pub fn search_book_ids(&self, reply: Option<&Json>) -> (r: Vec<i32>)
        ensures
            !self.enabled || reply is None ==> r@.len() == 0,
            self.enabled && reply is Some ==> r@ == response_book_ids(*reply->0),
    {
        if !self.enabled {
            return Vec::new();
        }
        match reply {
            Some(resp) => parse_book_ids(resp),
            None => Vec::new(),
        }
    }
}

} // verus!
