//! Reading the remote engine's answers defensively. A field of the wrong
//! shape reads as absent; an answer without a hit list reads as no hits.
use vstd::prelude::*;
use crate::json::{
    deref_opt, get_in, json_array, json_at, json_get, json_get_opt, json_i64, json_number, json_str,
    json_u64, Json, JsonNumber,
};
use crate::paging::{PageRequest, PaginatedResult};
use crate::text::same_text;

verus! {

/// The value of the decimal digits `s`.
pub open spec fn digits_value(s: Seq<char>) -> int
    decreases s.len(),
{
    if s.len() == 0 {
        0
    } else {
        digits_value(s.drop_last()) * 10 + (s.last() as int - '0' as int)
    }
}

pub open spec fn all_digits(s: Seq<char>) -> bool {
    s.len() > 0 && forall|i: int| 0 <= i < s.len() ==> '0' <= #[trigger] s[i] <= '9'
}

/// The `i32` that `s` writes in decimal: an optional sign, then one or more
/// digits, and a value in range; nothing for any other text.
pub open spec fn decimal_i32(s: Seq<char>) -> Option<i32> {
    if s.len() > 0 && s[0] == '-' {
        let d = s.drop_first();
        if all_digits(d) && -digits_value(d) >= i32::MIN {
            Some((-digits_value(d)) as i32)
        } else {
            None
        }
    } else {
        let d = if s.len() > 0 && s[0] == '+' {
            s.drop_first()
        } else {
            s
        };
        if all_digits(d) && digits_value(d) <= i32::MAX {
            Some(digits_value(d) as i32)
        } else {
            None
        }
    }
}

/// Relies on `str::parse::<i32>` (`i32::from_str`): an optional `+` or `-`,
/// then ASCII digits, with the value in range.
#[verifier::external_body]
fn parse_i32(s: &str) -> (r: Option<i32>)
    ensures
        r == decimal_i32(s@),
{
    s.parse::<i32>().ok()
}

/// An integer value in range, or a string that holds one in decimal.
pub open spec fn id_value(v: Option<Json>) -> Option<i32> {
    match v {
        Some(x) => match json_i64(x) {
            Some(n) => if i32::MIN <= n <= i32::MAX {
                Some(n as i32)
            } else {
                None
            },
            None => match json_str(x) {
                Some(s) => decimal_i32(s),
                None => None,
            },
        },
        None => None,
    }
}

/// The text of a string value.
pub open spec fn text_value(v: Option<Json>) -> Option<Seq<char>> {
    match v {
        Some(x) => json_str(x),
        None => None,
    }
}

/// A hit's identifier: the document's `id` field, as a number or as a
/// decimal string, else the engine's own `_id` read as a decimal.
pub open spec fn hit_id(source: Option<Json>, internal: Option<Json>) -> Option<i32> {
    match id_value(json_get_opt(source, "id"@)) {
        Some(id) => Some(id),
        None => match text_value(internal) {
            Some(s) => decimal_i32(s),
            None => None,
        },
    }
}

/// The identifier of a book hit: its `book_id` field, else `hit_id`.
pub open spec fn book_hit_id(hit: Json) -> Option<i32> {
    let source = json_get(hit, "_source"@);
    match id_value(json_get_opt(source, "book_id"@)) {
        Some(id) => Some(id),
        None => hit_id(source, json_get(hit, "_id"@)),
    }
}

/// An integer value that fits in `i32`.
pub open spec fn small_int(v: Option<Json>) -> Option<i32> {
    match v {
        Some(x) => match json_i64(x) {
            Some(n) => if i32::MIN <= n <= i32::MAX {
                Some(n as i32)
            } else {
                None
            },
            None => None,
        },
        None => None,
    }
}

/// The number of a number value.
pub open spec fn number_value(v: Option<Json>) -> Option<JsonNumber> {
    match v {
        Some(x) => json_number(x),
        None => None,
    }
}

/// The strings among the elements of an array value.
pub open spec fn string_items(v: Option<Json>) -> Seq<Seq<char>> {
    match v {
        Some(x) => match json_array(x) {
            Some(items) => items.filter_map(string_of()),
            None => Seq::empty(),
        },
        None => Seq::empty(),
    }
}

/// The text of a string value, as a function.
pub open spec fn string_of() -> spec_fn(Json) -> Option<Seq<char>> {
    |e: Json| json_str(e)
}

/// The text of an object's `text` member, as a function.
pub open spec fn option_text() -> spec_fn(Json) -> Option<Seq<char>> {
    |e: Json| text_value(json_get(e, "text"@))
}

/// `book_hit_id`, as a function.
pub open spec fn book_id_of() -> spec_fn(Json) -> Option<i32> {
    |h: Json| book_hit_id(h)
}

/// The texts of a sequence of strings.
pub open spec fn views(v: Seq<String>) -> Seq<Seq<char>> {
    v.map_values(|s: String| s@)
}

/// The views of optional texts.
pub open spec fn opt_view(o: Option<String>) -> Option<Seq<char>> {
    match o {
        Some(s) => Some(s@),
        None => None,
    }
}

/// A value that is present and not `null`.
pub open spec fn present(v: Option<Json>) -> Option<Json> {
    match v {
        Some(Json::Null) => None,
        _ => v,
    }
}

/// One document that the engine returned, as the library reads it.
#[derive(Debug)]
pub struct SearchHit {
    pub id: Option<i32>,
    pub title: Option<String>,
    pub author: Option<String>,
    pub description: Option<String>,
    pub genres: Vec<String>,
    pub published_year: Option<i32>,
    pub rating: Option<JsonNumber>,
    pub score: Option<JsonNumber>,
    pub highlight: Option<Json>,
}

/// `h` is what the engine's hit `j` says.
pub open spec fn hit_read_from(h: SearchHit, j: Json) -> bool {
    let source = json_get(j, "_source"@);
    &&& h.id == hit_id(source, json_get(j, "_id"@))
    &&& opt_view(h.title) == text_value(json_get_opt(source, "title"@))
    &&& opt_view(h.author) == text_value(json_get_opt(source, "author"@))
    &&& opt_view(h.description) == text_value(json_get_opt(source, "description"@))
    &&& views(h.genres@) == string_items(json_get_opt(source, "genres"@))
    &&& h.published_year == small_int(json_get_opt(source, "published_year"@))
    &&& h.rating == number_value(json_get_opt(source, "rating"@))
    &&& h.score == number_value(json_get(j, "_score"@))
    &&& h.highlight == present(json_get(j, "highlight"@))
}

/// `r` holds what the answer `resp` says: its total and one hit for each of
/// its hits, in order; nothing where it has no hit list.
pub open spec fn page_read_from(r: PaginatedResult<SearchHit>, resp: Json) -> bool {
    match response_hits(resp) {
        None => r.total == 0 && r.items@.len() == 0,
        Some(hits) => {
            &&& r.total == response_total(resp)
            &&& r.items@.len() == hits.len()
            &&& forall|k: int| 0 <= k < hits.len() ==> hit_read_from(#[trigger] r.items@[k], hits[k])
        },
    }
}

/// The hit list of an answer: `hits.hits`, where it is an array.
pub open spec fn response_hits(resp: Json) -> Option<Seq<Json>> {
    match json_get_opt(json_get(resp, "hits"@), "hits"@) {
        Some(a) => json_array(a),
        None => None,
    }
}

/// The total of an answer: `hits.total.value`, else `hits.total` itself,
/// where either is a non-negative integer; else zero.
pub open spec fn response_total(resp: Json) -> u64 {
    let t = json_get_opt(json_get(resp, "hits"@), "total"@);
    match json_get_opt(t, "value"@) {
        Some(v) if json_u64(v) is Some => json_u64(v)->0,
        _ => match t {
            Some(x) if json_u64(x) is Some => json_u64(x)->0,
            _ => 0,
        },
    }
}

/// `s` with each element after its first occurrence left out.
pub open spec fn dedup<A>(s: Seq<A>) -> Seq<A>
    decreases s.len(),
{
    if s.len() == 0 {
        s
    } else {
        let d = dedup(s.drop_last());
        if d.contains(s.last()) {
            d
        } else {
            d.push(s.last())
        }
    }
}

/// The first `n` elements of `s`, or all of them where there are fewer.
pub open spec fn take<A>(s: Seq<A>, n: int) -> Seq<A> {
    if s.len() <= n {
        s
    } else {
        s.subrange(0, n)
    }
}

/// No element of `s` occurs twice.
pub open spec fn all_distinct<A>(s: Seq<A>) -> bool {
    forall|i: int, j: int| 0 <= i < j < s.len() ==> s[i] != s[j]
}

/// The texts of an answer's completions: `suggest.s[0].options[].text`,
/// where each is a string.
pub open spec fn response_suggestions(resp: Json) -> Seq<Seq<char>> {
    let first = match json_get_opt(json_get(resp, "suggest"@), "s"@) {
        Some(s) => json_at(s, 0),
        None => None,
    };
    match json_get_opt(first, "options"@) {
        Some(o) => match json_array(o) {
            Some(options) => options.filter_map(option_text()),
            None => Seq::empty(),
        },
        None => Seq::empty(),
    }
}

/// The identifiers of an answer's hits, each once, in the order of the hits.
pub open spec fn response_book_ids(resp: Json) -> Seq<i32> {
    match response_hits(resp) {
        Some(hits) => dedup(hits.filter_map(book_id_of())),
        None => Seq::empty(),
    }
}

/// Deduplication leaves no element twice and loses none.
proof fn lemma_dedup_distinct<A>(s: Seq<A>)
    ensures
        all_distinct(dedup(s)),
        forall|x: A| dedup(s).contains(x) <==> s.contains(x),
    decreases s.len(),
{
    if s.len() > 0 {
        lemma_dedup_distinct(s.drop_last());
        let d = dedup(s.drop_last());
        assert forall|x: A| dedup(s).contains(x) <==> s.contains(x) by {
            if s.contains(x) {
                let k = choose|k: int| 0 <= k < s.len() && s[k] == x;
                if k < s.len() - 1 {
                    assert(s.drop_last()[k] == x);
                }
            }
            if s.drop_last().contains(x) {
                let k = choose|k: int| 0 <= k < s.drop_last().len() && s.drop_last()[k] == x;
                assert(s[k] == x);
            }
            if !d.contains(s.last()) && x == s.last() {
                assert(d.push(s.last())[d.len() as int] == x);
            }
            if !d.contains(s.last()) && d.push(s.last()).contains(x) {
                let k = choose|k: int| 0 <= k < d.len() + 1 && d.push(s.last())[k] == x;
                if k < d.len() {
                    assert(d[k] == x);
                }
            }
            if d.contains(x) && !d.contains(s.last()) {
                let k = choose|k: int| 0 <= k < d.len() && d[k] == x;
                assert(d.push(s.last())[k] == x);
            }
        }
    }
}

/// The completions that the library hands out, from an answer: each once,
/// in the engine's order, at most `limit` of them.
pub open spec fn suggestions_of(resp: Json, limit: int) -> Seq<Seq<char>> {
    take(dedup(response_suggestions(resp)), limit)
}

/// The completions of `suggestions_of` are distinct and at most `limit`.
pub proof fn lemma_suggestions_bounded(resp: Json, limit: int)
    requires
        limit >= 0,
    ensures
        suggestions_of(resp, limit).len() <= limit,
        all_distinct(suggestions_of(resp, limit)),
{
    lemma_dedup_distinct(response_suggestions(resp));
}

/// `id_value` of an optional value.
fn id_from(v: Option<&Json>) -> (r: Option<i32>)
    ensures
        r == id_value(deref_opt(v)),
{
    match v {
        Some(x) => match x.as_i64() {
            Some(n) => if i32::MIN as i64 <= n && n <= i32::MAX as i64 {
                Some(n as i32)
            } else {
                None
            },
            None => match x.as_str() {
                Some(t) => parse_i32(t),
                None => None,
            },
        },
        None => None,
    }
}

/// The text of an optional string value, copied.
fn text_from(v: Option<&Json>) -> (r: Option<String>)
    ensures
        opt_view(r) == text_value(deref_opt(v)),
{
    match v {
        Some(x) => match x.as_str() {
            Some(t) => Some(crate::text::copy_str(t)),
            None => None,
        },
        None => None,
    }
}

/// `small_int` of an optional value.
fn small_int_from(v: Option<&Json>) -> (r: Option<i32>)
    ensures
        r == small_int(deref_opt(v)),
{
    match v {
        Some(x) => match x.as_i64() {
            Some(n) => if i32::MIN as i64 <= n && n <= i32::MAX as i64 {
                Some(n as i32)
            } else {
                None
            },
            None => None,
        },
        None => None,
    }
}

/// `number_value` of an optional value, copied.
fn number_from(v: Option<&Json>) -> (r: Option<JsonNumber>)
    ensures
        r == number_value(deref_opt(v)),
{
    match v {
        Some(x) => match x.as_number() {
            Some(n) => Some(n.clone()),
            None => None,
        },
        None => None,
    }
}

/// The strings among the elements of an optional array value, copied.
fn strings_from(v: Option<&Json>) -> (r: Vec<String>)
    ensures
        views(r@) == string_items(deref_opt(v)),
{
    let mut out: Vec<String> = Vec::new();
    if let Some(x) = v {
        if let Some(items) = x.as_array() {
            let ghost f = string_of();
            let mut i: usize = 0;
            assert(items@.subrange(0, 0).filter_map(f) =~= Seq::<Seq<char>>::empty());
            while i < items.len()
                invariant
                    f == string_of(),
                    i <= items.len(),
                    views(out@) == items@.subrange(0, i as int).filter_map(f),
                decreases items.len() - i,
            {
                let ghost before = out@;
                let ghost pre = items@.subrange(0, i + 1);
                assert(pre.drop_last() =~= items@.subrange(0, i as int));
                assert(pre.last() == items@[i as int]);
                assert(f(pre.last()) == json_str(items@[i as int]));
                if let Some(t) = items[i].as_str() {
                    out.push(crate::text::copy_str(t));
                    assert(pre.filter_map(f) == pre.drop_last().filter_map(f) + seq![t@]);
                    assert(views(out@) =~= views(before) + seq![t@]);
                } else {
                    assert(pre.filter_map(f) == pre.drop_last().filter_map(f));
                }
                i = i + 1;
            }
            assert(items@.subrange(0, items.len() as int) =~= items@);
        }
    }
    out
}

/// Reads one hit of the engine's answer.
pub fn parse_hit(j: Json) -> (r: SearchHit)
    ensures
        hit_read_from(r, j),
{
    let ghost orig = j;
    let source = j.get("_source");
    let id = match id_from(get_in(source, "id")) {
        Some(n) => Some(n),
        None => match text_from(j.get("_id")) {
            Some(t) => parse_i32(t.as_str()),
            None => None,
        },
    };
    let title = text_from(get_in(source, "title"));
    let author = text_from(get_in(source, "author"));
    let description = text_from(get_in(source, "description"));
    let genres = strings_from(get_in(source, "genres"));
    let published_year = small_int_from(get_in(source, "published_year"));
    let rating = number_from(get_in(source, "rating"));
    let score = number_from(j.get("_score"));
    let highlight = match j.take_member("highlight") {
        Some(Json::Null) => None,
        other => other,
    };
    SearchHit { id, title, author, description, genres, published_year, rating, score, highlight }
}

/// Reads a search answer into a page of hits. An answer without a hit list
/// (`hits.hits`, an array) reads as an empty page with a total of zero.
pub fn parse_search_response(resp: Json, query: String, req: PageRequest) -> (r: PaginatedResult<
    SearchHit,
>)
    ensures
        r.page == req.page,
        r.per_page == req.per_page,
        r.query == query,
        page_read_from(r, resp),
{
    let ghost orig = resp;
    let hits_obj = resp.get("hits");
    let t = get_in(hits_obj, "total");
    let total: u64 = match get_in(t, "value") {
        Some(v) if v.as_u64().is_some() => v.as_u64().unwrap(),
        _ => match t {
            Some(x) if x.as_u64().is_some() => x.as_u64().unwrap(),
            _ => 0,
        },
    };
    let list = match resp.take_member("hits") {
        Some(h) => h.take_member("hits"),
        None => None,
    };
    match list {
        Some(Json::Array(mut items)) => {
            let ghost hs = items@;
            let mut out: Vec<SearchHit> = Vec::new();
            assert(hs.subrange(0, hs.len() as int) =~= hs);
            while items.len() > 0
                invariant
                    out.len() + items.len() == hs.len(),
                    items@ == hs.subrange(out.len() as int, hs.len() as int),
                    forall|k: int| 0 <= k < out.len() ==> hit_read_from(#[trigger] out@[k], hs[k]),
                decreases items.len(),
            {
                let j = items.remove(0);
                assert(j == hs[out.len() as int]);
                let h = parse_hit(j);
                out.push(h);
                assert(items@ =~= hs.subrange(out.len() as int, hs.len() as int));
            }
            PaginatedResult { items: out, total, page: req.page, per_page: req.per_page, query }
        },
        _ => PaginatedResult::empty(query, req),
    }
}

/// Whether `t` is one of the texts of `v`.
fn holds_text(v: &Vec<String>, t: &str) -> (r: bool)
    ensures
        r == views(v@).contains(t@),
{
    let mut i: usize = 0;
    while i < v.len()
        invariant
            i <= v.len(),
            forall|k: int| 0 <= k < i ==> v@[k]@ != t@,
        decreases v.len() - i,
    {
        if same_text(v[i].as_str(), t) {
            assert(views(v@)[i as int] == t@);
            return true;
        }
        i = i + 1;
    }
    assert(!views(v@).contains(t@)) by {
        if views(v@).contains(t@) {
            let k = choose|k: int| 0 <= k < views(v@).len() && views(v@)[k] == t@;
            assert(v@[k]@ == t@);
        }
    }
    false
}

/// Whether `x` is one of the elements of `v`.
fn holds_id(v: &Vec<i32>, x: i32) -> (r: bool)
    ensures
        r == v@.contains(x),
{
    let mut i: usize = 0;
    while i < v.len()
        invariant
            i <= v.len(),
            forall|k: int| 0 <= k < i ==> v@[k] != x,
        decreases v.len() - i,
    {
        if v[i] == x {
            return true;
        }
        i = i + 1;
    }
    false
}

/// The completions of a suggestion answer: each once, in the engine's
/// order, at most `limit` of them.
pub fn parse_suggestions(resp: &Json, limit: usize) -> (r: Vec<String>)
    ensures
        views(r@) == suggestions_of(*resp, limit as int),
{
    let mut out: Vec<String> = Vec::new();
    let s = get_in(resp.get("suggest"), "s");
    let first = match s {
        Some(x) => x.at(0),
        None => None,
    };
    let ghost f = option_text();
    match get_in(first, "options") {
        Some(o) => match o.as_array() {
            Some(options) => {
                let mut i: usize = 0;
                assert(options@.subrange(0, 0).filter_map(f) =~= Seq::<Seq<char>>::empty());
                while i < options.len()
                    invariant
                        f == option_text(),
                        i <= options.len(),
                        views(out@) == take(dedup(options@.subrange(0, i as int).filter_map(f)), limit as int),
                    decreases options.len() - i,
                {
                    let ghost before = out@;
                    let ghost pre = options@.subrange(0, i + 1);
                    let ghost d = dedup(options@.subrange(0, i as int).filter_map(f));
                    assert(pre.drop_last() =~= options@.subrange(0, i as int));
                    assert(pre.last() == options@[i as int]);
                    assert(f(pre.last()) == text_value(json_get(options@[i as int], "text"@)));
                    let text = text_from(options[i].get("text"));
                    if text.is_none() {
                        assert(pre.filter_map(f) == pre.drop_last().filter_map(f));
                    }
                    if let Some(t) = text {
                        let ghost g = pre.filter_map(f);
                        assert(g == pre.drop_last().filter_map(f) + seq![t@]);
                        assert(g.drop_last() =~= options@.subrange(0, i as int).filter_map(f));
                        assert(g.last() == t@);
                        if out.len() < limit {
                            if !holds_text(&out, t.as_str()) {
                                out.push(t);
                                assert(views(out@) =~= views(before).push(t@));
                            }
                        } else {
                            assert(dedup(g) == d || dedup(g) == d.push(t@));
                            assert(dedup(g).subrange(0, limit as int) =~= d.subrange(0, limit as int));
                        }
                    }
                    i = i + 1;
                }
                assert(options@.subrange(0, options.len() as int) =~= options@);
            },
            None => {},
        },
        None => {},
    }
    out
}

/// The identifiers of a search answer's hits, each once, in the order of
/// the hits: a hit's `book_id`, else its `id`, else its `_id`.
pub fn parse_book_ids(resp: &Json) -> (r: Vec<i32>)
    ensures
        r@ == response_book_ids(*resp),
{
    let mut out: Vec<i32> = Vec::new();
    let ghost f = book_id_of();
    match get_in(resp.get("hits"), "hits") {
        Some(a) => match a.as_array() {
            Some(hits) => {
                let mut i: usize = 0;
                assert(hits@.subrange(0, 0).filter_map(f) =~= Seq::<i32>::empty());
                while i < hits.len()
                    invariant
                        f == book_id_of(),
                        i <= hits.len(),
                        deref_opt(Some(a)) == json_get_opt(json_get(*resp, "hits"@), "hits"@),
                        json_array(*a) == Some(hits@),
                        out@ == dedup(hits@.subrange(0, i as int).filter_map(f)),
                    decreases hits.len() - i,
                {
                    let ghost pre = hits@.subrange(0, i + 1);
                    assert(pre.drop_last() =~= hits@.subrange(0, i as int));
                    assert(pre.last() == hits@[i as int]);
                    let h = &hits[i];
                    let source = h.get("_source");
                    let id = match id_from(get_in(source, "book_id")) {
                        Some(n) => Some(n),
                        None => match id_from(get_in(source, "id")) {
                            Some(n) => Some(n),
                            None => match text_from(h.get("_id")) {
                                Some(t) => parse_i32(t.as_str()),
                                None => None,
                            },
                        },
                    };
                    assert(f(pre.last()) == book_hit_id(hits@[i as int]));
                    assert(id == book_hit_id(hits@[i as int]));
                    if let Some(n) = id {
                        let ghost g = pre.filter_map(f);
                        assert(g == pre.drop_last().filter_map(f) + seq![n]);
                        assert(g.drop_last() =~= hits@.subrange(0, i as int).filter_map(f));
                        assert(g.last() == n);
                        if !holds_id(&out, n) {
                            out.push(n);
                        }
                    } else {
                        assert(pre.filter_map(f) == pre.drop_last().filter_map(f));
                    }
                    i = i + 1;
                }
                assert(hits@.subrange(0, hits.len() as int) =~= hits@);
            },
            None => {},
        },
        None => {},
    }
    out
}

} // verus!
