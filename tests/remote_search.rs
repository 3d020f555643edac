use book_catalog::json::{Json, JsonNumber};
use book_catalog::paging::PageRequest;
use book_catalog::response::{parse_book_ids, parse_hit, parse_search_response, parse_suggestions};
use book_catalog::models::{Author, BookWithAuthor};
use book_catalog::search::{flag_is_on, search_document, strip_trailing_slashes, MatchKind, Search, SearchStep};

fn s(t: &str) -> Json {
    Json::Str(t.to_string())
}

fn n(v: u64) -> Json {
    Json::Number(JsonNumber::PosInt(v))
}

fn obj(members: Vec<(&str, Json)>) -> Json {
    Json::Object(members.into_iter().map(|(k, v)| (k.to_string(), v)).collect())
}

fn hit(id: &str, source: Json) -> Json {
    obj(vec![("_id", s(id)), ("_source", source)])
}

fn answer(total: Json, hits: Vec<Json>) -> Json {
    obj(vec![("hits", obj(vec![("total", total), ("hits", Json::Array(hits))]))])
}

fn enabled() -> Search {
    Search::new(true, "https://localhost:9200/", "books", "reviews", None, None)
}

fn disabled() -> Search {
    Search::new(false, "https://localhost:9200", "books", "reviews", None, None)
}

#[test]
fn total_from_nested_object() {
    let resp = answer(obj(vec![("value", n(42)), ("relation", s("eq"))]), vec![]);
    let r = parse_search_response(resp, "q".to_string(), PageRequest::new(1, 10));
    assert_eq!(r.total, 42);
    assert!(r.items.is_empty());
}

#[test]
fn total_from_bare_number() {
    let resp = answer(n(7), vec![]);
    let r = parse_search_response(resp, "q".to_string(), PageRequest::new(1, 10));
    assert_eq!(r.total, 7);
}

#[test]
fn total_defaults_to_zero() {
    let resp = answer(s("many"), vec![hit("1", obj(vec![]))]);
    let r = parse_search_response(resp, "q".to_string(), PageRequest::new(1, 10));
    assert_eq!(r.total, 0);
    assert_eq!(r.items.len(), 1);
}

#[test]
fn answer_without_hits_is_empty() {
    let r = parse_search_response(obj(vec![("error", s("boom"))]), "q".to_string(), PageRequest::new(2, 5));
    assert_eq!(r.total, 0);
    assert!(r.items.is_empty());
    assert_eq!(r.page, 2);
    assert_eq!(r.per_page, 5);
    assert_eq!(r.query, "q");
}

#[test]
fn id_from_numeric_field() {
    let h = parse_hit(hit("99", obj(vec![("id", n(5))])));
    assert_eq!(h.id, Some(5));
}

#[test]
fn id_from_string_field() {
    let h = parse_hit(hit("99", obj(vec![("id", s("17"))])));
    assert_eq!(h.id, Some(17));
    let h = parse_hit(hit("99", obj(vec![("id", s("-3"))])));
    assert_eq!(h.id, Some(-3));
}

#[test]
fn id_from_engine_identifier() {
    let h = parse_hit(hit("23", obj(vec![("id", s("abc"))])));
    assert_eq!(h.id, Some(23));
    let h = parse_hit(hit("23", obj(vec![("id", n(5_000_000_000))])));
    assert_eq!(h.id, Some(23));
}

#[test]
fn hit_without_identifier_is_kept() {
    let resp = answer(n(1), vec![hit("xyz", obj(vec![("title", s("Sin id"))]))]);
    let r = parse_search_response(resp, "q".to_string(), PageRequest::new(1, 10));
    assert_eq!(r.items.len(), 1);
    assert_eq!(r.items[0].id, None);
    assert_eq!(r.items[0].title.as_deref(), Some("Sin id"));
}

#[test]
fn hit_fields_are_read() {
    let source = obj(vec![
        ("id", n(8)),
        ("title", s("Rayuela")),
        ("author", s("Cortazar")),
        ("description", s("Novela")),
        ("genres", Json::Array(vec![s("ficcion"), n(3), s("clasico")])),
        ("published_year", n(1963)),
        ("rating", Json::Number(JsonNumber::Float("4.5".to_string()))),
    ]);
    let h = obj(vec![
        ("_id", s("8")),
        ("_score", Json::Number(JsonNumber::Float("1.25".to_string()))),
        ("_source", source),
        ("highlight", obj(vec![("title", Json::Array(vec![s("<mark>Ray</mark>uela")]))])),
    ]);
    let h = parse_hit(h);
    assert_eq!(h.id, Some(8));
    assert_eq!(h.title.as_deref(), Some("Rayuela"));
    assert_eq!(h.author.as_deref(), Some("Cortazar"));
    assert_eq!(h.description.as_deref(), Some("Novela"));
    assert_eq!(h.genres, vec!["ficcion".to_string(), "clasico".to_string()]);
    assert_eq!(h.published_year, Some(1963));
    assert_eq!(h.rating, Some(JsonNumber::Float("4.5".to_string())));
    assert_eq!(h.score, Some(JsonNumber::Float("1.25".to_string())));
    assert_eq!(h.highlight, Some(obj(vec![("title", Json::Array(vec![s("<mark>Ray</mark>uela")]))])));
}

#[test]
fn null_highlight_reads_as_absent() {
    let h = parse_hit(obj(vec![("_id", s("1")), ("highlight", Json::Null)]));
    assert_eq!(h.highlight, None);
    assert_eq!(h.id, Some(1));
}

fn suggest_answer(texts: Vec<Json>) -> Json {
    let options = texts.into_iter().map(|t| obj(vec![("text", t)])).collect();
    obj(vec![("suggest", obj(vec![("s", Json::Array(vec![obj(vec![("options", Json::Array(options))])]))]))])
}

#[test]
fn suggestions_are_distinct_and_bounded() {
    let resp = suggest_answer(vec![
        s("Harry Potter"),
        s("Harry Potter"),
        s("Harpo"),
        n(1),
        s("Harlem"),
        s("Harpo"),
        s("Hart"),
        s("Harvest"),
        s("Harbor"),
    ]);
    let r = parse_suggestions(&resp, 5);
    assert_eq!(r, vec!["Harry Potter", "Harpo", "Harlem", "Hart", "Harvest"]);
    let r = parse_suggestions(&resp, 2);
    assert_eq!(r, vec!["Harry Potter", "Harpo"]);
}

#[test]
fn suggestions_of_malformed_answer_are_empty() {
    assert!(parse_suggestions(&obj(vec![("suggest", n(1))]), 5).is_empty());
    assert!(parse_suggestions(&Json::Null, 5).is_empty());
}

#[test]
fn book_ids_follow_fallback_order_and_dedup() {
    let resp = answer(n(4), vec![
        hit("1", obj(vec![("book_id", n(10)), ("id", n(11))])),
        hit("2", obj(vec![("id", s("12"))])),
        hit("13", obj(vec![])),
        hit("10", obj(vec![])),
        hit("nope", obj(vec![])),
    ]);
    assert_eq!(parse_book_ids(&resp), vec![10, 12, 13]);
}

#[test]
fn disabled_gateway_answers_empty() {
    let g = disabled();
    match g.begin_search("harry", Some(1), Some(10)) {
        SearchStep::Done(p) => {
            assert_eq!(p.total, 0);
            assert!(p.items.is_empty());
        }
        SearchStep::Send(..) => panic!("a disabled gateway sends nothing"),
    }
    match g.begin_search("%%%\\'\"", None, Some(-4)) {
        SearchStep::Done(p) => assert_eq!(p.total, 0),
        SearchStep::Send(..) => panic!("a disabled gateway sends nothing"),
    }
    assert!(g.suggest_request("Har", 5).is_none());
    let resp = suggest_answer(vec![s("Harry")]);
    assert!(g.suggest_titles(Some(&resp), 5).is_empty());
    assert!(g.ids_request("harry", 0, 10).is_none());
    assert!(g.search_book_ids(Some(&answer(n(1), vec![hit("1", obj(vec![]))]))).is_empty());
}

#[test]
fn blank_query_is_not_sent() {
    let g = enabled();
    assert!(matches!(g.begin_search("   ", None, None), SearchStep::Done(_)));
    assert!(g.suggest_request("  ", 5).is_none());
}

#[test]
fn ranked_request_shape() {
    let g = enabled();
    match g.begin_search("cortazar", Some(3), Some(20)) {
        SearchStep::Send(r, req) => {
            assert_eq!(req.page, 3);
            assert_eq!(req.per_page, 20);
            assert_eq!(r.url, "https://localhost:9200/books/_search");
            assert_eq!(r.from, 40);
            assert_eq!(r.size, 20);
            assert_eq!(r.must.kind, MatchKind::CrossFields);
            assert!(r.must.all_terms);
            let weights: Vec<(String, u32)> = r.must.fields.iter().map(|f| (f.field.clone(), f.boost)).collect();
            assert_eq!(weights, vec![("title".to_string(), 4), ("author".to_string(), 3), ("description".to_string(), 1)]);
            let should = r.should.unwrap();
            assert!(should.fuzzy);
            assert_eq!(should.kind, MatchKind::BestFields);
            assert_eq!(r.minimum_should_match, 0);
            let hl = r.highlight.unwrap();
            assert_eq!(hl.pre_tag, "<mark>");
            assert_eq!(hl.post_tag, "</mark>");
            assert_eq!(hl.fields, vec!["title", "author", "description"]);
        }
        SearchStep::Done(_) => panic!("an enabled gateway sends the search"),
    }
}

#[test]
fn default_pagination_for_missing_parameters() {
    let g = enabled();
    match g.begin_search("x", None, None) {
        SearchStep::Send(r, req) => {
            assert_eq!(req.page, 1);
            assert_eq!(req.per_page, 10);
            assert_eq!(r.from, 0);
            assert_eq!(r.size, 10);
        }
        SearchStep::Done(_) => panic!("an enabled gateway sends the search"),
    }
}

#[test]
fn failed_call_reads_as_empty_page() {
    let g = enabled();
    let p = g.finish_search("x", PageRequest::new(1, 10), None);
    assert_eq!(p.total, 0);
    assert!(p.items.is_empty());
    assert!(g.suggest_titles(None, 5).is_empty());
}

#[test]
fn suggest_request_shape() {
    let g = enabled();
    let r = g.suggest_request("Har", 5).unwrap();
    assert_eq!(r.prefix, "Har");
    assert_eq!(r.field, "suggest");
    assert!(r.skip_duplicates);
    assert_eq!(r.fuzziness, 1);
    assert_eq!(r.size, 5);
}

#[test]
fn settings_switch_and_defaults() {
    assert!(flag_is_on("TRUE"));
    assert!(flag_is_on("On"));
    assert!(flag_is_on("1"));
    assert!(flag_is_on("yes"));
    assert!(!flag_is_on("0"));
    assert!(!flag_is_on("enabled"));
    let g = Search::from_settings(None, None, None, None, None, None);
    assert!(!g.enabled());
    assert_eq!(g.base, "https://localhost:9200");
    assert_eq!(g.idx_books, "books");
    assert_eq!(g.idx_reviews, "reviews");
    let g = Search::from_settings(Some("Yes"), Some("https://os:9200//"), Some("libros"), None, None, None);
    assert!(g.enabled());
    assert_eq!(g.base, "https://os:9200");
    assert_eq!(g.search_url("libros"), "https://os:9200/libros/_search");
}

#[test]
fn trailing_slashes_are_stripped() {
    assert_eq!(strip_trailing_slashes("a/b///"), "a/b");
    assert_eq!(strip_trailing_slashes("///"), "");
    assert_eq!(strip_trailing_slashes("abc"), "abc");
}

#[test]
fn indexed_document_of_a_book() {
    let b = BookWithAuthor {
        id: Some(9),
        title: "Ficciones".to_string(),
        summary: Some("Cuentos".to_string()),
        publication_date: "1944-01-01".to_string(),
        sales_count: 3,
        author: Author {
            id: Some(2),
            name: "Borges".to_string(),
            birth_date: "1899-08-24".to_string(),
            country: "Argentina".to_string(),
            description: None,
        },
    };
    let d = search_document(&b);
    assert_eq!(d.id, Some(9));
    assert_eq!(d.title, "Ficciones");
    assert_eq!(d.author, "Borges");
    assert_eq!(d.description.as_deref(), Some("Cuentos"));
    assert_eq!(d.suggest, vec!["Ficciones"]);
    assert_eq!(enabled().document_url(9), "https://localhost:9200/books/_doc/9");
}

#[test]
fn page_request_arithmetic() {
    let p = PageRequest::from_params(None, None);
    assert_eq!((p.page, p.per_page), (1, 10));
    let p = PageRequest::from_params(Some(0), Some(-5));
    assert_eq!((p.page, p.per_page), (1, 1));
    let p = PageRequest::new(2, 10);
    assert_eq!(p.offset(), 10);
    assert_eq!(p.window(25), (10, 20));
    assert_eq!(p.window(15), (10, 15));
    assert_eq!(p.window(5), (5, 5));
    let p = PageRequest::new(i64::MAX, i64::MAX);
    assert_eq!(p.offset(), (i64::MAX as u128 - 1) * i64::MAX as u128);
}

#[test]
fn json_accessors() {
    let v = obj(vec![("a", n(1)), ("b", Json::Number(JsonNumber::NegInt(-2))), ("c", Json::Array(vec![s("x")]))]);
    assert_eq!(v.get("a").and_then(|x| x.as_u64()), Some(1));
    assert_eq!(v.get("b").and_then(|x| x.as_i64()), Some(-2));
    assert_eq!(v.get("b").and_then(|x| x.as_u64()), None);
    assert_eq!(v.get("c").and_then(|x| x.at(0)).and_then(|x| x.as_str()), Some("x"));
    assert!(v.get("zz").is_none());
    assert_eq!(n(u64::MAX).as_i64(), None);
    assert_eq!(v.take_member("c"), Some(Json::Array(vec![s("x")])));
}

#[test]
fn highlight_markers_are_configurable() {
    let g = enabled().with_highlight_tags("<em>", "</em>");
    match g.begin_search("x", None, None) {
        SearchStep::Send(r, _) => {
            let hl = r.highlight.unwrap();
            assert_eq!(hl.pre_tag, "<em>");
            assert_eq!(hl.post_tag, "</em>");
        }
        SearchStep::Done(_) => panic!("an enabled gateway sends the search"),
    }
}
