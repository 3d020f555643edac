use book_catalog::cache_aside::{after_cache, after_source, classify_lookup, CacheReply, ReadAction, SourceReply};
use book_catalog::keys::{
    author_details_key, book_key, cache_key, invalidation_keys, item_key, reviews_key, sales_key, CacheResource, Write,
    TTL_SECS,
};
use book_catalog::store::{family_pattern, glob_matches, MemoryStore};

#[test]
fn set_then_get_round_trips() {
    let mut c = MemoryStore::new();
    c.set("books:id:1", "{\"title\":\"Rayuela\"}", Some(300), 1000);
    assert_eq!(c.get("books:id:1", 1000).as_deref(), Some("{\"title\":\"Rayuela\"}"));
    assert_eq!(c.get("books:id:1", 1299).as_deref(), Some("{\"title\":\"Rayuela\"}"));
    assert!(c.has_key("books:id:1", 1100));
}

#[test]
fn value_expires_after_ttl() {
    let mut c = MemoryStore::new();
    c.set("k", "v", Some(300), 1000);
    assert_eq!(c.get("k", 1300), None);
    assert!(!c.has_key("k", 2000));
}

#[test]
fn value_without_ttl_never_expires() {
    let mut c = MemoryStore::new();
    c.set("k", "v", None, 0);
    assert_eq!(c.get("k", u64::MAX).as_deref(), Some("v"));
}

#[test]
fn set_replaces_previous_value() {
    let mut c = MemoryStore::new();
    c.set("k", "old", Some(10), 0);
    c.set("k", "new", Some(10), 5);
    assert_eq!(c.get("k", 12).as_deref(), Some("new"));
    assert_eq!(c.entries.len(), 1);
}

#[test]
fn absent_key_is_a_miss() {
    let c = MemoryStore::new();
    assert_eq!(c.get("nothing", 0), None);
    assert!(!c.has_key("nothing", 0));
}

#[test]
fn delete_removes_one_key() {
    let mut c = MemoryStore::new();
    c.set("a", "1", None, 0);
    c.set("b", "2", None, 0);
    c.delete("a");
    assert_eq!(c.get("a", 0), None);
    assert_eq!(c.get("b", 0).as_deref(), Some("2"));
}

#[test]
fn delete_pattern_removes_family_only() {
    let mut c = MemoryStore::new();
    c.set("books:list", "[]", None, 0);
    c.set("books:id:1", "{}", None, 0);
    c.set("books:id:2", "{}", None, 0);
    c.set("authors:list", "[]", None, 0);
    c.set("authors:id:1", "{}", None, 0);
    c.set("xbooks:id:9", "{}", None, 0);
    c.delete_pattern("books:*");
    assert_eq!(c.get("books:list", 0), None);
    assert_eq!(c.get("books:id:1", 0), None);
    assert_eq!(c.get("books:id:2", 0), None);
    assert_eq!(c.get("authors:list", 0).as_deref(), Some("[]"));
    assert_eq!(c.get("authors:id:1", 0).as_deref(), Some("{}"));
    assert_eq!(c.get("xbooks:id:9", 0).as_deref(), Some("{}"));
}

#[test]
fn glob_semantics() {
    assert!(glob_matches("books:*", "books:"));
    assert!(glob_matches("books:*", "books:id:1"));
    assert!(!glob_matches("books:*", "book:id:1"));
    assert!(glob_matches("b?oks", "books"));
    assert!(!glob_matches("b?oks", "boks"));
    assert!(glob_matches("a\\*b", "a*b"));
    assert!(!glob_matches("a\\*b", "axb"));
    assert!(glob_matches("*", ""));
    assert!(!glob_matches("", "x"));
}

#[test]
fn family_pattern_escapes_prefix() {
    assert_eq!(family_pattern("books:"), "books:*");
    assert_eq!(family_pattern("a*b?"), "a\\*b\\?*");
    assert!(glob_matches(&family_pattern("a*b?"), "a*b?zzz"));
    assert!(!glob_matches(&family_pattern("a*b?"), "axbyzzz"));
}

#[test]
fn key_scheme() {
    assert_eq!(book_key(42), "books:id:42");
    assert_eq!(book_key(-7), "books:id:-7");
    assert_eq!(author_details_key(3), "authors:details:3");
    assert_eq!(reviews_key(5), "reviews:book:5");
    assert_eq!(sales_key(i32::MIN), "sales:book:-2147483648");
    assert_eq!(item_key("x:", 0), "x:0");
    assert_eq!(TTL_SECS, 300);
}

#[test]
fn writes_invalidate_their_keys() {
    assert_eq!(invalidation_keys(Write::Book(4)), vec!["books:list", "books:id:4", "dashboard:stats"]);
    assert_eq!(
        invalidation_keys(Write::Author(2)),
        vec!["authors:list", "authors:id:2", "authors:details:2", "books:list", "dashboard:stats"]
    );
    assert_eq!(invalidation_keys(Write::Review { book_id: 9 }), vec!["reviews:book:9", "dashboard:stats"]);
    assert_eq!(invalidation_keys(Write::Sales { book_id: 9 }), vec!["sales:book:9", "dashboard:stats"]);
}

#[test]
fn read_path_steps() {
    assert_eq!(classify_lookup(true, true), CacheReply::Hit);
    assert_eq!(classify_lookup(true, false), CacheReply::Miss);
    assert_eq!(classify_lookup(false, false), CacheReply::Miss);
    assert_eq!(after_cache(CacheReply::Hit), ReadAction::AnswerCached);
    assert_eq!(after_cache(CacheReply::Miss), ReadAction::ReadSource);
    assert_eq!(after_cache(CacheReply::Unavailable), ReadAction::ReadSource);
    assert_eq!(after_source(SourceReply::Found), ReadAction::StoreAndAnswer { ttl_secs: 300 });
    assert_eq!(after_source(SourceReply::NotFound), ReadAction::AnswerNotFound);
    assert_eq!(after_source(SourceReply::Failed), ReadAction::AnswerError);
}

#[test]
fn every_resource_has_its_key() {
    assert_eq!(cache_key(CacheResource::BooksList), "books:list");
    assert_eq!(cache_key(CacheResource::Book(1)), "books:id:1");
    assert_eq!(cache_key(CacheResource::AuthorsList), "authors:list");
    assert_eq!(cache_key(CacheResource::Author(12)), "authors:id:12");
    assert_eq!(cache_key(CacheResource::AuthorDetails(12)), "authors:details:12");
    assert_eq!(cache_key(CacheResource::Reviews { book_id: 3 }), "reviews:book:3");
    assert_eq!(cache_key(CacheResource::Sales { book_id: 3 }), "sales:book:3");
    assert_eq!(cache_key(CacheResource::DashboardStats), "dashboard:stats");
}
