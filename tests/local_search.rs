use book_catalog::local_search::{like_query, search_books_by_description};
use book_catalog::models::{Author, BookWithAuthor};
use book_catalog::pattern::{contiguous_pattern, escape_like, subsequence_pattern};

fn book(id: i32, title: &str, summary: Option<&str>, author: &str) -> BookWithAuthor {
    BookWithAuthor {
        id: Some(id),
        title: title.to_string(),
        summary: summary.map(|s| s.to_string()),
        publication_date: "2001-01-01".to_string(),
        sales_count: 0,
        author: Author {
            id: Some(1),
            name: author.to_string(),
            birth_date: "1950-01-01".to_string(),
            country: "Chile".to_string(),
            description: None,
        },
    }
}

#[test]
fn subsequence_and_contiguous_matches() {
    let rows = vec![
        book(1, "Atalaya", None, "Ana Perez"),
        book(2, "La Sala", None, "Juan Soto"),
        book(3, "Mundo", Some("nada"), "Pedro Diaz"),
    ];
    let r = search_books_by_description(&rows, "ala", 1, 10);
    assert_eq!(r.total, 2);
    let ids: Vec<Option<i32>> = r.items.iter().map(|b| b.id).collect();
    assert_eq!(ids, vec![Some(1), Some(2)]);
}

#[test]
fn subsequence_with_gaps_matches() {
    let rows = vec![book(1, "Atalaya", None, "X"), book(2, "Tal", None, "Y")];
    let r = search_books_by_description(&rows, "aly", 1, 10);
    assert_eq!(r.total, 1);
    assert_eq!(r.items[0].id, Some(1));
}

#[test]
fn empty_query_returns_nothing() {
    let rows = vec![book(1, "Atalaya", None, "X")];
    let r = search_books_by_description(&rows, "", 1, 10);
    assert_eq!(r.total, 0);
    assert!(r.items.is_empty());
    let r = search_books_by_description(&rows, "   ", 1, 10);
    assert_eq!(r.total, 0);
    assert!(r.items.is_empty());
}

#[test]
fn query_is_trimmed_and_lowercased() {
    let rows = vec![book(1, "atalaya", None, "x"), book(2, "Otro", None, "y")];
    let r = search_books_by_description(&rows, "  ALA  ", 1, 10);
    assert_eq!(r.total, 1);
    assert_eq!(r.items[0].id, Some(1));
    assert_eq!(r.query, "  ALA  ");
}

#[test]
fn matches_summary_and_author() {
    let rows = vec![
        book(1, "Uno", Some("Una novela de piratas"), "X"),
        book(2, "Dos", None, "Isabel Allende"),
        book(3, "Tres", None, "Z"),
    ];
    let r = search_books_by_description(&rows, "pirata", 1, 10);
    assert_eq!(r.total, 1);
    assert_eq!(r.items[0].id, Some(1));
    let r = search_books_by_description(&rows, "allende", 1, 10);
    assert_eq!(r.total, 1);
    assert_eq!(r.items[0].id, Some(2));
}

fn twenty_five() -> Vec<BookWithAuthor> {
    (1..=25).map(|i| book(i, &format!("Libro {i}"), None, "Autor")).collect()
}

#[test]
fn second_page_holds_items_eleven_to_twenty() {
    let r = search_books_by_description(&twenty_five(), "libro", 2, 10);
    assert_eq!(r.total, 25);
    let ids: Vec<i32> = r.items.iter().map(|b| b.id.unwrap()).collect();
    assert_eq!(ids, (11..=20).collect::<Vec<i32>>());
    assert_eq!(r.page, 2);
    assert_eq!(r.per_page, 10);
}

#[test]
fn page_zero_is_page_one() {
    let r = search_books_by_description(&twenty_five(), "libro", 0, 10);
    assert_eq!(r.page, 1);
    let ids: Vec<i32> = r.items.iter().map(|b| b.id.unwrap()).collect();
    assert_eq!(ids, (1..=10).collect::<Vec<i32>>());
}

#[test]
fn last_page_is_partial_and_beyond_is_empty() {
    let r = search_books_by_description(&twenty_five(), "libro", 3, 10);
    let ids: Vec<i32> = r.items.iter().map(|b| b.id.unwrap()).collect();
    assert_eq!(ids, (21..=25).collect::<Vec<i32>>());
    let r = search_books_by_description(&twenty_five(), "libro", 4, 10);
    assert!(r.items.is_empty());
    assert_eq!(r.total, 25);
}

#[test]
fn per_page_below_one_counts_as_one() {
    let r = search_books_by_description(&twenty_five(), "libro", 3, 0);
    assert_eq!(r.per_page, 1);
    assert_eq!(r.items.len(), 1);
    assert_eq!(r.items[0].id, Some(3));
}

#[test]
fn huge_page_is_empty() {
    let r = search_books_by_description(&twenty_five(), "libro", i64::MAX, i64::MAX);
    assert!(r.items.is_empty());
    assert_eq!(r.total, 25);
}

#[test]
fn escape_like_escapes_metacharacters() {
    assert_eq!(escape_like("50%_a\\b"), "50\\%\\_a\\\\b");
    assert_eq!(escape_like("plain"), "plain");
    assert_eq!(escape_like(""), "");
}

#[test]
fn contiguous_pattern_wraps_escaped_query() {
    assert_eq!(contiguous_pattern("ala"), "%ala%");
    assert_eq!(contiguous_pattern("a%"), "%a\\%%");
}

#[test]
fn subsequence_pattern_wildcards_every_character() {
    assert_eq!(subsequence_pattern("ala"), "%a%l%a%");
    assert_eq!(subsequence_pattern(""), "%");
    assert_eq!(subsequence_pattern("a_"), "%a%\\_%");
}

#[test]
fn store_query_for_a_search() {
    let plan = like_query("  A%a ", 3, 10).unwrap();
    assert_eq!(plan.contiguous, "%a\\%a%");
    assert_eq!(plan.subsequence, "%a%\\%%a%");
    assert_eq!(plan.limit, 10);
    assert_eq!(plan.offset, 20);
    assert!(like_query("   ", 1, 10).is_none());
    let plan = like_query("x", 0, 0).unwrap();
    assert_eq!((plan.limit, plan.offset), (1, 0));
    let plan = like_query("x", i64::MAX, i64::MAX).unwrap();
    assert_eq!(plan.offset, i64::MAX);
}
