use book_catalog::layout::{bottom_nav_html, health, render_page};
use book_catalog::models::ApiResponse;
use book_catalog::reindex::{summarize, IndexOutcome, ReindexReport};

#[test]
fn one_failure_still_indexes_the_rest() {
    let outcomes: Vec<(i32, IndexOutcome)> = (1..=6)
        .map(|i| if i == 4 { (i, IndexOutcome::Failed("timeout".to_string())) } else { (i, IndexOutcome::Indexed) })
        .collect();
    let r = summarize(outcomes);
    assert_eq!(r.attempted, 6);
    assert_eq!(r.succeeded, 5);
    assert_eq!(r.failed, vec![(4, "timeout".to_string())]);
}

#[test]
fn record_counts_each_outcome() {
    let mut r = ReindexReport::new();
    r.record(1, IndexOutcome::Indexed);
    r.record(2, IndexOutcome::Failed("bad".to_string()));
    r.record(3, IndexOutcome::Indexed);
    assert_eq!(r.attempted, 3);
    assert_eq!(r.succeeded, 2);
    assert_eq!(r.failed, vec![(2, "bad".to_string())]);
}

#[test]
fn empty_run_reports_nothing() {
    let r = summarize(Vec::new());
    assert_eq!(r.attempted, 0);
    assert_eq!(r.succeeded, 0);
    assert!(r.failed.is_empty());
}

#[test]
fn api_response_success_and_error() {
    let ok = ApiResponse::success(5);
    assert!(ok.success);
    assert_eq!(ok.data, Some(5));
    assert_eq!(ok.message, "Operación exitosa");
    let err: ApiResponse<i32> = ApiResponse::error("Libro no encontrado");
    assert!(!err.success);
    assert_eq!(err.data, None);
    assert_eq!(err.message, "Libro no encontrado");
}

#[test]
fn page_frame() {
    let page = render_page("Libros", "<p>hola</p>");
    assert!(page.starts_with("<!doctype html>"));
    assert!(page.contains("<title>Libros</title>"));
    assert!(page.contains("<h1>Libros</h1>\n    <p>hola</p>\n  </div>"));
    assert!(page.contains(&bottom_nav_html()));
    assert!(page.ends_with("</html>"));
    assert!(bottom_nav_html().contains("href=\"/authors\""));
    assert_eq!(health(), "ok");
}
