//! The HTML frame shared by every page: head, heading, content, and the
//! bottom navigation bar.
use vstd::prelude::*;
use crate::text::{copy_str, push_str};

verus! {

/// The bottom navigation bar.
pub const NAV_HTML: &'static str = r#"
    <nav style="position:fixed;bottom:0;left:0;right:0;height:56px;background:#222;color:#fff;display:flex;justify-content:space-around;align-items:center;">
        <a href="/authors" style="color:#fff;text-decoration:none;padding:8px 16px;">Autores</a>
        <a href="/books"   style="color:#fff;text-decoration:none;padding:8px 16px;">Libros</a>
        <a href="/tables"  style="color:#fff;text-decoration:none;padding:8px 16px;">Tablas</a>
    </nav>
    "#;

/// Everything before the page's title.
pub const PAGE_START: &'static str = r#"<!doctype html>
<html lang="es">
<head>
  <meta charset="utf-8"/>
  <meta name="viewport" content="width=device-width,initial-scale=1"/>
  <title>"#;

/// Between the title in the head and the same title as the heading.
pub const PAGE_HEADING: &'static str = r#"</title>
  <style>
    body { margin:0 0 76px 0; font-family:Arial,Helvetica,sans-serif; padding:16px; }
    .container { max-width:900px; margin:0 auto; }
    ul { padding-left:18px; }
    .loading { color:#666; }
  </style>
</head>
<body>
  <div class="container">
    <h1>"#;

/// Between the heading and the content.
pub const PAGE_CONTENT: &'static str = "</h1>\n    ";

/// Between the content and the navigation bar.
pub const PAGE_NAV: &'static str = "\n  </div>\n  ";

/// After the navigation bar.
pub const PAGE_END: &'static str = "\n</body>\n</html>";

/// The bottom navigation bar's HTML.
pub fn bottom_nav_html() -> (r: String)
    ensures
        r@ == NAV_HTML@,
{
    copy_str(NAV_HTML)
}

/// The page with title `title` (in the head and as the heading) and content
/// `body`, with the navigation bar at the bottom. Both are inserted as
/// given.
pub fn render_page(title: &str, body: &str) -> (r: String)
    ensures
        r@ == PAGE_START@ + title@ + PAGE_HEADING@ + title@ + PAGE_CONTENT@ + body@ + PAGE_NAV@
            + NAV_HTML@ + PAGE_END@,
{
    let mut out = copy_str(PAGE_START);
    push_str(&mut out, title);
    push_str(&mut out, PAGE_HEADING);
    push_str(&mut out, title);
    push_str(&mut out, PAGE_CONTENT);
    push_str(&mut out, body);
    push_str(&mut out, PAGE_NAV);
    let nav = bottom_nav_html();
    push_str(&mut out, nav.as_str());
    push_str(&mut out, PAGE_END);
    out
}

/// The answer of the liveness probe.
pub fn health() -> (r: &'static str)
    ensures
        r@ == "ok"@,
{
    "ok"
}

} // verus!
