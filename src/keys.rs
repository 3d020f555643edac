//! The cache's key space: one prefix per resource family, one key per
//! entity, and the default time-to-live of every cached read.
use vstd::prelude::*;
use crate::text::{copy_str, push_str};

verus! {

/// Seconds for which a cached read stays fresh.
pub const TTL_SECS: u64 = 300;

pub const KEY_BOOKS_LIST: &'static str = "books:list";

pub const KEY_BOOK_PREFIX: &'static str = "books:id:";

pub const KEY_AUTHORS_LIST: &'static str = "authors:list";

pub const KEY_AUTHOR_PREFIX: &'static str = "authors:id:";

pub const KEY_AUTHOR_DETAILS_PREFIX: &'static str = "authors:details:";

pub const KEY_REVIEWS_PREFIX: &'static str = "reviews:book:";

pub const KEY_SALES_PREFIX: &'static str = "sales:book:";

pub const KEY_DASHBOARD_STATS: &'static str = "dashboard:stats";

/// The decimal digit `d`.
pub open spec fn digit_char(d: int) -> char {
    (d + '0' as int) as char
}

/// The decimal digits of `n >= 0`, without leading zeros.
pub open spec fn digits_of(n: nat) -> Seq<char>
    decreases n,
{
    if n < 10 {
        seq![digit_char(n as int)]
    } else {
        digits_of(n / 10) + seq![digit_char((n % 10) as int)]
    }
}

/// `n` written in decimal, with a `-` before a negative number.
pub open spec fn decimal_of(n: int) -> Seq<char> {
    if n < 0 {
        seq!['-'] + digits_of((-n) as nat)
    } else {
        digits_of(n as nat)
    }
}

/// Relies on `i32`'s `ToString`: the decimal text of the number.
#[verifier::external_body]
fn int_text(n: i32) -> (r: String)
    ensures
        r@ == decimal_of(n as int),
{
    n.to_string()
}

/// The key of entity `id` in the family `prefix`.
pub fn item_key(prefix: &str, id: i32) -> (r: String)
    ensures
        r@ == prefix@ + decimal_of(id as int),
{
    let mut out = copy_str(prefix);
    let digits = int_text(id);
    push_str(&mut out, digits.as_str());
    out
}

/// The key of book `id`.
pub fn book_key(id: i32) -> (r: String)
    ensures
        r@ == KEY_BOOK_PREFIX@ + decimal_of(id as int),
{
    item_key(KEY_BOOK_PREFIX, id)
}

/// The key of author `id`.
pub fn author_key(id: i32) -> (r: String)
    ensures
        r@ == KEY_AUTHOR_PREFIX@ + decimal_of(id as int),
{
    item_key(KEY_AUTHOR_PREFIX, id)
}

/// The key of the detail view (author and books) of author `id`.
pub fn author_details_key(id: i32) -> (r: String)
    ensures
        r@ == KEY_AUTHOR_DETAILS_PREFIX@ + decimal_of(id as int),
{
    item_key(KEY_AUTHOR_DETAILS_PREFIX, id)
}

/// The key of the reviews of book `book_id`.
pub fn reviews_key(book_id: i32) -> (r: String)
    ensures
        r@ == KEY_REVIEWS_PREFIX@ + decimal_of(book_id as int),
{
    item_key(KEY_REVIEWS_PREFIX, book_id)
}

/// The key of the yearly sales of book `book_id`.
pub fn sales_key(book_id: i32) -> (r: String)
    ensures
        r@ == KEY_SALES_PREFIX@ + decimal_of(book_id as int),
{
    item_key(KEY_SALES_PREFIX, book_id)
}

/// A write that changes what cached reads return.
#[derive(Debug, Clone, Copy, PartialEq, Eq)]
pub enum Write {
    Book(i32),
    Author(i32),
    Review { book_id: i32 },
    Sales { book_id: i32 },
}

/// The texts of a list of keys.
pub open spec fn key_views(v: Seq<String>) -> Seq<Seq<char>> {
    v.map_values(|s: String| s@)
}

/// The keys whose cached values a write makes stale: the entity's own key,
/// the lists and views that embed it, and the dashboard's counts.
pub open spec fn stale_keys(w: Write) -> Seq<Seq<char>> {
    match w {
        Write::Book(id) => seq![
            key_of(CacheResource::BooksList),
            key_of(CacheResource::Book(id)),
            key_of(CacheResource::DashboardStats),
        ],
        Write::Author(id) => seq![
            key_of(CacheResource::AuthorsList),
            key_of(CacheResource::Author(id)),
            key_of(CacheResource::AuthorDetails(id)),
            key_of(CacheResource::BooksList),
            key_of(CacheResource::DashboardStats),
        ],
        Write::Review { book_id } => seq![
            key_of(CacheResource::Reviews { book_id }),
            key_of(CacheResource::DashboardStats),
        ],
        Write::Sales { book_id } => seq![
            key_of(CacheResource::Sales { book_id }),
            key_of(CacheResource::DashboardStats),
        ],
    }
}

/// The keys to delete after the write `w` succeeded.
pub fn invalidation_keys(w: Write) -> (r: Vec<String>)
    ensures
        key_views(r@) == stale_keys(w),
{
    let mut out: Vec<String> = Vec::new();
    match w {
        Write::Book(id) => {
            out.push(copy_str(KEY_BOOKS_LIST));
            out.push(book_key(id));
            out.push(copy_str(KEY_DASHBOARD_STATS));
        },
        Write::Author(id) => {
            out.push(copy_str(KEY_AUTHORS_LIST));
            out.push(author_key(id));
            out.push(author_details_key(id));
            out.push(copy_str(KEY_BOOKS_LIST));
            out.push(copy_str(KEY_DASHBOARD_STATS));
        },
        Write::Review { book_id } => {
            out.push(reviews_key(book_id));
            out.push(copy_str(KEY_DASHBOARD_STATS));
        },
        Write::Sales { book_id } => {
            out.push(sales_key(book_id));
            out.push(copy_str(KEY_DASHBOARD_STATS));
        },
    }
    assert(key_views(out@) =~= stale_keys(w));
    out
}

/// A cached resource: a list, one entity's record or view, or the
/// dashboard's counts.
#[derive(Debug, Clone, Copy, PartialEq, Eq, Structural)]
pub enum CacheResource {
    BooksList,
    Book(i32),
    AuthorsList,
    Author(i32),
    AuthorDetails(i32),
    Reviews { book_id: i32 },
    Sales { book_id: i32 },
    DashboardStats,
}

/// The key under which a resource is cached.
pub open spec fn key_of(r: CacheResource) -> Seq<char> {
    match r {
        CacheResource::BooksList => KEY_BOOKS_LIST@,
        CacheResource::Book(id) => KEY_BOOK_PREFIX@ + decimal_of(id as int),
        CacheResource::AuthorsList => KEY_AUTHORS_LIST@,
        CacheResource::Author(id) => KEY_AUTHOR_PREFIX@ + decimal_of(id as int),
        CacheResource::AuthorDetails(id) => KEY_AUTHOR_DETAILS_PREFIX@ + decimal_of(id as int),
        CacheResource::Reviews { book_id } => KEY_REVIEWS_PREFIX@ + decimal_of(book_id as int),
        CacheResource::Sales { book_id } => KEY_SALES_PREFIX@ + decimal_of(book_id as int),
        CacheResource::DashboardStats => KEY_DASHBOARD_STATS@,
    }
}

/// The key under which `r` is cached.
pub fn cache_key(r: CacheResource) -> (k: String)
    ensures
        k@ == key_of(r),
{
    match r {
        CacheResource::BooksList => copy_str(KEY_BOOKS_LIST),
        CacheResource::Book(id) => book_key(id),
        CacheResource::AuthorsList => copy_str(KEY_AUTHORS_LIST),
        CacheResource::Author(id) => author_key(id),
        CacheResource::AuthorDetails(id) => author_details_key(id),
        CacheResource::Reviews { book_id } => reviews_key(book_id),
        CacheResource::Sales { book_id } => sales_key(book_id),
        CacheResource::DashboardStats => copy_str(KEY_DASHBOARD_STATS),
    }
}

proof fn lemma_digits_shape(n: nat)
    ensures
        digits_of(n).len() >= 1,
        n >= 10 ==> digits_of(n).len() >= 2,
        forall|i: int| 0 <= i < digits_of(n).len() ==> '0' <= #[trigger] digits_of(n)[i] <= '9',
    decreases n,
{
    if n >= 10 {
        lemma_digits_shape(n / 10);
        let d = digits_of(n / 10);
        assert forall|i: int| 0 <= i < digits_of(n).len() implies '0' <= #[trigger] digits_of(n)[i] <= '9' by {
            if i < d.len() {
                assert(digits_of(n)[i] == d[i]);
            }
        }
    }
}

proof fn lemma_digits_injective(a: nat, b: nat)
    requires
        digits_of(a) == digits_of(b),
    ensures
        a == b,
    decreases a,
{
    lemma_digits_shape(a);
    lemma_digits_shape(b);
    if a < 10 && b < 10 {
        assert(digits_of(a)[0] == digit_char(a as int));
        assert(digits_of(b)[0] == digit_char(b as int));
    } else if a >= 10 && b >= 10 {
        let da = digits_of(a);
        assert(da.last() == digit_char((a % 10) as int));
        assert(da.last() == digit_char((b % 10) as int));
        assert(a % 10 == b % 10);
        assert(da.drop_last() =~= digits_of(a / 10));
        assert(digits_of(b).drop_last() =~= digits_of(b / 10));
        lemma_digits_injective(a / 10, b / 10);
        assert(a == 10 * (a / 10) + a % 10);
        assert(b == 10 * (b / 10) + b % 10);
    }
}

/// Different numbers are written differently.
proof fn lemma_decimal_injective(a: int, b: int)
    requires
        decimal_of(a) == decimal_of(b),
    ensures
        a == b,
{
    if a < 0 && b < 0 {
        assert(decimal_of(a).drop_first() =~= digits_of((-a) as nat));
        assert(decimal_of(b).drop_first() =~= digits_of((-b) as nat));
        lemma_digits_injective((-a) as nat, (-b) as nat);
    } else if a >= 0 && b >= 0 {
        lemma_digits_injective(a as nat, b as nat);
    } else if a < 0 {
        lemma_digits_shape(b as nat);
        assert(decimal_of(a)[0] == '-');
        assert('0' <= decimal_of(b)[0]);
    } else {
        lemma_digits_shape(a as nat);
        assert(decimal_of(b)[0] == '-');
        assert('0' <= decimal_of(a)[0]);
    }
}

/// Two keys of one family are equal only for equal identifiers.
proof fn lemma_same_family(prefix: Seq<char>, a: int, b: int)
    requires
        prefix + decimal_of(a) == prefix + decimal_of(b),
    ensures
        a == b,
{
    assert((prefix + decimal_of(a)).subrange(prefix.len() as int, (prefix + decimal_of(a)).len() as int)
        =~= decimal_of(a));
    assert((prefix + decimal_of(b)).subrange(prefix.len() as int, (prefix + decimal_of(b)).len() as int)
        =~= decimal_of(b));
    lemma_decimal_injective(a, b);
}

/// The characters of a key at positions 0, 6 and 8, which tell the
/// resource kinds apart.
pub open spec fn kind_mark(r: CacheResource) -> (char, char, char) {
    match r {
        CacheResource::BooksList => ('b', 'l', 's'),
        CacheResource::Book(_) => ('b', 'i', ':'),
        CacheResource::AuthorsList => ('a', 's', 'l'),
        CacheResource::Author(_) => ('a', 's', 'i'),
        CacheResource::AuthorDetails(_) => ('a', 's', 'd'),
        CacheResource::Reviews { .. } => ('r', 's', 'b'),
        CacheResource::Sales { .. } => ('s', 'b', 'o'),
        CacheResource::DashboardStats => ('d', 'a', 'd'),
    }
}

proof fn lemma_kind_mark(r: CacheResource)
    ensures
        key_of(r).len() > 8,
        (key_of(r)[0], key_of(r)[6], key_of(r)[8]) == kind_mark(r),
{
    reveal_strlit("books:list");
    reveal_strlit("books:id:");
    reveal_strlit("authors:list");
    reveal_strlit("authors:id:");
    reveal_strlit("authors:details:");
    reveal_strlit("reviews:book:");
    reveal_strlit("sales:book:");
    reveal_strlit("dashboard:stats");
    match r {
        CacheResource::Book(id) => lemma_prefixed_marks(KEY_BOOK_PREFIX@, id as int),
        CacheResource::Author(id) => lemma_prefixed_marks(KEY_AUTHOR_PREFIX@, id as int),
        CacheResource::AuthorDetails(id) => lemma_prefixed_marks(KEY_AUTHOR_DETAILS_PREFIX@, id as int),
        CacheResource::Reviews { book_id } => lemma_prefixed_marks(KEY_REVIEWS_PREFIX@, book_id as int),
        CacheResource::Sales { book_id } => lemma_prefixed_marks(KEY_SALES_PREFIX@, book_id as int),
        _ => {},
    }
}

proof fn lemma_prefixed_marks(prefix: Seq<char>, id: int)
    requires
        prefix.len() > 8,
    ensures
        (prefix + decimal_of(id)).len() > 8,
        (prefix + decimal_of(id))[0] == prefix[0],
        (prefix + decimal_of(id))[6] == prefix[6],
        (prefix + decimal_of(id))[8] == prefix[8],
{
}

/// Distinct resources are never cached under one key.
pub proof fn lemma_keys_distinct(r1: CacheResource, r2: CacheResource)
    ensures
        key_of(r1) == key_of(r2) ==> r1 == r2,
{
    if key_of(r1) == key_of(r2) {
        lemma_kind_mark(r1);
        lemma_kind_mark(r2);
        match (r1, r2) {
            (CacheResource::Book(a), CacheResource::Book(b)) => lemma_same_family(KEY_BOOK_PREFIX@, a as int, b as int),
            (CacheResource::Author(a), CacheResource::Author(b)) => lemma_same_family(KEY_AUTHOR_PREFIX@, a as int, b as int),
            (CacheResource::AuthorDetails(a), CacheResource::AuthorDetails(b)) => lemma_same_family(
                KEY_AUTHOR_DETAILS_PREFIX@,
                a as int,
                b as int,
            ),
            (CacheResource::Reviews { book_id: a }, CacheResource::Reviews { book_id: b }) => lemma_same_family(
                KEY_REVIEWS_PREFIX@,
                a as int,
                b as int,
            ),
            (CacheResource::Sales { book_id: a }, CacheResource::Sales { book_id: b }) => lemma_same_family(
                KEY_SALES_PREFIX@,
                a as int,
                b as int,
            ),
            _ => {},
        }
    }
}

} // verus!
