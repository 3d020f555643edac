//! The catalogue's records, the payloads that create and update them, and the
//! envelope in which every JSON answer travels.
use vstd::prelude::*;
use vstd::string::*;

verus! {

/// A copy of an optional text, equal to it.
pub fn copy_opt_string(s: &Option<String>) -> (r: Option<String>)
    ensures
        r == *s,
{
    match s {
        Some(t) => Some(t.clone()),
        None => None,
    }
}

#[derive(Debug, PartialEq, Eq)]
pub struct Author {
    pub id: Option<i32>,
    pub name: String,
    pub birth_date: String,
    pub country: String,
    pub description: Option<String>,
}

impl Clone for Author {
    fn clone(&self) -> (r: Self)
        ensures
            r == *self,
    {
        Author {
            id: self.id,
            name: self.name.clone(),
            birth_date: self.birth_date.clone(),
            country: self.country.clone(),
            description: copy_opt_string(&self.description),
        }
    }
}

#[derive(Debug, Clone, PartialEq, Eq)]
pub struct Book {
    pub id: Option<i32>,
    pub title: String,
    pub summary: Option<String>,
    pub publication_date: String,
    pub sales_count: i32,
    pub author_id: i32,
}

/// A book together with its author, as the catalogue lists it.
#[derive(Debug, PartialEq, Eq)]
pub struct BookWithAuthor {
    pub id: Option<i32>,
    pub title: String,
    pub summary: Option<String>,
    pub publication_date: String,
    pub sales_count: i32,
    pub author: Author,
}

impl Clone for BookWithAuthor {
    fn clone(&self) -> (r: Self)
        ensures
            r == *self,
    {
        BookWithAuthor {
            id: self.id,
            title: self.title.clone(),
            summary: copy_opt_string(&self.summary),
            publication_date: self.publication_date.clone(),
            sales_count: self.sales_count,
            author: self.author.clone(),
        }
    }
}

#[derive(Debug, Clone, PartialEq, Eq)]
pub struct Review {
    pub id: Option<i32>,
    pub book_id: i32,
    pub review_text: String,
    pub rating: i32,
    pub positive_votes: i32,
    pub created_at: Option<String>,
}

#[derive(Debug, Clone, PartialEq, Eq)]
pub struct ReviewWithBook {
    pub id: Option<i32>,
    pub book_id: i32,
    pub book_title: String,
    pub review_text: String,
    pub rating: i32,
    pub positive_votes: i32,
    pub created_at: Option<String>,
}

#[derive(Debug, Clone, PartialEq, Eq)]
pub struct YearlySales {
    pub id: Option<i32>,
    pub book_id: i32,
    pub year: i32,
    pub sales: i32,
}

#[derive(Debug, Clone, PartialEq, Eq)]
pub struct YearlySalesWithBook {
    pub id: Option<i32>,
    pub book_id: i32,
    pub book_title: String,
    pub year: i32,
    pub sales: i32,
}

#[derive(Debug, Clone, PartialEq, Eq)]
pub struct CreateAuthor {
    pub name: String,
    pub birth_date: String,
    pub country: String,
    pub description: Option<String>,
}

#[derive(Debug, Clone, PartialEq, Eq)]
pub struct CreateBook {
    pub title: String,
    pub summary: Option<String>,
    pub publication_date: String,
    pub author_id: i32,
}

#[derive(Debug, Clone, PartialEq, Eq)]
pub struct CreateReview {
    pub book_id: i32,
    pub review_text: String,
    pub rating: i32,
}

#[derive(Debug, Clone, PartialEq, Eq)]
pub struct CreateYearlySales {
    pub book_id: i32,
    pub year: i32,
    pub sales: i32,
}

#[derive(Debug, Clone, PartialEq, Eq)]
pub struct UpdateAuthor {
    pub name: Option<String>,
    pub birth_date: Option<String>,
    pub country: Option<String>,
    pub description: Option<String>,
}

#[derive(Debug, Clone, PartialEq, Eq)]
pub struct UpdateBook {
    pub title: Option<String>,
    pub summary: Option<String>,
    pub publication_date: Option<String>,
    pub author_id: Option<i32>,
}

#[derive(Debug, Clone, PartialEq, Eq)]
pub struct UpdateReview {
    pub book_id: Option<i32>,
    pub review_text: Option<String>,
    pub rating: Option<i32>,
    pub positive_votes: Option<i32>,
}

#[derive(Debug, Clone, PartialEq, Eq)]
pub struct UpdateYearlySales {
    pub book_id: Option<i32>,
    pub year: Option<i32>,
    pub sales: Option<i32>,
}

/// A book as an author's page lists it: the year of publication only.
#[derive(Debug, Clone, PartialEq, Eq)]
pub struct BookSummary {
    pub id: i32,
    pub title: String,
    pub publication_date: Option<i32>,
}

/// An author with the books they wrote.
#[derive(Debug, Clone, PartialEq, Eq)]
pub struct AuthorDetails {
    pub author: Author,
    pub books: Vec<BookSummary>,
}

/// The fields of the HTML form that creates or edits a book.
#[derive(Debug, Clone, PartialEq, Eq)]
pub struct BookForm {
    pub title: String,
    pub summary: Option<String>,
    pub publication_date: String,
    pub author_id: i32,
}

/// The fields of the HTML form that creates or edits a review.
#[derive(Debug, Clone, PartialEq, Eq)]
pub struct ReviewForm {
    pub review_text: String,
    pub rating: i32,
    pub positive_votes: Option<i32>,
}

/// The envelope of every JSON answer: a success flag, the payload on
/// success, and a message for people.
#[derive(Debug)]
pub struct ApiResponse<T> {
    pub success: bool,
    pub data: Option<T>,
    pub message: String,
}

/// The message that goes with every successful answer.
pub open spec fn success_message() -> Seq<char> {
    "Operación exitosa"@
}

impl<T> ApiResponse<T> {
    /// A successful answer that carries `data`.
    pub fn success(data: T) -> (r: Self)
        ensures
            r.success,
            r.data == Some(data),
            r.message@ == success_message(),
    {
        ApiResponse { success: true, data: Some(data), message: String::from_str("Operación exitosa") }
    }

    /// A failed answer with `message` and no payload.
    pub fn error(message: &str) -> (r: Self)
        ensures
            !r.success,
            r.data is None,
            r.message@ == message@,
    {
        ApiResponse { success: false, data: None, message: String::from_str(message) }
    }
}

} // verus!
