//! What the store of tags is asked: the statements, and the texts that
//! go into them. The store itself is a database that is reached from
//! outside this library. Identifiers and tags are handed to it as
//! parameters, each as the very text it is, so that a tag comes back
//! from the store as it was given.
use crate::util::{Id, TagId};
use vstd::prelude::*;

verus! {

/// One question to the store of tags, or one change of it.
#[derive(Debug, Clone, PartialEq, Eq)]
pub struct Statement {
    /// The statement, with `$1`, `$2` and `$3` where the parameters go.
    pub sql: String,
    /// The parameters, in their order.
    pub params: Vec<String>,
}

pub struct StatementView {
    pub sql: Seq<char>,
    pub params: Seq<Seq<char>>,
}

impl View for Statement {
    type V = StatementView;

    open spec fn view(&self) -> StatementView {
        StatementView { sql: self.sql@, params: self.params.deep_view() }
    }
}

/// The statement that makes the table of tags where there is none.
pub fn create_table() -> (s: Statement)
    ensures
        s@.sql == "CREATE TABLE IF NOT EXISTS tags (key TEXT NOT NULL PRIMARY KEY, id TEXT NOT NULL, tag TEXT NOT NULL)"@,
        s@.params == Seq::<Seq<char>>::empty(),
{
    let s = Statement {
        sql: "CREATE TABLE IF NOT EXISTS tags (key TEXT NOT NULL PRIMARY KEY, id TEXT NOT NULL, tag TEXT NOT NULL)".to_owned(),
        params: Vec::new(),
    };
    assert(s@.params =~= Seq::<Seq<char>>::empty());
    s
}

/// The statement that ties `tag` to `id`, under the key of the two. A
/// tag that is tied to `id` already is not tied to it again.
pub fn add_tag<T>(key: String, id: &Id<T>, tag: &Id<TagId>) -> (s: Statement)
    ensures
        s@.sql == "INSERT OR IGNORE INTO tags VALUES ($1, $2, $3)"@,
        s@.params == seq![key@, id@, tag@],
{
    let mut params: Vec<String> = Vec::new();
    let ghost key_text = key@;
    params.push(key);
    params.push(id.to_string());
    params.push(tag.to_string());
    assert(params.deep_view() =~= seq![key_text, id@, tag@]);
    Statement { sql: "INSERT OR IGNORE INTO tags VALUES ($1, $2, $3)".to_owned(), params }
}

/// The statement that unties the tag and the identifier that have the
/// key `key`.
pub fn remove_tag(key: String) -> (s: Statement)
    ensures
        s@.sql == "DELETE FROM tags WHERE key=$1"@,
        s@.params == seq![key@],
{
    let mut params: Vec<String> = Vec::new();
    let ghost key_text = key@;
    params.push(key);
    assert(params.deep_view() =~= seq![key_text]);
    Statement { sql: "DELETE FROM tags WHERE key=$1".to_owned(), params }
}

/// The statement that unties every tag from `id`.
pub fn remove_all_tags_for<T>(id: &Id<T>) -> (s: Statement)
    ensures
        s@.sql == "DELETE FROM tags WHERE id=$1"@,
        s@.params == seq![id@],
{
    let mut params: Vec<String> = Vec::new();
    params.push(id.to_string());
    assert(params.deep_view() =~= seq![id@]);
    Statement { sql: "DELETE FROM tags WHERE id=$1".to_owned(), params }
}

/// The statement that asks for the tags that are tied to `id`.
pub fn get_tags_for<T>(id: &Id<T>) -> (s: Statement)
    ensures
        s@.sql == "SELECT tag FROM tags WHERE id=$1"@,
        s@.params == seq![id@],
{
    let mut params: Vec<String> = Vec::new();
    params.push(id.to_string());
    assert(params.deep_view() =~= seq![id@]);
    Statement { sql: "SELECT tag FROM tags WHERE id=$1".to_owned(), params }
}

} // verus!
