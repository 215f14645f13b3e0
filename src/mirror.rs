//! The relational mirror: the statements that copy committed trie entries
//! and roots into a SQL store, and the requests that carry them.

use vstd::prelude::*;
use vstd::string::*;
use crate::records::Collection;

verus! {

pub open spec fn hex_digits() -> Seq<char> {
    "0123456789abcdef"@
}

/// Lowercase hexadecimal text of bytes, two digits per byte, high first.
pub open spec fn hex_text(b: Seq<u8>) -> Seq<char>
    decreases b.len(),
{
    if b.len() == 0 {
        Seq::empty()
    } else {
        hex_text(b.drop_last()) + seq![hex_digits()[(b.last() / 16) as int], hex_digits()[(b.last() % 16) as int]]
    }
}

/// Relies on hex::encode: two lowercase digits per byte, high nibble first.
#[verifier::external_body]
fn to_hex(b: &[u8]) -> (r: String)
    ensures
        r@ == hex_text(b@),
{
    hex::encode(b)
}

/// Text made of `s`.
fn text(s: &str) -> (r: String)
    ensures
        r@ == s@,
{
    s.to_owned()
}

pub open spec fn table_text(table: Seq<char>) -> Seq<char> {
    "CREATE TABLE IF NOT EXISTS "@ + table + " (trie_key TEXT PRIMARY KEY UNIQUE, trie_value TEXT NULL)"@
}

pub open spec fn roots_table_text() -> Seq<char> {
    "CREATE TABLE IF NOT EXISTS roots (root_key TEXT PRIMARY KEY UNIQUE, root_value TEXT NULL)"@
}

pub open spec fn upsert_text(table: Seq<char>, key: Seq<u8>, value: Seq<u8>) -> Seq<char> {
    "INSERT OR REPLACE INTO "@ + table + " (trie_key, trie_value) VALUES ('"@ + hex_text(key) + "', '"@
        + hex_text(value) + "')"@
}

pub open spec fn delete_text(table: Seq<char>, key: Seq<u8>) -> Seq<char> {
    "DELETE FROM "@ + table + " WHERE trie_key = '"@ + hex_text(key) + "'"@
}

pub open spec fn root_text(name: Seq<char>, root: Seq<u8>) -> Seq<char> {
    "INSERT OR REPLACE INTO roots (root_key, root_value) VALUES ('"@ + name + "', '"@ + hex_text(root)
        + "')"@
}

/// The statement that creates a collection's table.
pub fn table_statement(table: &str) -> (r: String)
    ensures
        r@ == table_text(table@),
{
    text("CREATE TABLE IF NOT EXISTS ").concat(table).concat(
        " (trie_key TEXT PRIMARY KEY UNIQUE, trie_value TEXT NULL)",
    )
}

/// The statement that stores an entry in a collection's table.
pub fn upsert_statement(table: &str, key: &[u8], value: &[u8]) -> (r: String)
    ensures
        r@ == upsert_text(table@, key@, value@),
{
    let k = to_hex(key);
    let v = to_hex(value);
    text("INSERT OR REPLACE INTO ").concat(table).concat(" (trie_key, trie_value) VALUES ('").concat(
        k.as_str(),
    ).concat("', '").concat(v.as_str()).concat("')")
}

/// The statement that deletes an entry from a collection's table.
pub fn delete_statement(table: &str, key: &[u8]) -> (r: String)
    ensures
        r@ == delete_text(table@, key@),
{
    let k = to_hex(key);
    text("DELETE FROM ").concat(table).concat(" WHERE trie_key = '").concat(k.as_str()).concat("'")
}

/// The statement that stores a collection's root.
pub fn root_statement(name: &str, root: &[u8]) -> (r: String)
    ensures
        r@ == root_text(name@, root@),
{
    let h = to_hex(root);
    text("INSERT OR REPLACE INTO roots (root_key, root_value) VALUES ('").concat(name).concat(
        "', '",
    ).concat(h.as_str()).concat("')")
}

/// The arguments of an HTTP request that posts `statement` to `url`.
pub open spec fn request_args(url: Seq<char>, statement: Seq<char>) -> Seq<Seq<char>> {
    seq![
        "-s"@,
        "-XPOST"@,
        url,
        "-H"@,
        "Content-Type: application/json"@,
        "-d"@,
        "[\""@ + statement + "\"]"@,
    ]
}

pub open spec fn texts(v: Seq<String>) -> Seq<Seq<char>> {
    v.map_values(|s: String| s@)
}

fn request(url: &String, statement: &str) -> (r: Vec<String>)
    ensures
        texts(r@) == request_args(url@, statement@),
{
    let r = vec![
        text("-s"),
        text("-XPOST"),
        url.clone(),
        text("-H"),
        text("Content-Type: application/json"),
        text("-d"),
        text("[\"").concat(statement).concat("\"]"),
    ];
    assert(texts(r@) =~= request_args(url@, statement@));
    r
}

/// The endpoints of the relational store: one that executes statements and
/// one that answers queries.
#[derive(Debug, Clone)]
pub struct RQLite {
    pub execute_url: String,
    pub query_url: String,
}

impl RQLite {
    /// The statements that create a table for each collection and the table
    /// of roots.
    pub fn create_tables() -> (r: Vec<String>)
        ensures
            texts(r@) == seq![
                table_text(Collection::Tx.spec_name()),
                table_text(Collection::Receipt.spec_name()),
                table_text(Collection::MetaContract.spec_name()),
                table_text(Collection::Metadata.spec_name()),
                table_text(Collection::Cron.spec_name()),
                roots_table_text(),
            ],
    {
        let r = vec![
            table_statement(Collection::Tx.name().as_str()),
            table_statement(Collection::Receipt.name().as_str()),
            table_statement(Collection::MetaContract.name().as_str()),
            table_statement(Collection::Metadata.name().as_str()),
            table_statement(Collection::Cron.name().as_str()),
            text("CREATE TABLE IF NOT EXISTS roots (root_key TEXT PRIMARY KEY UNIQUE, root_value TEXT NULL)"),
        ];
        assert(texts(r@) =~= seq![
            table_text(Collection::Tx.spec_name()),
            table_text(Collection::Receipt.spec_name()),
            table_text(Collection::MetaContract.spec_name()),
            table_text(Collection::Metadata.spec_name()),
            table_text(Collection::Cron.spec_name()),
            roots_table_text(),
        ]);
        r
    }

    /// The request arguments that execute `statement`.
    pub fn execute(&self, statement: &str) -> (r: Vec<String>)
        ensures
            texts(r@) == request_args(self.execute_url@, statement@),
    {
        request(&self.execute_url, statement)
    }

    /// The request arguments that run the query `statement`.
    pub fn query(&self, statement: &str) -> (r: Vec<String>)
        ensures
            texts(r@) == request_args(self.query_url@, statement@),
    {
        request(&self.query_url, statement)
    }
}

/// Unicode White_Space, the characters that `char::is_whitespace` accepts.
pub open spec fn is_white_space(c: char) -> bool {
    let u = c as u32;
    u == 0x20 || (0x09 <= u <= 0x0d) || u == 0x85 || u == 0xa0 || u == 0x1680 || (0x2000 <= u
        <= 0x200a) || u == 0x2028 || u == 0x2029 || u == 0x202f || u == 0x205f || u == 0x3000
}

pub open spec fn strip_front(s: Seq<char>) -> Seq<char>
    decreases s.len(),
{
    if s.len() > 0 && is_white_space(s[0]) {
        strip_front(s.drop_first())
    } else {
        s
    }
}

pub open spec fn strip_back(s: Seq<char>) -> Seq<char>
    decreases s.len(),
{
    if s.len() > 0 && is_white_space(s.last()) {
        strip_back(s.drop_last())
    } else {
        s
    }
}

/// Relies on str::trim: leading and trailing White_Space removed.
#[verifier::external_body]
fn trim(s: &str) -> (r: &str)
    ensures
        r@ == strip_back(strip_front(s@)),
{
    s.trim()
}

/// Relies on str::replace: every newline removed, the rest kept in order.
#[verifier::external_body]
fn without_newlines(s: &str) -> (r: String)
    ensures
        r@ == s@.filter(|c: char| c != '\n'),
{
    s.replace("\n", "")
}

/// A response body with its newlines removed and its ends trimmed.
pub fn trimmer(text: String) -> (r: String)
    ensures
        r@ == strip_back(strip_front(text@.filter(|c: char| c != '\n'))),
{
    let t = without_newlines(text.as_str());
    trim(t.as_str()).to_owned()
}

} // verus!
