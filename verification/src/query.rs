//! The statements that read from the store.

use crate::decimal::{decimal, push_decimal};
use crate::pagination::{Limit, Window};
use vstd::prelude::*;
use vstd::string::StringExecFns;

verus! {

/// The clause that bounds a statement's result to a window: nothing for
/// the window that lets everything through, else a limit and an offset. An
/// unbounded window with an offset is written with the limit `-1`, which the
/// store reads as no limit.
pub open spec fn page_clause(window: Window) -> Seq<char> {
    match window.limit {
        Limit::AtMost(k) => " LIMIT "@ + decimal(k as nat) + " OFFSET "@ + decimal(
            window.offset as nat,
        ),
        Limit::Unbounded => if window.offset == 0 {
            Seq::empty()
        } else {
            " LIMIT -1 OFFSET "@ + decimal(window.offset as nat)
        },
    }
}

/// The statement that selects the rows of `table` within a window.
pub open spec fn select_page_text(table: Seq<char>, window: Window) -> Seq<char> {
    "SELECT * from "@ + table + page_clause(window) + ";"@
}

/// The statement that searches `table` for `term` and selects the matches
/// within a window, best first. The term stands between double quotes as it
/// is.
pub open spec fn search_text(table: Seq<char>, term: Seq<char>, window: Window) -> Seq<char> {
    "SELECT * FROM "@ + table + " WHERE "@ + table + " MATCH \""@ + term + "\" ORDER BY rank"@
        + page_clause(window) + ";"@
}

/// The statement that lists the albums of the table `songs`, each with its
/// artist, its year and the number of its songs.
pub open spec fn albums_text() -> Seq<char> {
    "SELECT DISTINCT(album), artist, year, COUNT(*) as nbsongs FROM songs WHERE LENGTH(album) > 0 GROUP BY album;"@
}

/// The statement that lists the artists of the table `songs`, each with the
/// number of its songs.
pub open spec fn artists_text() -> Seq<char> {
    "SELECT artist, COUNT(*) AS nbsongs FROM songs WHERE LENGTH(artist) > 0 GROUP BY artist;"@
}

/// The statement that opens a transaction.
pub open spec fn begin_transaction_text() -> Seq<char> {
    "BEGIN TRANSACTION;"@
}

/// The statement that closes a transaction and keeps what was written in it.
pub open spec fn end_transaction_text() -> Seq<char> {
    "END TRANSACTION;"@
}

/// Appends the clause that bounds a statement's result to `window`.
pub fn push_page_clause(out: &mut String, window: Window)
    ensures
        final(out)@ == old(out)@ + page_clause(window),
{
    match window.limit {
        Limit::AtMost(k) => {
            out.append(" LIMIT ");
            push_decimal(out, k as u128);
            out.append(" OFFSET ");
            push_decimal(out, window.offset as u128);
        },
        Limit::Unbounded => {
            if window.offset != 0 {
                out.append(" LIMIT -1 OFFSET ");
                push_decimal(out, window.offset as u128);
            }
        },
    }
}

/// The statement that selects the rows of `table` within `window`.
pub fn select_page_sql(table: &str, window: Window) -> (r: String)
    ensures
        r@ == select_page_text(table@, window),
{
    let mut out = String::from_str("SELECT * from ");
    out.append(table);
    push_page_clause(&mut out, window);
    out.append(";");
    out
}

/// The statement that searches `table` for `term` within `window`.
pub fn search_sql(table: &str, term: &str, window: Window) -> (r: String)
    ensures
        r@ == search_text(table@, term@, window),
{
    let mut out = String::from_str("SELECT * FROM ");
    out.append(table);
    out.append(" WHERE ");
    out.append(table);
    out.append(" MATCH \"");
    out.append(term);
    out.append("\" ORDER BY rank");
    push_page_clause(&mut out, window);
    out.append(";");
    out
}

/// The statement that lists the albums.
pub fn albums_sql() -> (r: String)
    ensures
        r@ == albums_text(),
{
    String::from_str(
        "SELECT DISTINCT(album), artist, year, COUNT(*) as nbsongs FROM songs WHERE LENGTH(album) > 0 GROUP BY album;",
    )
}

/// The statement that lists the artists.
pub fn artists_sql() -> (r: String)
    ensures
        r@ == artists_text(),
{
    String::from_str(
        "SELECT artist, COUNT(*) AS nbsongs FROM songs WHERE LENGTH(artist) > 0 GROUP BY artist;",
    )
}

/// The statement that opens a transaction.
pub fn begin_transaction_sql() -> (r: String)
    ensures
        r@ == begin_transaction_text(),
{
    String::from_str("BEGIN TRANSACTION;")
}

/// The statement that closes a transaction.
pub fn end_transaction_sql() -> (r: String)
    ensures
        r@ == end_transaction_text(),
{
    String::from_str("END TRANSACTION;")
}

} // verus!
