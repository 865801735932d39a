//! Ingestion: what a scan of a directory does with the store, file by file.
//! The walk itself, the reading of files and tags, and the running of the
//! statements are the caller's: a scan hands out each statement that is to be
//! run, in the order in which they are to be run, and takes what the store
//! gave for it.

use crate::decimal::{decimal, push_decimal};
use crate::identity::identity_text;
use crate::query::{
    begin_transaction_sql, begin_transaction_text, end_transaction_sql, end_transaction_text,
};
use crate::row::RawRow;
use crate::schema::create_table_text;
use crate::song::{song_fields, song_values, text_view, Song, SongView, TagBundle};
use crate::store::QueryError;
use crate::text::{truncate, truncated};
use crate::upsert::{insert_text, select_by_id_text, update_text, Looking};
use vstd::prelude::*;
use vstd::string::StringExecFns;

verus! {

/// A scan in progress.
#[derive(Debug)]
pub struct Scan {
    /// How many tagged files the scan has met, at most `u64::MAX`.
    pub file_count: u64,
    /// Whether the whole scan runs in one transaction.
    pub use_transaction: bool,
}

/// The line that shows a scan's progress: the line is cleared, then come
/// the number of files met and the name of the file at hand, cut to 80
/// characters.
pub open spec fn progress_text(file_count: u64, filename: Seq<char>) -> Seq<char> {
    "\r\x1b[2K"@ + decimal(file_count as nat) + " "@ + truncated(filename, 80)
}

/// The line that ends a scan: the line is cleared, then comes the number of
/// files met.
pub open spec fn summary_text(file_count: u64) -> Seq<char> {
    "\r\x1b[2K"@ + decimal(file_count as nat) + " file(s) parsed"@
}

/// The line that shows a scan's progress at the file `filename`.
pub fn progress_line(file_count: u64, filename: &str) -> (r: String)
    ensures
        r@ == progress_text(file_count, filename@),
{
    let mut out = String::from_str("\r\x1b[2K");
    push_decimal(&mut out, file_count as u128);
    out.append(" ");
    out.append(truncate(filename, 80).as_str());
    out
}

/// The line that ends a scan.
pub fn summary_line(file_count: u64) -> (r: String)
    ensures
        r@ == summary_text(file_count),
{
    let mut out = String::from_str("\r\x1b[2K");
    push_decimal(&mut out, file_count as u128);
    out.append(" file(s) parsed");
    out
}

/// What a scan finds at one entry of the directory that it walks.
#[derive(Clone, Copy, Debug)]
pub enum Found<'a> {
    /// A directory.
    Directory,
    /// A file without tags.
    Untagged,
    /// A file with tags whose content could not be read, so that it has no
    /// identity.
    Unreadable,
    /// A file with tags: its path, its content and its tags.
    Tagged { path: &'a str, content: &'a [u8], tags: &'a TagBundle },
}

impl<'a> Found<'a> {
    /// Whether the entry is a file with tags, which a scan counts.
    pub open spec fn counts(self) -> bool {
        self is Unreadable || self is Tagged
    }
}

/// A count with one more, as far as the count can go.
pub open spec fn one_more(file_count: u64) -> u64 {
    if file_count < u64::MAX {
        (file_count + 1) as u64
    } else {
        file_count
    }
}

/// A scan that has sent the statement that creates its table.
#[derive(Debug)]
pub struct Opening {
    /// Whether the whole scan is to run in one transaction.
    pub use_transaction: bool,
}

/// A scan that has sent the statement that opens its transaction.
#[derive(Debug)]
pub struct Entering {}

/// A scan whose table is there.
#[derive(Debug)]
pub enum Opened {
    /// The scan runs in no transaction and can take entries.
    Ready(Scan),
    /// The scan is to run in a transaction: the statement that opens it,
    /// which is to be run next.
    Begin(String, Entering),
}

/// A scan that has sent the statement that closes its transaction.
#[derive(Debug)]
pub struct Closing {
    /// How many tagged files the scan has met.
    pub file_count: u64,
}

/// The end of a scan.
#[derive(Debug)]
pub enum Finish {
    /// The scan ran in no transaction and is over: the number of tagged
    /// files that it met.
    Done(u64),
    /// The scan ran in a transaction: the statement that closes it, which is
    /// to be run next.
    End(String, Closing),
}

/// The song of a file with tags, as a scan writes it.
pub open spec fn song_found(path: Seq<char>, content: Seq<u8>, tags: TagBundle) -> SongView {
    SongView {
        id: identity_text(content),
        path: path,
        title: text_view(tags.title),
        artist: text_view(tags.artist),
        album: text_view(tags.album),
        year: match tags.year {
            Some(y) => Some(y as int),
            None => None,
        },
        track: match tags.track {
            Some(t) => Some(t as int),
            None => None,
        },
        disc: match tags.disc {
            Some(d) => Some(d as int),
            None => None,
        },
    }
}

impl Scan {
    /// Begins a scan into `table_name`: the statement that creates the table
    /// unless it exists, which is to be run first, and what goes on when it
    /// was run.
    pub fn begin(table_name: &str, use_transaction: bool) -> (r: (String, Opening))
        ensures
            r.0@ == create_table_text(table_name@, song_fields()),
            r.1.use_transaction == use_transaction,
    {
        let (statement, _) = Song::create_table(table_name);
        (statement, Opening { use_transaction })
    }

    /// Takes one entry of the walk. A directory and a file without tags are
    /// passed over. A file with tags is counted; if its content could not be
    /// read it is passed over too, and else the upsert of its song into
    /// `table_name` begins: the result holds the statement to be run first
    /// and what goes on when it was run.
    pub fn ingest(&mut self, table_name: &str, found: Found<'_>) -> (r: Option<(String, Looking)>)
        ensures
            final(self).use_transaction == old(self).use_transaction,
            final(self).file_count == if found.counts() {
                one_more(old(self).file_count)
            } else {
                old(self).file_count
            },
            match found {
                Found::Tagged { path, content, tags } => {
                    let song = song_found(path@, content@, *tags);
                    &&& r matches Some((statement, looking))
                    &&& statement@ == select_by_id_text(table_name@, song.id)
                    &&& looking.insert@ == insert_text(
                        table_name@,
                        song_fields(),
                        song_values(song),
                    )
                    &&& looking.update@ == update_text(
                        table_name@,
                        song_fields(),
                        song_values(song),
                        song.id,
                    )
                },
                _ => r is None,
            },
    {
        match found {
            Found::Directory => None,
            Found::Untagged => None,
            Found::Unreadable => {
                self.count_file();
                None
            },
            Found::Tagged { path, content, tags } => {
                self.count_file();
                let song = Song::from_tags(path, content, tags);
                Some(song.add(table_name))
            },
        }
    }

    /// Counts one more file and says how many there are now.
    fn count_file(&mut self) -> (r: u64)
        ensures
            r == final(self).file_count,
            final(self).use_transaction == old(self).use_transaction,
            final(self).file_count == one_more(old(self).file_count),
    {
        if self.file_count < u64::MAX {
            self.file_count = self.file_count + 1;
        }
        self.file_count
    }

    /// Ends the scan. A scan that ran in no transaction is over. One that
    /// ran in a transaction has it closed: the result holds the statement
    /// that does so, which is to be run next.
    pub fn finish(self) -> (r: Finish)
        ensures
            match r {
                Finish::Done(n) => !self.use_transaction && n == self.file_count,
                Finish::End(statement, closing) => self.use_transaction && statement@
                    == end_transaction_text() && closing.file_count == self.file_count,
            },
    {
        if self.use_transaction {
            Finish::End(end_transaction_sql(), Closing { file_count: self.file_count })
        } else {
            Finish::Done(self.file_count)
        }
    }
}

impl Opening {
    /// Goes on with what the store gave for the statement that creates the
    /// table. A failure ends the scan before it began. Else a scan that is
    /// to run in a transaction has it opened, the statement that does so
    /// being run next, and a scan that is not can take entries.
    pub fn created(self, answer: Result<Vec<RawRow>, QueryError>) -> (r: Result<
        Opened,
        QueryError,
    >)
        ensures
            match answer {
                Err(e) => r == Err::<Opened, QueryError>(e),
                Ok(_) => match r {
                    Ok(Opened::Ready(scan)) => !self.use_transaction && scan.file_count == 0
                        && !scan.use_transaction,
                    Ok(Opened::Begin(statement, _)) => self.use_transaction && statement@
                        == begin_transaction_text(),
                    Err(_) => false,
                },
            },
    {
        match answer {
            Err(e) => Err(e),
            Ok(_) => {
                if self.use_transaction {
                    Ok(Opened::Begin(begin_transaction_sql(), Entering {}))
                } else {
                    Ok(Opened::Ready(Scan { file_count: 0, use_transaction: false }))
                }
            },
        }
    }
}

impl Entering {
    /// Goes on with what the store gave for the statement that opens the
    /// transaction: a failure ends the scan before it began, and else the
    /// scan can take entries.
    pub fn entered(self, answer: Result<Vec<RawRow>, QueryError>) -> (r: Result<Scan, QueryError>)
        ensures
            match answer {
                Err(e) => r == Err::<Scan, QueryError>(e),
                Ok(_) => r matches Ok(scan) && scan.file_count == 0 && scan.use_transaction,
            },
    {
        match answer {
            Err(e) => Err(e),
            Ok(_) => Ok(Scan { file_count: 0, use_transaction: true }),
        }
    }
}

impl Closing {
    /// Ends the scan with what the store gave for the statement that closes
    /// the transaction: its error if it failed, and else the number of
    /// tagged files that the scan met.
    pub fn closed(self, answer: Result<Vec<RawRow>, QueryError>) -> (r: Result<u64, QueryError>)
        ensures
            match answer {
                Err(e) => r == Err::<u64, QueryError>(e),
                Ok(_) => r == Ok::<u64, QueryError>(self.file_count),
            },
    {
        match answer {
            Err(e) => Err(e),
            Ok(_) => Ok(self.file_count),
        }
    }
}

} // verus!
