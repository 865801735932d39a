//! The upsert engine: a record is written with an `INSERT` where the table
//! holds no row of its identity, and with an `UPDATE` where it does.

use crate::codec::{identity_of, literal_of, literals, quoted, record_fits, Record, ValueView};
use crate::row::RawRow;
use crate::schema::{identity_at, identity_index, is_identity, Descriptor, FieldView};
use crate::store::QueryError;
use crate::text::{join, joined, views};
use vstd::prelude::*;
use vstd::string::StringExecFns;

verus! {

/// How a record was, or is to be, written.
#[derive(Clone, Copy, Debug, PartialEq, Eq, Structural)]
pub enum Written {
    /// As a new row.
    Inserted,
    /// Over the row that has its identity.
    Updated,
}

/// The names of the fields, in order.
pub open spec fn field_names(fields: Seq<FieldView>) -> Seq<Seq<char>> {
    Seq::new(fields.len(), |i: int| fields[i].name)
}

/// The assignment `name=literal` of every field but the one named `id`, in
/// the fields' order.
pub open spec fn assignments(fields: Seq<FieldView>, values: Seq<ValueView>) -> Seq<Seq<char>>
    decreases fields.len(),
{
    if fields.len() == 0 || values.len() == 0 {
        Seq::empty()
    } else if is_identity(fields.last().name) {
        assignments(fields.drop_last(), values.drop_last())
    } else {
        assignments(fields.drop_last(), values.drop_last()).push(
            fields.last().name + "="@ + literal_of(values.last()),
        )
    }
}

/// The condition that selects the row of the identity `id`.
pub open spec fn identity_condition(id: Seq<char>) -> Seq<char> {
    "id="@ + quoted(id)
}

/// The statement that selects the row of the identity `id` from `table`.
pub open spec fn select_by_id_text(table: Seq<char>, id: Seq<char>) -> Seq<char> {
    "SELECT * FROM "@ + table + " WHERE "@ + identity_condition(id) + ";"@
}

/// The statement that inserts a record into `table`: every field's name,
/// then every field's literal, the identity included.
pub open spec fn insert_text(
    table: Seq<char>,
    fields: Seq<FieldView>,
    values: Seq<ValueView>,
) -> Seq<char> {
    "INSERT INTO "@ + table + " ("@ + joined(field_names(fields), ","@) + ") VALUES ("@ + joined(
        literals(values),
        ","@,
    ) + ");"@
}

/// The statement that updates the row of a record's identity in `table`:
/// every field but the identity is set, and the identity selects the row.
pub open spec fn update_text(
    table: Seq<char>,
    fields: Seq<FieldView>,
    values: Seq<ValueView>,
    id: Seq<char>,
) -> Seq<char> {
    "UPDATE "@ + table + " SET "@ + joined(assignments(fields, values), ","@) + " WHERE "@
        + identity_condition(id) + ";"@
}

/// The statement that writes a record in the way `how`.
pub open spec fn write_text(
    table: Seq<char>,
    fields: Seq<FieldView>,
    values: Seq<ValueView>,
    at: int,
    how: Written,
) -> Seq<char> {
    match how {
        Written::Inserted => insert_text(table, fields, values),
        Written::Updated => update_text(table, fields, values, identity_of(values, at)),
    }
}

/// The condition `id="…"` that selects the row of an identity.
pub fn identity_condition_sql(id: &str) -> (r: String)
    ensures
        r@ == identity_condition(id@),
{
    let mut out = String::from_str("id=");
    out.push('"');
    out.append(crate::text::clean_string(id).as_str());
    out.push('"');
    out
}

/// The statement that selects the row of the identity `id` from `table`.
pub fn select_by_id_sql(table: &str, id: &str) -> (r: String)
    ensures
        r@ == select_by_id_text(table@, id@),
{
    let mut out = String::from_str("SELECT * FROM ");
    out.append(table);
    out.append(" WHERE ");
    out.append(identity_condition_sql(id).as_str());
    out.append(";");
    out
}

impl Record {
    /// The statement that inserts this record into `table`.
    pub fn insert_sql(&self, descriptor: &Descriptor, table: &str) -> (r: String)
        ensures
            r@ == insert_text(table@, descriptor@, self@),
    {
        let mut names: Vec<String> = Vec::new();
        let n: usize = descriptor.len();
        let mut i: usize = 0;
        while i < n
            invariant
                n == descriptor@.len(),
                i <= n,
                names@.len() == i,
                forall|j: int| 0 <= j < i ==> (#[trigger] names@[j])@ == descriptor@[j].name,
            decreases n - i,
        {
            names.push(descriptor.field(i).name.clone());
            i += 1;
        }
        proof {
            assert(views(names@) =~= field_names(descriptor@));
        }
        let mut out = String::from_str("INSERT INTO ");
        out.append(table);
        out.append(" (");
        out.append(join(&names, ",").as_str());
        out.append(") VALUES (");
        out.append(join(&self.value_list(), ",").as_str());
        out.append(");");
        out
    }

    /// The statement that updates the row of this record's identity in
    /// `table`.
    pub fn update_sql(&self, descriptor: &Descriptor, table: &str) -> (r: String)
        requires
            record_fits(descriptor@, self@),
        ensures
            r@ == update_text(
                table@,
                descriptor@,
                self@,
                identity_of(self@, identity_index(descriptor@)),
            ),
    {
        let mut sets: Vec<String> = Vec::new();
        let n: usize = descriptor.len();
        let id_at: usize = descriptor.id_index();
        let mut i: usize = 0;
        while i < n
            invariant
                n == descriptor@.len(),
                n == self@.len(),
                i <= n,
                identity_at(descriptor@, id_at as int),
                views(sets@) == assignments(descriptor@.take(i as int), self@.take(i as int)),
            decreases n - i,
        {
            let ghost before = views(sets@);
            proof {
                assert(descriptor@.take(i + 1).drop_last() =~= descriptor@.take(i as int));
                assert(self@.take(i + 1).drop_last() =~= self@.take(i as int));
            }
            if i != id_at {
                let mut set = descriptor.field(i).name.clone();
                set.append("=");
                set.append(self.values[i].encode().as_str());
                sets.push(set);
                proof {
                    assert(views(sets@) =~= before.push(
                        descriptor@[i as int].name + "="@ + literal_of(self@[i as int]),
                    ));
                }
            }
            i += 1;
        }
        proof {
            assert(descriptor@.take(n as int) =~= descriptor@);
            assert(self@.take(n as int) =~= self@);
        }
        let mut out = String::from_str("UPDATE ");
        out.append(table);
        out.append(" SET ");
        out.append(join(&sets, ",").as_str());
        out.append(" WHERE ");
        out.append(identity_condition_sql(self.id(descriptor).as_str()).as_str());
        out.append(";");
        out
    }

    /// The statement that writes this record to `table` in the way `how`.
    pub fn write_sql(&self, descriptor: &Descriptor, table: &str, how: Written) -> (r: String)
        requires
            record_fits(descriptor@, self@),
        ensures
            r@ == write_text(table@, descriptor@, self@, identity_index(descriptor@), how),
    {
        match how {
            Written::Inserted => self.insert_sql(descriptor, table),
            Written::Updated => self.update_sql(descriptor, table),
        }
    }
}

/// How a record is to be written to a table that holds `matches` rows of
/// its identity.
pub open spec fn planned(matches: nat) -> Written {
    if matches > 0 {
        Written::Updated
    } else {
        Written::Inserted
    }
}

/// How a record is to be written, given the rows that the table holds of
/// its identity: over the row that is there, or as a new row if none is.
pub fn plan(existing: &Vec<RawRow>) -> (r: Written)
    ensures
        r == planned(existing@.len()),
{
    if existing.len() > 0 {
        Written::Updated
    } else {
        Written::Inserted
    }
}

/// An upsert that has asked the table for the row of the record's identity:
/// the two statements of which one will write the record.
#[derive(Debug)]
pub struct Looking {
    /// The statement that writes the record as a new row.
    pub insert: String,
    /// The statement that writes the record over the row of its identity.
    pub update: String,
}

/// An upsert that has sent the statement that writes the record.
#[derive(Debug)]
pub struct Writing {
    /// The way in which the record is written.
    pub how: Written,
}

/// Begins the upsert of `record` into `table`. The result holds the
/// statement that is to be run first, which asks the table for the row of the
/// record's identity, and what the upsert needs to go on when that statement
/// was run.
///
/// The statements of an upsert run one after the other and not as one: this
/// is for a single writer.
pub fn upsert(descriptor: &Descriptor, record: &Record, table: &str) -> (r: (String, Looking))
    requires
        record_fits(descriptor@, record@),
    ensures
        r.0@ == select_by_id_text(table@, identity_of(record@, identity_index(descriptor@))),
        r.1.insert@ == insert_text(table@, descriptor@, record@),
        r.1.update@ == update_text(
            table@,
            descriptor@,
            record@,
            identity_of(record@, identity_index(descriptor@)),
        ),
{
    let select = select_by_id_sql(table, record.id(descriptor).as_str());
    let looking = Looking {
        insert: record.insert_sql(descriptor, table),
        update: record.update_sql(descriptor, table),
    };
    (select, looking)
}

impl Looking {
    /// Goes on with what the table gave for the row of the record's
    /// identity. If the statement failed, the upsert ends with its error and
    /// nothing is written. Else the record is to be written over the row that
    /// was found, or as a new row if none was: the result holds the statement
    /// that does so, which is to be run next.
    pub fn found(self, answer: Result<Vec<RawRow>, QueryError>) -> (r: Result<
        (String, Writing),
        QueryError,
    >)
        ensures
            match answer {
                Err(e) => r == Err::<(String, Writing), QueryError>(e),
                Ok(rows) => r matches Ok((statement, writing)) && writing.how == planned(
                    rows@.len(),
                ) && statement@ == match writing.how {
                    Written::Inserted => self.insert@,
                    Written::Updated => self.update@,
                },
            },
    {
        match answer {
            Err(e) => Err(e),
            Ok(rows) => {
                let how = plan(&rows);
                let statement = match how {
                    Written::Inserted => self.insert,
                    Written::Updated => self.update,
                };
                Ok((statement, Writing { how }))
            },
        }
    }
}

impl Writing {
    /// Ends the upsert with what the writing statement gave: its error if it
    /// failed, and else the way in which the record was written. Nothing is
    /// tried again.
    pub fn written(self, answer: Result<Vec<RawRow>, QueryError>) -> (r: Result<
        Written,
        QueryError,
    >)
        ensures
            match answer {
                Err(e) => r == Err::<Written, QueryError>(e),
                Ok(_) => r == Ok::<Written, QueryError>(self.how),
            },
    {
        match answer {
            Err(e) => Err(e),
            Ok(_) => Ok(self.how),
        }
    }
}

// What follows speaks of a table as the sequence of its rows, each row the
// values of a record, and of what the two statements of an upsert make of
// such a table. It says why repeated ingestion converges; that a store does
// to its table what is said here of the sequence is not proved.

/// How many of `rows` have the value `id` at position `at`.
pub open spec fn count_of(rows: Seq<Seq<ValueView>>, at: int, id: ValueView) -> nat
    decreases rows.len(),
{
    if rows.len() == 0 {
        0
    } else if rows.last()[at] == id {
        count_of(rows.drop_last(), at, id) + 1
    } else {
        count_of(rows.drop_last(), at, id)
    }
}

/// The rows of a table after `record` was written to it in the way `how`,
/// the identity being the value at position `at`: an insertion adds the
/// record behind the rows that are there, and an update puts the record in
/// the place of every row that has its identity.
pub open spec fn written(
    rows: Seq<Seq<ValueView>>,
    at: int,
    record: Seq<ValueView>,
    how: Written,
) -> Seq<Seq<ValueView>> {
    match how {
        Written::Inserted => rows.push(record),
        Written::Updated => Seq::new(
            rows.len(),
            |i: int|
                if rows[i][at] == record[at] {
                    record
                } else {
                    rows[i]
                },
        ),
    }
}

/// The rows of a table after an upsert of `record`.
pub open spec fn upserted(rows: Seq<Seq<ValueView>>, at: int, record: Seq<ValueView>) -> Seq<
    Seq<ValueView>,
> {
    written(rows, at, record, planned(count_of(rows, at, record[at])))
}

/// Where no row is counted, no row has the identity.
pub proof fn lemma_count_zero(rows: Seq<Seq<ValueView>>, at: int, id: ValueView)
    requires
        count_of(rows, at, id) == 0,
    ensures
        forall|i: int| 0 <= i < rows.len() ==> (#[trigger] rows[i])[at] != id,
    decreases rows.len(),
{
    if rows.len() > 0 {
        lemma_count_zero(rows.drop_last(), at, id);
        assert forall|i: int| 0 <= i < rows.len() implies (#[trigger] rows[i])[at] != id by {
            if i < rows.len() - 1 {
                assert(rows.drop_last()[i] == rows[i]);
            }
        }
    }
}

/// An update changes no row's identity, so it keeps every count.
pub proof fn lemma_update_keeps_count(
    rows: Seq<Seq<ValueView>>,
    at: int,
    record: Seq<ValueView>,
    id: ValueView,
)
    ensures
        count_of(written(rows, at, record, Written::Updated), at, id) == count_of(rows, at, id),
    decreases rows.len(),
{
    let after = written(rows, at, record, Written::Updated);
    if rows.len() > 0 {
        lemma_update_keeps_count(rows.drop_last(), at, record, id);
        assert(after.drop_last() =~= written(rows.drop_last(), at, record, Written::Updated));
    }
}

/// Two records of one identity, upserted one after the other into a table
/// that holds at most one row of that identity, leave exactly one row of
/// it: the second upsert is an update, and the row then is the second
/// record.
pub proof fn lemma_upsert_same_identity(
    rows: Seq<Seq<ValueView>>,
    at: int,
    first: Seq<ValueView>,
    second: Seq<ValueView>,
)
    requires
        first[at] == second[at],
        count_of(rows, at, first[at]) <= 1,
    ensures
        count_of(upserted(rows, at, first), at, first[at]) == 1,
        planned(count_of(upserted(rows, at, first), at, second[at])) == Written::Updated,
        count_of(upserted(upserted(rows, at, first), at, second), at, first[at]) == 1,
        forall|i: int|
            0 <= i < upserted(upserted(rows, at, first), at, second).len() && (
            #[trigger] upserted(upserted(rows, at, first), at, second)[i])[at] == second[at]
                ==> upserted(upserted(rows, at, first), at, second)[i] == second,
{
    let id = first[at];
    let once = upserted(rows, at, first);
    if count_of(rows, at, id) == 0 {
        assert(once.drop_last() =~= rows);
    } else {
        lemma_update_keeps_count(rows, at, first, id);
    }
    lemma_update_keeps_count(once, at, second, id);
}

/// Upserting one record twice is the same as upserting it once: the second
/// upsert is an update that changes nothing, and the table holds exactly
/// one row of the record's identity.
pub proof fn lemma_upsert_twice(rows: Seq<Seq<ValueView>>, at: int, record: Seq<ValueView>)
    requires
        count_of(rows, at, record[at]) <= 1,
    ensures
        planned(count_of(upserted(rows, at, record), at, record[at])) == Written::Updated,
        upserted(upserted(rows, at, record), at, record) == upserted(rows, at, record),
        count_of(upserted(rows, at, record), at, record[at]) == 1,
{
    let once = upserted(rows, at, record);
    let twice = upserted(once, at, record);
    lemma_upsert_same_identity(rows, at, record, record);
    if count_of(rows, at, record[at]) == 0 {
        lemma_count_zero(rows, at, record[at]);
    }
    assert forall|i: int| 0 <= i < once.len() implies twice[i] == once[i] by {}
}

/// Two records of different identities, upserted one after the other into a
/// table that holds a row of neither, leave a row for each: both upserts are
/// insertions, the rows that were there stay as they were, the first record
/// stands behind them unchanged and the second behind the first.
pub proof fn lemma_upsert_other_identity(
    rows: Seq<Seq<ValueView>>,
    at: int,
    first: Seq<ValueView>,
    second: Seq<ValueView>,
)
    requires
        first[at] != second[at],
        count_of(rows, at, first[at]) == 0,
        count_of(rows, at, second[at]) == 0,
    ensures
        planned(count_of(rows, at, first[at])) == Written::Inserted,
        planned(count_of(upserted(rows, at, first), at, second[at])) == Written::Inserted,
        upserted(upserted(rows, at, first), at, second) == rows.push(first).push(second),
        count_of(upserted(upserted(rows, at, first), at, second), at, first[at]) == 1,
        count_of(upserted(upserted(rows, at, first), at, second), at, second[at]) == 1,
{
    let once = rows.push(first);
    let twice = once.push(second);
    assert(once.drop_last() =~= rows);
    assert(twice.drop_last() =~= once);
    assert(count_of(once, at, first[at]) == 1);
    assert(count_of(once, at, second[at]) == 0);
    assert(count_of(twice, at, first[at]) == 1);
    assert(count_of(twice, at, second[at]) == 1);
}

} // verus!
