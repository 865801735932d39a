//! The raw row: what a query hands back for one stored record, as text by
//! column name.

use crate::text::str_equal;
use vstd::prelude::*;

verus! {

/// The map that a list of bindings stands for, a later binding of a name
/// taking the place of an earlier one.
pub open spec fn row_map(entries: Seq<(Seq<char>, Seq<char>)>) -> Map<Seq<char>, Seq<char>>
    decreases entries.len(),
{
    if entries.len() == 0 {
        Map::empty()
    } else {
        row_map(entries.drop_last()).insert(entries.last().0, entries.last().1)
    }
}

/// Whether no name is bound twice.
pub open spec fn distinct_names(entries: Seq<(Seq<char>, Seq<char>)>) -> bool {
    forall|i: int, j: int|
        0 <= i < j < entries.len() ==> (#[trigger] entries[i]).0 != (#[trigger] entries[j]).0
}

/// The bindings of a vector of pairs of strings.
pub open spec fn bindings(entries: Seq<(String, String)>) -> Seq<(Seq<char>, Seq<char>)> {
    Seq::new(entries.len(), |i: int| (entries[i].0@, entries[i].1@))
}

/// Where no name is bound twice in a list, none is in the list without its
/// last binding.
pub proof fn lemma_distinct_front(entries: Seq<(Seq<char>, Seq<char>)>)
    requires
        distinct_names(entries),
        entries.len() > 0,
    ensures
        distinct_names(entries.drop_last()),
{
    let front = entries.drop_last();
    assert forall|a: int, b: int| 0 <= a < b < front.len() implies (#[trigger] front[a]).0 != (
    #[trigger] front[b]).0 by {
        assert(front[a] == entries[a] && front[b] == entries[b]);
    }
}

/// The names bound by a list are the keys of its map, and where no name is
/// bound twice each binding's text is the map's value.
pub proof fn lemma_row_map_lookup(entries: Seq<(Seq<char>, Seq<char>)>, name: Seq<char>)
    ensures
        row_map(entries).contains_key(name) <==> exists|i: int|
            0 <= i < entries.len() && (#[trigger] entries[i]).0 == name,
        distinct_names(entries) ==> forall|i: int|
            0 <= i < entries.len() && (#[trigger] entries[i]).0 == name ==> row_map(
                entries,
            )[name] == entries[i].1,
    decreases entries.len(),
{
    if entries.len() > 0 {
        let front = entries.drop_last();
        lemma_row_map_lookup(front, name);
        if row_map(front).contains_key(name) {
            let i = choose|i: int| 0 <= i < front.len() && (#[trigger] front[i]).0 == name;
            assert(entries[i].0 == name);
        }
        if exists|i: int| 0 <= i < entries.len() && (#[trigger] entries[i]).0 == name {
            let i = choose|i: int| 0 <= i < entries.len() && (#[trigger] entries[i]).0 == name;
            if i < front.len() {
                assert(front[i].0 == name);
            }
        }
        if distinct_names(entries) {
            lemma_distinct_front(entries);
            assert forall|i: int|
                0 <= i < entries.len() && (#[trigger] entries[i]).0 == name implies row_map(
                entries,
            )[name] == entries[i].1 by {
                if i < front.len() {
                    assert(front[i] == entries[i]);
                }
            }
        }
    }
}

/// Binding a name anew in a list that binds it once already, in place,
/// changes the map as an insertion does.
pub proof fn lemma_row_map_update(
    entries: Seq<(Seq<char>, Seq<char>)>,
    at: int,
    text: Seq<char>,
)
    requires
        distinct_names(entries),
        0 <= at < entries.len(),
    ensures
        row_map(entries.update(at, (entries[at].0, text))) == row_map(entries).insert(
            entries[at].0,
            text,
        ),
    decreases entries.len(),
{
    let name = entries[at].0;
    let after = entries.update(at, (name, text));
    let front = entries.drop_last();
    if at == entries.len() - 1 {
        assert(after.drop_last() =~= front);
    } else {
        lemma_distinct_front(entries);
        lemma_row_map_update(front, at, text);
        assert(after.drop_last() =~= front.update(at, (name, text)));
    }
}

/// One row of a query's result: the text of each column that could be read
/// as text, by the column's name. No name occurs twice.
#[derive(Debug)]
pub struct RawRow {
    entries: Vec<(String, String)>,
}

impl View for RawRow {
    type V = Map<Seq<char>, Seq<char>>;

    closed spec fn view(&self) -> Map<Seq<char>, Seq<char>> {
        row_map(bindings(self.entries@))
    }
}

impl RawRow {
    #[verifier::type_invariant]
    spec fn inv(self) -> bool {
        distinct_names(bindings(self.entries@))
    }

    /// A row without columns.
    pub fn new() -> (r: RawRow)
        ensures
            r@ == Map::<Seq<char>, Seq<char>>::empty(),
    {
        RawRow { entries: Vec::new() }
    }

    fn position(&self, name: &str) -> (r: Option<usize>)
        ensures
            match r {
                Some(i) => i < self.entries@.len() && self.entries@[i as int].0@ == name@,
                None => forall|j: int|
                    0 <= j < self.entries@.len() ==> (#[trigger] self.entries@[j]).0@ != name@,
            },
    {
        let n: usize = self.entries.len();
        let mut i: usize = 0;
        while i < n
            invariant
                n == self.entries@.len(),
                i <= n,
                forall|j: int| 0 <= j < i ==> (#[trigger] self.entries@[j]).0@ != name@,
            decreases n - i,
        {
            if str_equal(self.entries[i].0.as_str(), name) {
                return Some(i);
            }
            i += 1;
        }
        None
    }

    /// The text of the column `name`, if the row has that column.
    pub fn get(&self, name: &str) -> (r: Option<&String>)
        ensures
            match r {
                Some(text) => self@.contains_key(name@) && self@[name@] == text@,
                None => !self@.contains_key(name@),
            },
    {
        proof {
            use_type_invariant(self);
            lemma_row_map_lookup(bindings(self.entries@), name@);
        }
        match self.position(name) {
            Some(i) => {
                proof {
                    assert(bindings(self.entries@)[i as int].0 == name@);
                }
                Some(&self.entries[i].1)
            },
            None => {
                proof {
                    assert forall|j: int| 0 <= j < self.entries@.len() implies (
                    #[trigger] bindings(self.entries@)[j]).0 != name@ by {}
                }
                None
            },
        }
    }

    /// The columns of the row, each with its name and its text, in the
    /// order in which the row gained them.
    pub fn entries(&self) -> (r: &Vec<(String, String)>)
        ensures
            row_map(bindings(r@)) == self@,
            distinct_names(bindings(r@)),
    {
        proof {
            use_type_invariant(self);
        }
        &self.entries
    }

    /// Whether the row has the column `name`.
    pub fn contains(&self, name: &str) -> (r: bool)
        ensures
            r == self@.contains_key(name@),
    {
        self.get(name).is_some()
    }

    /// Sets the text of the column `name`, which the row gains if it lacks it.
    pub fn insert(&mut self, name: String, text: String)
        ensures
            final(self)@ == old(self)@.insert(name@, text@),
    {
        proof {
            use_type_invariant(&*self);
        }
        let ghost before = bindings(self.entries@);
        let found = self.position(name.as_str());
        let mut taken = RawRow::new();
        std::mem::swap(self, &mut taken);
        let RawRow { mut entries } = taken;
        match found {
            Some(i) => {
                proof {
                    lemma_row_map_update(before, i as int, text@);
                }
                entries.set(i, (name, text));
                proof {
                    let after = bindings(entries@);
                    assert(after =~= before.update(i as int, (name@, text@)));
                    assert forall|a: int, b: int| 0 <= a < b < after.len() implies (
                    #[trigger] after[a]).0 != (#[trigger] after[b]).0 by {}
                }
            },
            None => {
                entries.push((name, text));
                proof {
                    let after = bindings(entries@);
                    assert(after.drop_last() =~= before);
                    assert forall|a: int, b: int| 0 <= a < b < after.len() implies (
                    #[trigger] after[a]).0 != (#[trigger] after[b]).0 by {
                        if b < before.len() {
                            assert(after[a] == before[a] && after[b] == before[b]);
                        }
                    }
                }
            },
        }
        *self = RawRow { entries };
    }
}

/// The views of a vector of rows.
pub open spec fn row_views(rows: Seq<RawRow>) -> Seq<Map<Seq<char>, Seq<char>>> {
    Seq::new(rows.len(), |i: int| rows[i]@)
}

/// The columns that a row gains from a list of cells: each cell that holds
/// text sets the column of its name, and a cell that holds none sets nothing.
pub open spec fn row_of(cells: Seq<(Seq<char>, Option<Seq<char>>)>) -> Map<Seq<char>, Seq<char>>
    decreases cells.len(),
{
    if cells.len() == 0 {
        Map::empty()
    } else {
        match cells.last().1 {
            Some(text) => row_of(cells.drop_last()).insert(cells.last().0, text),
            None => row_of(cells.drop_last()),
        }
    }
}

/// The views of a vector of cells.
pub open spec fn cell_views(cells: Seq<(String, Option<String>)>) -> Seq<
    (Seq<char>, Option<Seq<char>>),
> {
    Seq::new(
        cells.len(),
        |i: int|
            (
                cells[i].0@,
                match cells[i].1 {
                    Some(text) => Some(text@),
                    None => None,
                },
            ),
    )
}

impl RawRow {
    /// The row made of the cells of one result row, given as each column's
    /// name and its text. A column without text, one that could not be read
    /// as text, is left out of the row.
    pub fn from_cells(cells: &Vec<(String, Option<String>)>) -> (r: RawRow)
        ensures
            r@ == row_of(cell_views(cells@)),
    {
        let ghost all = cell_views(cells@);
        let mut row = RawRow::new();
        let n: usize = cells.len();
        let mut i: usize = 0;
        while i < n
            invariant
                n == cells@.len(),
                i <= n,
                all == cell_views(cells@),
                row@ == row_of(all.take(i as int)),
            decreases n - i,
        {
            proof {
                assert(all.take(i + 1).drop_last() =~= all.take(i as int));
            }
            match &cells[i].1 {
                Some(text) => {
                    row.insert(cells[i].0.clone(), text.clone());
                },
                None => {},
            }
            i += 1;
        }
        proof {
            assert(all.take(n as int) =~= all);
        }
        row
    }
}

/// The columns of a row that is made of cells are the names of the cells
/// that hold a text: a row has no column that is not the name of a cell, and
/// lacks the name of a cell exactly where no cell of that name holds a text.
pub proof fn lemma_row_of_columns(cells: Seq<(Seq<char>, Option<Seq<char>>)>, name: Seq<char>)
    ensures
        row_of(cells).contains_key(name) <==> exists|i: int|
            0 <= i < cells.len() && (#[trigger] cells[i]).0 == name && cells[i].1 is Some,
    decreases cells.len(),
{
    if cells.len() > 0 {
        let front = cells.drop_last();
        lemma_row_of_columns(front, name);
        if exists|i: int| 0 <= i < front.len() && (#[trigger] front[i]).0 == name && front[i].1 is Some {
            let i = choose|i: int|
                0 <= i < front.len() && (#[trigger] front[i]).0 == name && front[i].1 is Some;
            assert(cells[i].0 == name && cells[i].1 is Some);
        }
        if exists|i: int| 0 <= i < cells.len() && (#[trigger] cells[i]).0 == name && cells[i].1 is Some {
            let i = choose|i: int|
                0 <= i < cells.len() && (#[trigger] cells[i]).0 == name && cells[i].1 is Some;
            if i < front.len() {
                assert(front[i].0 == name && front[i].1 is Some);
            }
        }
    }
}

/// Where no two cells have the same name, a row that is made of them holds
/// the text of each cell that has one, under the cell's name.
pub proof fn lemma_row_of_texts(cells: Seq<(Seq<char>, Option<Seq<char>>)>, at: int)
    requires
        0 <= at < cells.len(),
        forall|i: int, j: int|
            0 <= i < j < cells.len() ==> (#[trigger] cells[i]).0 != (#[trigger] cells[j]).0,
    ensures
        cells[at].1 matches Some(text) ==> row_of(cells).contains_key(cells[at].0) && row_of(
            cells,
        )[cells[at].0] == text,
        cells[at].1 is None ==> !row_of(cells).contains_key(cells[at].0),
    decreases cells.len(),
{
    let front = cells.drop_last();
    lemma_row_of_columns(cells, cells[at].0);
    if at < cells.len() - 1 {
        assert forall|i: int, j: int| 0 <= i < j < front.len() implies (#[trigger] front[i]).0 != (
        #[trigger] front[j]).0 by {
            assert(front[i] == cells[i] && front[j] == cells[j]);
        }
        assert(front[at] == cells[at]);
        lemma_row_of_texts(front, at);
        assert(cells[at].0 != cells[cells.len() - 1].0);
    }
    if cells[at].1 is None && row_of(cells).contains_key(cells[at].0) {
        let i = choose|i: int|
            0 <= i < cells.len() && (#[trigger] cells[i]).0 == cells[at].0 && cells[i].1 is Some;
        if i < at {
            assert(cells[i].0 != cells[at].0);
        } else if at < i {
            assert(cells[at].0 != cells[i].0);
        }
    }
}

} // verus!
