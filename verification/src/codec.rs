//! The value codec: typed values written as literals of a statement, and the
//! text of a stored row read back as typed values.
//!
//! The two directions are not symmetric for the text `NULL`: an optional
//! text whose value is exactly these four characters is written as a quoted
//! literal like any other text, and read back as absent.

use crate::decimal::{
    format_signed, format_unsigned, int_text, lemma_decimal_digits, lemma_int_text_parses,
    parse_magnitude, parsed_within,
};
use crate::row::RawRow;
use crate::schema::{identity_index, BaseType, Descriptor, FieldView, SemanticType};
use crate::text::{clean_string, cleaned, str_equal};
use vstd::prelude::*;
use vstd::string::StringExecFns;

verus! {

/// The value of one field of a record.
#[derive(Clone, Debug)]
pub enum Value {
    Signed(i128),
    Unsigned(u128),
    Text(String),
    /// The value of an optional field that holds nothing.
    Absent,
}

/// What a value is in contracts.
pub ghost enum ValueView {
    Signed(int),
    Unsigned(int),
    Text(Seq<char>),
    Absent,
}

impl View for Value {
    type V = ValueView;

    open spec fn view(&self) -> ValueView {
        match self {
            Value::Signed(i) => ValueView::Signed(*i as int),
            Value::Unsigned(u) => ValueView::Unsigned(*u as int),
            Value::Text(t) => ValueView::Text(t@),
            Value::Absent => ValueView::Absent,
        }
    }
}

/// Why the text of one column cannot be read as a value.
#[derive(Clone, Copy, Debug, PartialEq, Eq, Structural)]
pub enum CellFault {
    /// The row has no such column, and the field is not optional.
    Missing,
    /// The text does not denote a value of the field's type.
    Malformed,
}

/// Whether a value is one that a field of type `ty` can hold.
pub open spec fn fits(ty: SemanticType, v: ValueView) -> bool {
    match v {
        ValueView::Signed(i) => ty.base() matches BaseType::SignedInt(w) && w.signed_low() <= i
            <= w.signed_high(),
        ValueView::Unsigned(u) => ty.base() matches BaseType::UnsignedInt(w) && 0 <= u
            <= w.unsigned_high(),
        ValueView::Text(_) => ty.base() is Text,
        ValueView::Absent => ty is Optional,
    }
}

/// The text that a stored row holds for a value: an integer in decimal, a
/// text as it is, and `NULL` for an absent value.
pub open spec fn text_of(v: ValueView) -> Seq<char> {
    match v {
        ValueView::Signed(i) => int_text(i),
        ValueView::Unsigned(u) => int_text(u),
        ValueView::Text(t) => t,
        ValueView::Absent => "NULL"@,
    }
}

/// Text between double quotes, cleaned so that it can stand there.
pub open spec fn quoted(t: Seq<char>) -> Seq<char> {
    seq!['"'] + cleaned(t) + seq!['"']
}

/// The literal that stands for a value in a statement: an integer in
/// decimal without quotes, a text cleaned and between double quotes, and the
/// bare word `NULL` for an absent value.
pub open spec fn literal_of(v: ValueView) -> Seq<char> {
    match v {
        ValueView::Text(t) => quoted(t),
        _ => text_of(v),
    }
}

/// The value of base type `base` that `text` denotes, if it denotes one:
/// any text is a text, and an integer is read in decimal and must lie
/// within its type's range.
pub open spec fn decoded_base(base: BaseType, text: Seq<char>) -> Option<ValueView> {
    match base {
        BaseType::Text => Some(ValueView::Text(text)),
        BaseType::SignedInt(w) => match parsed_within(
            text,
            true,
            w.signed_low(),
            w.signed_high(),
        ) {
            Some(i) => Some(ValueView::Signed(i)),
            None => None,
        },
        BaseType::UnsignedInt(w) => match parsed_within(text, false, 0, w.unsigned_high()) {
            Some(u) => Some(ValueView::Unsigned(u)),
            None => None,
        },
    }
}

/// The value of type `ty` that a column holds, where `cell` is the column's
/// text or nothing if the row has no such column. An optional field is absent
/// if the column is missing or its text is exactly `NULL`; a required field
/// needs its column.
pub open spec fn decoded_cell(ty: SemanticType, cell: Option<Seq<char>>) -> Result<
    ValueView,
    CellFault,
> {
    match (ty, cell) {
        (SemanticType::Required(_), None) => Err(CellFault::Missing),
        (SemanticType::Optional(_), None) => Ok(ValueView::Absent),
        (_, Some(text)) => if ty is Optional && text == "NULL"@ {
            Ok(ValueView::Absent)
        } else {
            match decoded_base(ty.base(), text) {
                Some(v) => Ok(v),
                None => Err(CellFault::Malformed),
            }
        },
    }
}

/// The characters of a column's text, where there is one.
pub open spec fn cell_view(cell: Option<&str>) -> Option<Seq<char>> {
    match cell {
        Some(text) => Some(text@),
        None => None,
    }
}

impl Value {
    /// Whether this is a value that a field of type `ty` can hold.
    pub fn fits(&self, ty: SemanticType) -> (r: bool)
        ensures
            r == fits(ty, self@),
    {
        let (optional, base) = match ty {
            SemanticType::Required(b) => (false, b),
            SemanticType::Optional(b) => (true, b),
        };
        match self {
            Value::Signed(i) => match base {
                BaseType::SignedInt(w) => {
                    if *i < 0 {
                        let magnitude: u128 = if *i == i128::MIN {
                            0x8000_0000_0000_0000_0000_0000_0000_0000u128
                        } else {
                            (-*i) as u128
                        };
                        magnitude <= w.low_magnitude()
                    } else {
                        *i as u128 <= w.high_signed()
                    }
                },
                _ => false,
            },
            Value::Unsigned(u) => match base {
                BaseType::UnsignedInt(w) => *u <= w.high_unsigned(),
                _ => false,
            },
            Value::Text(_) => match base {
                BaseType::Text => true,
                _ => false,
            },
            Value::Absent => optional,
        }
    }

    /// The literal that stands for this value in a statement.
    pub fn encode(&self) -> (r: String)
        ensures
            r@ == literal_of(self@),
    {
        match self {
            Value::Signed(i) => format_signed(*i),
            Value::Unsigned(u) => format_unsigned(*u),
            Value::Text(t) => {
                let mut out = String::new();
                out.push('"');
                out.append(clean_string(t.as_str()).as_str());
                out.push('"');
                out
            },
            Value::Absent => String::from_str("NULL"),
        }
    }
}

/// Reads `text` as a value of base type `base`.
pub fn decode_base(base: BaseType, text: &str) -> (r: Option<Value>)
    ensures
        match r {
            Some(v) => decoded_base(base, text@) == Some(v@),
            None => decoded_base(base, text@) is None,
        },
{
    match base {
        BaseType::Text => Some(Value::Text(String::from_str(text))),
        BaseType::SignedInt(w) => {
            match parse_magnitude(text, true, w.low_magnitude(), w.high_signed()) {
                None => None,
                Some((negative, m)) => {
                    if !negative {
                        Some(Value::Signed(m as i128))
                    } else if m == 0x8000_0000_0000_0000_0000_0000_0000_0000u128 {
                        Some(Value::Signed(i128::MIN))
                    } else {
                        Some(Value::Signed(-(m as i128)))
                    }
                },
            }
        },
        BaseType::UnsignedInt(w) => {
            match parse_magnitude(text, false, 0, w.high_unsigned()) {
                None => None,
                Some((_, m)) => Some(Value::Unsigned(m)),
            }
        },
    }
}

/// Reads the text of a column as a value of type `ty`; `cell` is nothing
/// where the row has no such column.
pub fn decode_cell(ty: SemanticType, cell: Option<&str>) -> (r: Result<Value, CellFault>)
    ensures
        match r {
            Ok(v) => decoded_cell(ty, cell_view(cell)) == Ok::<ValueView, CellFault>(v@),
            Err(e) => decoded_cell(ty, cell_view(cell)) == Err::<ValueView, CellFault>(e),
        },
{
    match cell {
        None => match ty {
            SemanticType::Required(_) => Err(CellFault::Missing),
            SemanticType::Optional(_) => Ok(Value::Absent),
        },
        Some(text) => {
            let (optional, base) = match ty {
                SemanticType::Required(b) => (false, b),
                SemanticType::Optional(b) => (true, b),
            };
            if optional && str_equal(text, "NULL") {
                Ok(Value::Absent)
            } else {
                match decode_base(base, text) {
                    Some(v) => Ok(v),
                    None => Err(CellFault::Malformed),
                }
            }
        },
    }
}

/// Reading back the text that a row holds for a value gives the value, with
/// one exception: an optional text that is exactly `NULL` reads as absent.
pub proof fn lemma_decode_text_of(ty: SemanticType, v: ValueView)
    requires
        fits(ty, v),
    ensures
        decoded_cell(ty, Some(text_of(v))) == if ty == SemanticType::Optional(BaseType::Text) && v
            == ValueView::Text("NULL"@) {
            Ok::<ValueView, CellFault>(ValueView::Absent)
        } else {
            Ok::<ValueView, CellFault>(v)
        },
{
    reveal_strlit("NULL");
    match v {
        ValueView::Signed(i) => {
            lemma_int_text_parses(i, true);
            lemma_decimal_digits((if i < 0 { -i } else { i }) as nat);
        },
        ValueView::Unsigned(u) => {
            lemma_int_text_parses(u, false);
            lemma_decimal_digits(u as nat);
        },
        ValueView::Text(t) => {},
        ValueView::Absent => {},
    }
}

/// The text that a store keeps of a literal: none of the bare word `NULL`,
/// the inside of a literal between double quotes, and a bare literal as it
/// is. This reads a quoted literal whose inside holds no quote.
pub open spec fn kept(literal: Seq<char>) -> Option<Seq<char>> {
    if literal == "NULL"@ {
        None
    } else if literal.len() >= 2 && literal.first() == '"' && literal.last() == '"' {
        Some(literal.subrange(1, literal.len() - 1))
    } else {
        Some(literal)
    }
}

/// Decoding what is kept of a value's literal gives the value back, for
/// every value that cleaning leaves as it is: every number, the absent
/// value, and a text without control characters and quotes. The one
/// exception is an optional text that is exactly `NULL`, which comes back
/// absent.
pub proof fn lemma_decode_literal(ty: SemanticType, v: ValueView)
    requires
        fits(ty, v),
        v matches ValueView::Text(t) ==> cleaned(t) == t,
    ensures
        decoded_cell(ty, kept(literal_of(v))) == if ty == SemanticType::Optional(BaseType::Text)
            && v == ValueView::Text("NULL"@) {
            Ok::<ValueView, CellFault>(ValueView::Absent)
        } else {
            Ok::<ValueView, CellFault>(v)
        },
{
    reveal_strlit("NULL");
    lemma_decode_text_of(ty, v);
    match v {
        ValueView::Signed(i) => {
            lemma_decimal_digits((if i < 0 { -i } else { i }) as nat);
        },
        ValueView::Unsigned(u) => {
            lemma_decimal_digits(u as nat);
        },
        ValueView::Text(t) => {
            let literal = literal_of(v);
            assert(literal.subrange(1, literal.len() - 1) =~= t);
        },
        ValueView::Absent => {},
    }
}

/// A value read from a column is one that the field's type can hold.
pub proof fn lemma_decoded_fits(ty: SemanticType, cell: Option<Seq<char>>)
    ensures
        decoded_cell(ty, cell) matches Ok(v) ==> fits(ty, v),
{
}

/// A typed record: one value for each field of its record type, in the
/// fields' order.
#[derive(Clone, Debug)]
pub struct Record {
    pub values: Vec<Value>,
}

/// The views of a vector of values.
pub open spec fn value_views(values: Seq<Value>) -> Seq<ValueView> {
    Seq::new(values.len(), |i: int| values[i]@)
}

impl View for Record {
    type V = Seq<ValueView>;

    open spec fn view(&self) -> Seq<ValueView> {
        value_views(self.values@)
    }
}

/// Whether `values` holds one value for each of `fields`, each of them one
/// that its field can hold.
pub open spec fn record_fits(fields: Seq<FieldView>, values: Seq<ValueView>) -> bool {
    &&& values.len() == fields.len()
    &&& forall|i: int| 0 <= i < fields.len() ==> fits(fields[i].ty, #[trigger] values[i])
}

/// The literal of each value, in order.
pub open spec fn literals(values: Seq<ValueView>) -> Seq<Seq<char>> {
    Seq::new(values.len(), |i: int| literal_of(values[i]))
}

/// Why a row cannot be read as a record: the first field, in the record
/// type's order, whose column is missing or malformed.
#[derive(Clone, Copy, Debug, PartialEq, Eq, Structural)]
pub enum DecodeError {
    /// The row lacks the column of the required field at this position.
    MissingColumn { field: usize },
    /// The column of the field at this position does not hold a value of
    /// the field's type.
    ParseError { field: usize },
}

impl DecodeError {
    /// The position of the field that could not be read.
    pub open spec fn position(self) -> int {
        match self {
            DecodeError::MissingColumn { field } => field as int,
            DecodeError::ParseError { field } => field as int,
        }
    }

    /// What is wrong with that field's column.
    pub open spec fn fault(self) -> CellFault {
        match self {
            DecodeError::MissingColumn { .. } => CellFault::Missing,
            DecodeError::ParseError { .. } => CellFault::Malformed,
        }
    }
}

/// The text that a row holds in the column `name`, if it has that column.
pub open spec fn cell_of(row: Map<Seq<char>, Seq<char>>, name: Seq<char>) -> Option<Seq<char>> {
    if row.contains_key(name) {
        Some(row[name])
    } else {
        None
    }
}

/// What reading the field at position `i` from a row gives.
pub open spec fn field_result(
    fields: Seq<FieldView>,
    row: Map<Seq<char>, Seq<char>>,
    i: int,
) -> Result<ValueView, CellFault> {
    decoded_cell(fields[i].ty, cell_of(row, fields[i].name))
}

/// Whether every field can be read from a row.
pub open spec fn decodable(fields: Seq<FieldView>, row: Map<Seq<char>, Seq<char>>) -> bool {
    forall|i: int| 0 <= i < fields.len() ==> (#[trigger] field_result(fields, row, i)) is Ok
}

/// The values that reading every field from a row gives, where every field
/// can be read.
pub open spec fn decoded(fields: Seq<FieldView>, row: Map<Seq<char>, Seq<char>>) -> Seq<
    ValueView,
> {
    Seq::new(
        fields.len(),
        |i: int|
            match field_result(fields, row, i) {
                Ok(v) => v,
                Err(_) => ValueView::Absent,
            },
    )
}

/// Whether the field at position `at` is the first that cannot be read from
/// a row, and `fault` is what is wrong with its column.
pub open spec fn fails_at(
    fields: Seq<FieldView>,
    row: Map<Seq<char>, Seq<char>>,
    at: int,
    fault: CellFault,
) -> bool {
    &&& 0 <= at < fields.len()
    &&& field_result(fields, row, at) == Err::<ValueView, CellFault>(fault)
    &&& forall|j: int| 0 <= j < at ==> (#[trigger] field_result(fields, row, j)) is Ok
}

/// The text of the identity of a record, where its value at `at` is a text.
pub open spec fn identity_of(values: Seq<ValueView>, at: int) -> Seq<char> {
    match values[at] {
        ValueView::Text(t) => t,
        _ => Seq::empty(),
    }
}

impl Record {
    /// Whether this record holds one value for each field of `descriptor`,
    /// each of them one that its field can hold.
    pub fn fits(&self, descriptor: &Descriptor) -> (r: bool)
        ensures
            r == record_fits(descriptor@, self@),
    {
        let n: usize = descriptor.len();
        if self.values.len() != n {
            return false;
        }
        let mut i: usize = 0;
        while i < n
            invariant
                n == descriptor@.len(),
                n == self.values@.len(),
                i <= n,
                forall|j: int|
                    0 <= j < i ==> fits(descriptor@[j].ty, #[trigger] self@[j]),
            decreases n - i,
        {
            if !self.values[i].fits(descriptor.field(i).ty) {
                assert(!fits(descriptor@[i as int].ty, self@[i as int]));
                return false;
            }
            i += 1;
        }
        true
    }

    /// The identity of this record: the text of the field named `id`.
    pub fn id<'a>(&'a self, descriptor: &Descriptor) -> (r: &'a String)
        requires
            record_fits(descriptor@, self@),
        ensures
            self@[identity_index(descriptor@)] == ValueView::Text(r@),
            r@ == identity_of(self@, identity_index(descriptor@)),
    {
        let at: usize = descriptor.id_index();
        match &self.values[at] {
            Value::Text(t) => t,
            _ => vstd::pervasive::unreached(),
        }
    }

    /// The literal of the value of the field at position `field`.
    pub fn encode(&self, field: usize) -> (r: String)
        requires
            field < self@.len(),
        ensures
            r@ == literal_of(self@[field as int]),
    {
        self.values[field].encode()
    }

    /// The literal of each field's value, in the fields' order.
    pub fn value_list(&self) -> (r: Vec<String>)
        ensures
            crate::text::views(r@) == literals(self@),
    {
        let mut out: Vec<String> = Vec::new();
        let n: usize = self.values.len();
        let mut i: usize = 0;
        while i < n
            invariant
                n == self.values@.len(),
                i <= n,
                out@.len() == i,
                forall|j: int| 0 <= j < i ==> (#[trigger] out@[j])@ == literal_of(self@[j]),
            decreases n - i,
        {
            out.push(self.values[i].encode());
            i += 1;
        }
        out
    }

    /// Reads a row as a record of the type that `descriptor` describes. Each
    /// field is read from the column of its name; the first field that
    /// cannot be read fails the whole record.
    pub fn decode(row: &RawRow, descriptor: &Descriptor) -> (r: Result<Record, DecodeError>)
        ensures
            match r {
                Ok(record) => {
                    &&& decodable(descriptor@, row@)
                    &&& record@ == decoded(descriptor@, row@)
                    &&& record_fits(descriptor@, record@)
                },
                Err(e) => !decodable(descriptor@, row@) && fails_at(
                    descriptor@,
                    row@,
                    e.position(),
                    e.fault(),
                ),
            },
    {
        let mut values: Vec<Value> = Vec::new();
        let n: usize = descriptor.len();
        let mut i: usize = 0;
        while i < n
            invariant
                n == descriptor@.len(),
                i <= n,
                values@.len() == i,
                forall|j: int|
                    0 <= j < i ==> #[trigger] field_result(descriptor@, row@, j) == Ok::<
                        ValueView,
                        CellFault,
                    >(values@[j]@),
            decreases n - i,
        {
            let field = descriptor.field(i);
            let cell: Option<&str> = match row.get(field.name.as_str()) {
                Some(text) => Some(text.as_str()),
                None => None,
            };
            match decode_cell(field.ty, cell) {
                Ok(v) => {
                    values.push(v);
                },
                Err(fault) => {
                    assert(field_result(descriptor@, row@, i as int) is Err);
                    return Err(
                        match fault {
                            CellFault::Missing => DecodeError::MissingColumn { field: i },
                            CellFault::Malformed => DecodeError::ParseError { field: i },
                        },
                    );
                },
            }
            i += 1;
        }
        let record = Record { values };
        proof {
            assert forall|j: int| 0 <= j < n implies fits(
                descriptor@[j].ty,
                #[trigger] record@[j],
            ) by {
                assert(field_result(descriptor@, row@, j) == Ok::<ValueView, CellFault>(record@[j]));
                lemma_decoded_fits(descriptor@[j].ty, cell_of(row@, descriptor@[j].name));
            }
            assert(decodable(descriptor@, row@));
        }
        Ok(record)
    }
}

} // verus!
