//! Record descriptors and the table definitions derived from them.

use crate::text::{join, joined, str_equal, views};
use vstd::prelude::*;
use vstd::string::StringExecFns;

verus! {

/// The width of an integer field.
#[derive(Clone, Copy, Debug, PartialEq, Eq, Structural)]
pub enum IntWidth {
    W8,
    W16,
    W32,
    W64,
    W128,
}

/// What a field holds when it holds something.
#[derive(Clone, Copy, Debug, PartialEq, Eq, Structural)]
pub enum BaseType {
    SignedInt(IntWidth),
    UnsignedInt(IntWidth),
    Text,
}

/// The type of a field: a base type, which may be optional.
#[derive(Clone, Copy, Debug, PartialEq, Eq, Structural)]
pub enum SemanticType {
    Required(BaseType),
    Optional(BaseType),
}

/// Why a descriptor cannot be defined.
#[derive(Clone, Copy, Debug, PartialEq, Eq, Structural)]
pub enum SchemaError {
    /// A field's type is none of the supported ones.
    UnsupportedType,
    /// No field is named `id`.
    MissingIdentity,
    /// More than one field is named `id`.
    RepeatedIdentity,
    /// The field named `id` is not a required text.
    IdentityNotText,
}

impl IntWidth {
    /// The least value of a signed integer of this width.
    pub open spec fn signed_low(self) -> int {
        match self {
            IntWidth::W8 => -0x80,
            IntWidth::W16 => -0x8000,
            IntWidth::W32 => -0x8000_0000,
            IntWidth::W64 => -0x8000_0000_0000_0000,
            IntWidth::W128 => -0x8000_0000_0000_0000_0000_0000_0000_0000,
        }
    }

    /// The greatest value of a signed integer of this width.
    pub open spec fn signed_high(self) -> int {
        -self.signed_low() - 1
    }

    /// The greatest value of an unsigned integer of this width.
    pub open spec fn unsigned_high(self) -> int {
        -2 * self.signed_low() - 1
    }

    /// The magnitude of the least signed value of this width.
    pub fn low_magnitude(self) -> (r: u128)
        ensures
            r == -self.signed_low(),
    {
        match self {
            IntWidth::W8 => 0x80,
            IntWidth::W16 => 0x8000,
            IntWidth::W32 => 0x8000_0000,
            IntWidth::W64 => 0x8000_0000_0000_0000,
            IntWidth::W128 => 0x8000_0000_0000_0000_0000_0000_0000_0000,
        }
    }

    /// The greatest signed value of this width.
    pub fn high_signed(self) -> (r: u128)
        ensures
            r == self.signed_high(),
    {
        self.low_magnitude() - 1
    }

    /// The greatest unsigned value of this width.
    pub fn high_unsigned(self) -> (r: u128)
        ensures
            r == self.unsigned_high(),
    {
        match self {
            IntWidth::W8 => 0xff,
            IntWidth::W16 => 0xffff,
            IntWidth::W32 => 0xffff_ffff,
            IntWidth::W64 => 0xffff_ffff_ffff_ffff,
            IntWidth::W128 => 0xffff_ffff_ffff_ffff_ffff_ffff_ffff_ffff,
        }
    }
}

/// The base type that a type name stands for.
pub open spec fn named_base(name: Seq<char>) -> Option<BaseType> {
    if name == "i8"@ {
        Some(BaseType::SignedInt(IntWidth::W8))
    } else if name == "i16"@ {
        Some(BaseType::SignedInt(IntWidth::W16))
    } else if name == "i32"@ {
        Some(BaseType::SignedInt(IntWidth::W32))
    } else if name == "i64"@ {
        Some(BaseType::SignedInt(IntWidth::W64))
    } else if name == "i128"@ {
        Some(BaseType::SignedInt(IntWidth::W128))
    } else if name == "u8"@ {
        Some(BaseType::UnsignedInt(IntWidth::W8))
    } else if name == "u16"@ {
        Some(BaseType::UnsignedInt(IntWidth::W16))
    } else if name == "u32"@ {
        Some(BaseType::UnsignedInt(IntWidth::W32))
    } else if name == "u64"@ {
        Some(BaseType::UnsignedInt(IntWidth::W64))
    } else if name == "u128"@ {
        Some(BaseType::UnsignedInt(IntWidth::W128))
    } else if name == "String"@ {
        Some(BaseType::Text)
    } else {
        None
    }
}

/// Whether a type name has the shape `Option<..>`.
pub open spec fn is_option_name(name: Seq<char>) -> bool {
    name.len() >= 8 && name.subrange(0, 7) == "Option<"@ && name.last() == '>'
}

/// The type that a type name stands for: the name of a base type, or such a
/// name inside `Option<..>`. Any other name stands for no type.
pub open spec fn named_type(name: Seq<char>) -> Option<SemanticType> {
    if is_option_name(name) {
        match named_base(name.subrange(7, name.len() - 1)) {
            Some(base) => Some(SemanticType::Optional(base)),
            None => None,
        }
    } else {
        match named_base(name) {
            Some(base) => Some(SemanticType::Required(base)),
            None => None,
        }
    }
}

impl BaseType {
    /// The base type that `name` stands for, if any.
    pub fn from_type_name(name: &str) -> (r: Option<BaseType>)
        ensures
            r == named_base(name@),
    {
        if str_equal(name, "i8") {
            Some(BaseType::SignedInt(IntWidth::W8))
        } else if str_equal(name, "i16") {
            Some(BaseType::SignedInt(IntWidth::W16))
        } else if str_equal(name, "i32") {
            Some(BaseType::SignedInt(IntWidth::W32))
        } else if str_equal(name, "i64") {
            Some(BaseType::SignedInt(IntWidth::W64))
        } else if str_equal(name, "i128") {
            Some(BaseType::SignedInt(IntWidth::W128))
        } else if str_equal(name, "u8") {
            Some(BaseType::UnsignedInt(IntWidth::W8))
        } else if str_equal(name, "u16") {
            Some(BaseType::UnsignedInt(IntWidth::W16))
        } else if str_equal(name, "u32") {
            Some(BaseType::UnsignedInt(IntWidth::W32))
        } else if str_equal(name, "u64") {
            Some(BaseType::UnsignedInt(IntWidth::W64))
        } else if str_equal(name, "u128") {
            Some(BaseType::UnsignedInt(IntWidth::W128))
        } else if str_equal(name, "String") {
            Some(BaseType::Text)
        } else {
            None
        }
    }

    /// Whether this is an integer type.
    pub open spec fn is_integer(self) -> bool {
        !(self is Text)
    }
}

impl SemanticType {
    /// The type that `name` stands for, if it is a supported one.
    pub fn from_type_name(name: &str) -> (r: Option<SemanticType>)
        ensures
            r == named_type(name@),
    {
        let n: usize = name.unicode_len();
        if n >= 8 {
            let head = name.substring_char(0, 7);
            let last = name.get_char(n - 1);
            if str_equal(head, "Option<") && last == '>' {
                let inner = name.substring_char(7, n - 1);
                return match BaseType::from_type_name(inner) {
                    Some(base) => Some(SemanticType::Optional(base)),
                    None => None,
                };
            }
        }
        match BaseType::from_type_name(name) {
            Some(base) => Some(SemanticType::Required(base)),
            None => None,
        }
    }

    /// What the field holds when it holds something.
    pub open spec fn base(self) -> BaseType {
        match self {
            SemanticType::Required(b) => b,
            SemanticType::Optional(b) => b,
        }
    }

    /// The column type of a field of this type.
    pub open spec fn sql_type(self) -> Seq<char> {
        match self {
            SemanticType::Required(BaseType::Text) => "TEXT NON NULL"@,
            SemanticType::Required(_) => "INTEGER NON NULL"@,
            SemanticType::Optional(BaseType::Text) => "TEXT"@,
            SemanticType::Optional(_) => "INTEGER"@,
        }
    }

    /// The column type of a field of this type: `INTEGER` or `TEXT`, with
    /// `NON NULL` behind it unless the field is optional.
    pub fn to_sql_type(&self) -> (r: String)
        ensures
            r@ == self.sql_type(),
    {
        match self {
            SemanticType::Required(BaseType::Text) => String::from_str("TEXT NON NULL"),
            SemanticType::Required(_) => String::from_str("INTEGER NON NULL"),
            SemanticType::Optional(BaseType::Text) => String::from_str("TEXT"),
            SemanticType::Optional(_) => String::from_str("INTEGER"),
        }
    }
}

/// One field of a record type: its name and its type.
#[derive(Clone, Debug)]
pub struct Field {
    pub name: String,
    pub ty: SemanticType,
}

/// What a field is in contracts: the characters of its name, and its type.
pub ghost struct FieldView {
    pub name: Seq<char>,
    pub ty: SemanticType,
}

impl View for Field {
    type V = FieldView;

    open spec fn view(&self) -> FieldView {
        FieldView { name: self.name@, ty: self.ty }
    }
}

/// The views of a vector of fields.
pub open spec fn field_views(fields: Seq<Field>) -> Seq<FieldView> {
    Seq::new(fields.len(), |i: int| fields[i]@)
}

/// Whether a field name is that of the identity.
pub open spec fn is_identity(name: Seq<char>) -> bool {
    name == "id"@
}

/// Whether the field at `at` is named `id` and no other field is.
pub open spec fn identity_at(fields: Seq<FieldView>, at: int) -> bool {
    &&& 0 <= at < fields.len()
    &&& is_identity(fields[at].name)
    &&& forall|j: int| 0 <= j < fields.len() && j != at ==> !is_identity(#[trigger] fields[j].name)
}

/// The position of the one field named `id`.
pub open spec fn identity_index(fields: Seq<FieldView>) -> int {
    choose|at: int| identity_at(fields, at)
}

/// Whether no field is named `id`.
pub open spec fn lacks_identity(fields: Seq<FieldView>) -> bool {
    forall|i: int| 0 <= i < fields.len() ==> !is_identity(#[trigger] fields[i].name)
}

/// Whether two fields are named `id`.
pub open spec fn repeats_identity(fields: Seq<FieldView>) -> bool {
    exists|i: int, j: int|
        0 <= i < j < fields.len() && is_identity(#[trigger] fields[i].name) && is_identity(
            #[trigger] fields[j].name,
        )
}

/// What is wrong with a list of fields as a descriptor, if anything: a
/// descriptor has exactly one field named `id`, and it is a required text.
pub open spec fn defect(fields: Seq<FieldView>) -> Option<SchemaError> {
    if lacks_identity(fields) {
        Some(SchemaError::MissingIdentity)
    } else if repeats_identity(fields) {
        Some(SchemaError::RepeatedIdentity)
    } else if exists|at: int|
        identity_at(fields, at) && fields[at].ty != SemanticType::Required(BaseType::Text) {
        Some(SchemaError::IdentityNotText)
    } else {
        None
    }
}

/// Whether a list of fields makes a descriptor.
pub open spec fn well_formed(fields: Seq<FieldView>) -> bool {
    exists|at: int|
        identity_at(fields, at) && fields[at].ty == SemanticType::Required(BaseType::Text)
}

/// A list of fields without a defect is well formed, and the other way round.
pub proof fn lemma_defect_free(fields: Seq<FieldView>)
    ensures
        defect(fields) is None <==> well_formed(fields),
{
    if defect(fields) is None {
        let i = choose|i: int| 0 <= i < fields.len() && is_identity(#[trigger] fields[i].name);
        assert forall|j: int| 0 <= j < fields.len() && j != i implies !is_identity(
            #[trigger] fields[j].name,
        ) by {}
        assert(identity_at(fields, i));
    }
    if well_formed(fields) {
        let at = choose|at: int|
            identity_at(fields, at) && fields[at].ty == SemanticType::Required(BaseType::Text);
        assert forall|i: int, j: int| 0 <= i < j < fields.len() implies !(is_identity(
            #[trigger] fields[i].name,
        ) && is_identity(#[trigger] fields[j].name)) by {}
        assert forall|other: int| identity_at(fields, other) implies other == at by {}
    }
}

/// The ordered fields of a record type. Exactly one of them is named `id`;
/// it is a required text and serves as the primary key.
#[derive(Debug)]
pub struct Descriptor {
    fields: Vec<Field>,
    id_at: usize,
}

impl View for Descriptor {
    type V = Seq<FieldView>;

    closed spec fn view(&self) -> Seq<FieldView> {
        field_views(self.fields@)
    }
}

impl Descriptor {
    #[verifier::type_invariant]
    spec fn inv(self) -> bool {
        &&& identity_at(field_views(self.fields@), self.id_at as int)
        &&& self.fields@[self.id_at as int].ty == SemanticType::Required(BaseType::Text)
    }

    /// Defines a record type from its fields, in order. The definition fails
    /// unless exactly one field is named `id` and that field is a required
    /// text.
    pub fn new(fields: Vec<Field>) -> (r: Result<Descriptor, SchemaError>)
        ensures
            match r {
                Ok(d) => d@ == field_views(fields@) && well_formed(d@),
                Err(e) => defect(field_views(fields@)) == Some(e),
            },
    {
        let ghost all = field_views(fields@);
        let n: usize = fields.len();
        let mut found: Option<usize> = None;
        let mut i: usize = 0;
        while i < n
            invariant
                n == fields@.len(),
                i <= n,
                all == field_views(fields@),
                match found {
                    Some(at) => at < i && is_identity(all[at as int].name) && forall|j: int|
                        0 <= j < i && j != at ==> !is_identity(#[trigger] all[j].name),
                    None => forall|j: int| 0 <= j < i ==> !is_identity(#[trigger] all[j].name),
                },
            decreases n - i,
        {
            if str_equal(fields[i].name.as_str(), "id") {
                match found {
                    Some(at) => {
                        proof {
                            assert(is_identity(all[at as int].name) && is_identity(
                                all[i as int].name,
                            ));
                        }
                        return Err(SchemaError::RepeatedIdentity);
                    },
                    None => {
                        found = Some(i);
                    },
                }
            }
            i += 1;
        }
        match found {
            None => Err(SchemaError::MissingIdentity),
            Some(at) => {
                proof {
                    lemma_defect_free(all);
                    assert forall|other: int| identity_at(all, other) implies other == at by {}
                }
                match fields[at].ty {
                    SemanticType::Required(BaseType::Text) => Ok(Descriptor { fields, id_at: at }),
                    _ => Err(SchemaError::IdentityNotText),
                }
            },
        }
    }

    /// The number of fields.
    pub fn len(&self) -> (r: usize)
        ensures
            r == self@.len(),
    {
        self.fields.len()
    }

    /// The field at position `i`.
    pub fn field(&self, i: usize) -> (r: &Field)
        requires
            i < self@.len(),
        ensures
            r@ == self@[i as int],
    {
        &self.fields[i]
    }

    /// The position of the field named `id`.
    pub fn id_index(&self) -> (r: usize)
        ensures
            r == identity_index(self@),
            identity_at(self@, r as int),
            self@[r as int].ty == SemanticType::Required(BaseType::Text),
            well_formed(self@),
    {
        proof {
            use_type_invariant(self);
        }
        self.id_at
    }
}

/// The views of a vector of pairs of strings.
pub open spec fn pair_views(list: Seq<(String, String)>) -> Seq<(Seq<char>, Seq<char>)> {
    Seq::new(list.len(), |i: int| (list[i].0@, list[i].1@))
}

/// Whether every type name of a field list stands for a supported type.
pub open spec fn all_supported(list: Seq<(Seq<char>, Seq<char>)>) -> bool {
    forall|i: int| 0 <= i < list.len() ==> named_type(#[trigger] list[i].1) is Some
}

/// The fields that a list of names and type names declares.
pub open spec fn declared_fields(list: Seq<(Seq<char>, Seq<char>)>) -> Seq<FieldView> {
    Seq::new(
        list.len(),
        |i: int| FieldView { name: list[i].0, ty: named_type(list[i].1).unwrap() },
    )
}

/// The column type of a field: its type's, and the primary-key mark behind
/// it for the field named `id`, whatever that field's type.
pub open spec fn column_type(f: FieldView) -> Seq<char> {
    if is_identity(f.name) {
        f.ty.sql_type() + " PRIMARY KEY"@
    } else {
        f.ty.sql_type()
    }
}

/// The column of each field, in the fields' order: its name and column type.
pub open spec fn columns(fields: Seq<FieldView>) -> Seq<(Seq<char>, Seq<char>)> {
    Seq::new(fields.len(), |i: int| (fields[i].name, column_type(fields[i])))
}

/// The column of each field as it stands in a table definition: the name, a
/// space and the column type.
pub open spec fn column_clauses(fields: Seq<FieldView>) -> Seq<Seq<char>> {
    Seq::new(fields.len(), |i: int| fields[i].name + " "@ + column_type(fields[i]))
}

/// The statement that creates the table of a record type unless it exists.
pub open spec fn create_table_text(table: Seq<char>, fields: Seq<FieldView>) -> Seq<char> {
    "CREATE TABLE IF NOT EXISTS "@ + table + " ("@ + joined(column_clauses(fields), ","@) + ");"@
}

impl Field {
    /// The column type of this field.
    pub fn column_type(&self) -> (r: String)
        ensures
            r@ == column_type(self@),
    {
        let mut out = self.ty.to_sql_type();
        if str_equal(self.name.as_str(), "id") {
            out.append(" PRIMARY KEY");
        }
        out
    }
}

impl Descriptor {
    /// Defines a record type from the names and type names of its fields. The
    /// definition fails if a type name stands for no supported type, and
    /// otherwise as [`Descriptor::new`] does.
    pub fn from_field_list(list: &Vec<(String, String)>) -> (r: Result<Descriptor, SchemaError>)
        ensures
            match r {
                Ok(d) => {
                    &&& all_supported(pair_views(list@))
                    &&& d@ == declared_fields(pair_views(list@))
                    &&& well_formed(d@)
                },
                Err(e) => if all_supported(pair_views(list@)) {
                    defect(declared_fields(pair_views(list@))) == Some(e)
                } else {
                    e == SchemaError::UnsupportedType
                },
            },
    {
        let ghost lv = pair_views(list@);
        let mut fields: Vec<Field> = Vec::new();
        let n: usize = list.len();
        let mut i: usize = 0;
        while i < n
            invariant
                n == list@.len(),
                i <= n,
                lv == pair_views(list@),
                fields@.len() == i,
                forall|j: int| 0 <= j < i ==> named_type(#[trigger] lv[j].1) is Some,
                forall|j: int|
                    0 <= j < i ==> (#[trigger] fields@[j])@ == declared_fields(lv)[j],
            decreases n - i,
        {
            match SemanticType::from_type_name(list[i].1.as_str()) {
                None => {
                    proof {
                        assert(named_type(lv[i as int].1) is None);
                    }
                    return Err(SchemaError::UnsupportedType);
                },
                Some(ty) => {
                    fields.push(Field { name: list[i].0.clone(), ty });
                },
            }
            i += 1;
        }
        proof {
            assert(field_views(fields@) =~= declared_fields(lv));
        }
        Descriptor::new(fields)
    }

    /// The column of each field, in order: its name, and its column type
    /// with the primary-key mark on the field named `id`.
    pub fn column_definitions(&self) -> (r: Vec<(String, String)>)
        ensures
            pair_views(r@) == columns(self@),
    {
        let mut out: Vec<(String, String)> = Vec::new();
        let n: usize = self.fields.len();
        let mut i: usize = 0;
        while i < n
            invariant
                n == self.fields@.len(),
                i <= n,
                out@.len() == i,
                forall|j: int|
                    0 <= j < i ==> (#[trigger] out@[j]).0@ == self@[j].name && out@[j].1@
                        == column_type(self@[j]),
            decreases n - i,
        {
            let field = &self.fields[i];
            out.push((field.name.clone(), field.column_type()));
            i += 1;
        }
        out
    }

    /// The statement that creates the table `table` for this record type
    /// unless it exists.
    pub fn create_table_sql(&self, table: &str) -> (r: String)
        ensures
            r@ == create_table_text(table@, self@),
    {
        let mut clauses: Vec<String> = Vec::new();
        let n: usize = self.fields.len();
        let mut i: usize = 0;
        while i < n
            invariant
                n == self.fields@.len(),
                i <= n,
                clauses@.len() == i,
                forall|j: int|
                    0 <= j < i ==> (#[trigger] clauses@[j])@ == column_clauses(self@)[j],
            decreases n - i,
        {
            let field = &self.fields[i];
            let mut clause = field.name.clone();
            clause.append(" ");
            clause.append(field.column_type().as_str());
            clauses.push(clause);
            i += 1;
        }
        proof {
            assert(views(clauses@) =~= column_clauses(self@));
        }
        let mut out = String::from_str("CREATE TABLE IF NOT EXISTS ");
        out.append(table);
        out.append(" (");
        out.append(join(&clauses, ",").as_str());
        out.append(");");
        out
    }
}

} // verus!
