//! The song: the record type of the media library.

use crate::codec::{
    decodable, decoded, fails_at, field_result, literals, record_fits, DecodeError, Record,
    Value, ValueView,
};
use crate::pagination::{get_offset_and_limit, window_of, Pagination};
use crate::query::{search_sql, search_text, select_page_sql, select_page_text};
use crate::store::{Plain, QueryError};
use crate::upsert::{
    count_of, insert_text, lemma_upsert_same_identity, planned, select_by_id_sql,
    select_by_id_text, update_text, upsert, upserted, Looking, Written,
};
use crate::identity::{identity, identity_text};
use crate::row::{row_views, RawRow};
use crate::schema::{
    all_supported, create_table_text, declared_fields, field_views, identity_at,
    lemma_defect_free, named_type, pair_views, BaseType, Descriptor, Field, FieldView, IntWidth,
    SchemaError, SemanticType,
};
use vstd::prelude::*;
use vstd::string::StringExecFns;

verus! {

/// A record that has an identity.
pub trait Identifiable {
    /// The identity of the record.
    fn id(&self) -> &String;
}

/// One song of the library.
#[derive(Clone, Debug)]
pub struct Song {
    pub id: String,
    pub path: String,
    pub title: Option<String>,
    pub artist: Option<String>,
    pub album: Option<String>,
    pub year: Option<i32>,
    pub track: Option<u32>,
    pub disc: Option<u32>,
}

/// What a song is in contracts.
pub ghost struct SongView {
    pub id: Seq<char>,
    pub path: Seq<char>,
    pub title: Option<Seq<char>>,
    pub artist: Option<Seq<char>>,
    pub album: Option<Seq<char>>,
    pub year: Option<int>,
    pub track: Option<int>,
    pub disc: Option<int>,
}

/// The descriptive tags of a file, as far as a song keeps them.
#[derive(Clone, Debug)]
pub struct TagBundle {
    pub title: Option<String>,
    pub artist: Option<String>,
    pub album: Option<String>,
    pub year: Option<i32>,
    pub track: Option<u32>,
    pub disc: Option<u32>,
}

/// The characters of an optional string.
pub open spec fn text_view(text: Option<String>) -> Option<Seq<char>> {
    match text {
        Some(t) => Some(t@),
        None => None,
    }
}

impl View for Song {
    type V = SongView;

    open spec fn view(&self) -> SongView {
        SongView {
            id: self.id@,
            path: self.path@,
            title: text_view(self.title),
            artist: text_view(self.artist),
            album: text_view(self.album),
            year: match self.year {
                Some(y) => Some(y as int),
                None => None,
            },
            track: match self.track {
                Some(t) => Some(t as int),
                None => None,
            },
            disc: match self.disc {
                Some(d) => Some(d as int),
                None => None,
            },
        }
    }
}

/// The value of an optional text.
pub open spec fn optional_text(text: Option<Seq<char>>) -> ValueView {
    match text {
        Some(t) => ValueView::Text(t),
        None => ValueView::Absent,
    }
}

/// The value of an optional signed integer.
pub open spec fn optional_signed(number: Option<int>) -> ValueView {
    match number {
        Some(n) => ValueView::Signed(n),
        None => ValueView::Absent,
    }
}

/// The value of an optional unsigned integer.
pub open spec fn optional_unsigned(number: Option<int>) -> ValueView {
    match number {
        Some(n) => ValueView::Unsigned(n),
        None => ValueView::Absent,
    }
}

/// The fields of a song, in the order of its table's columns.
pub open spec fn song_fields() -> Seq<FieldView> {
    seq![
        FieldView { name: "id"@, ty: SemanticType::Required(BaseType::Text) },
        FieldView { name: "path"@, ty: SemanticType::Required(BaseType::Text) },
        FieldView { name: "title"@, ty: SemanticType::Optional(BaseType::Text) },
        FieldView { name: "artist"@, ty: SemanticType::Optional(BaseType::Text) },
        FieldView { name: "album"@, ty: SemanticType::Optional(BaseType::Text) },
        FieldView {
            name: "year"@,
            ty: SemanticType::Optional(BaseType::SignedInt(IntWidth::W32)),
        },
        FieldView {
            name: "track"@,
            ty: SemanticType::Optional(BaseType::UnsignedInt(IntWidth::W32)),
        },
        FieldView {
            name: "disc"@,
            ty: SemanticType::Optional(BaseType::UnsignedInt(IntWidth::W32)),
        },
    ]
}

/// The names and type names of a song's fields.
pub open spec fn song_field_list() -> Seq<(Seq<char>, Seq<char>)> {
    seq![
        ("id"@, "String"@),
        ("path"@, "String"@),
        ("title"@, "Option<String>"@),
        ("artist"@, "Option<String>"@),
        ("album"@, "Option<String>"@),
        ("year"@, "Option<i32>"@),
        ("track"@, "Option<u32>"@),
        ("disc"@, "Option<u32>"@),
    ]
}

/// The values of a song's fields, in the fields' order.
pub open spec fn song_values(song: SongView) -> Seq<ValueView> {
    seq![
        ValueView::Text(song.id),
        ValueView::Text(song.path),
        optional_text(song.title),
        optional_text(song.artist),
        optional_text(song.album),
        optional_signed(song.year),
        optional_unsigned(song.track),
        optional_unsigned(song.disc),
    ]
}

/// Among a song's fields the first, and no other, is named `id`.
pub proof fn lemma_song_identity()
    ensures
        identity_at(song_fields(), 0),
        crate::schema::well_formed(song_fields()),
        crate::schema::identity_index(song_fields()) == 0,
{
    reveal_strlit("id");
    reveal_strlit("path");
    reveal_strlit("title");
    reveal_strlit("artist");
    reveal_strlit("album");
    reveal_strlit("year");
    reveal_strlit("track");
    reveal_strlit("disc");
    let fields = song_fields();
    assert(fields[0].name == "id"@);
    assert(identity_at(fields, 0));
}

/// The field list of a song declares the fields of a song: every type name in
/// it stands for a supported type, the type of its field.
pub proof fn lemma_song_field_list()
    ensures
        all_supported(song_field_list()),
        declared_fields(song_field_list()) == song_fields(),
{
    reveal_strlit("i8");
    reveal_strlit("i16");
    reveal_strlit("i32");
    reveal_strlit("i64");
    reveal_strlit("i128");
    reveal_strlit("u8");
    reveal_strlit("u16");
    reveal_strlit("u32");
    reveal_strlit("u64");
    reveal_strlit("u128");
    reveal_strlit("String");
    reveal_strlit("Option<");
    reveal_strlit("Option<String>");
    reveal_strlit("Option<i32>");
    reveal_strlit("Option<u32>");
    let optional_text = "Option<String>"@;
    let optional_i32 = "Option<i32>"@;
    let optional_u32 = "Option<u32>"@;
    assert(optional_text.subrange(0, 7) =~= "Option<"@);
    assert(optional_text.subrange(7, optional_text.len() - 1) =~= "String"@);
    assert("i16"@[1] == '1' && "i32"@[1] == '3' && "u16"@[1] == '1' && "u32"@[1] == '3');
    assert("i16"@[0] == 'i' && "i32"@[0] == 'i' && "i64"@[0] == 'i' && "u32"@[0] == 'u');
    assert(optional_i32.subrange(0, 7) =~= "Option<"@);
    assert(optional_i32.subrange(7, optional_i32.len() - 1) =~= "i32"@);
    assert(named_type(optional_i32) == Some(
        SemanticType::Optional(BaseType::SignedInt(IntWidth::W32)),
    ));
    assert(optional_u32.subrange(0, 7) =~= "Option<"@);
    assert(optional_u32.subrange(7, optional_u32.len() - 1) =~= "u32"@);
    assert(named_type(optional_u32) == Some(
        SemanticType::Optional(BaseType::UnsignedInt(IntWidth::W32)),
    ));
}

/// The values of a song are values that its fields can hold, provided that
/// its numbers are within their types' ranges.
pub proof fn lemma_song_values_fit(song: SongView)
    requires
        song.year matches Some(y) ==> -0x8000_0000 <= y <= 0x7fff_ffff,
        song.track matches Some(t) ==> 0 <= t <= 0xffff_ffff,
        song.disc matches Some(d) ==> 0 <= d <= 0xffff_ffff,
    ensures
        record_fits(song_fields(), song_values(song)),
{
    let fields = song_fields();
    let values = song_values(song);
    assert forall|i: int| 0 <= i < fields.len() implies crate::codec::fits(
        fields[i].ty,
        #[trigger] values[i],
    ) by {}
}

fn text_value(text: &String) -> (r: Value)
    ensures
        r@ == ValueView::Text(text@),
{
    Value::Text(text.clone())
}

fn optional_text_value(text: &Option<String>) -> (r: Value)
    ensures
        r@ == optional_text(text_view(*text)),
{
    match text {
        Some(t) => Value::Text(t.clone()),
        None => Value::Absent,
    }
}

fn text_of_value(value: &Value) -> (r: String)
    requires
        value@ is Text,
    ensures
        value@ == ValueView::Text(r@),
{
    match value {
        Value::Text(t) => t.clone(),
        _ => vstd::pervasive::unreached(),
    }
}

fn optional_text_of_value(value: &Value) -> (r: Option<String>)
    requires
        value@ is Text || value@ is Absent,
    ensures
        value@ == optional_text(text_view(r)),
{
    match value {
        Value::Text(t) => Some(t.clone()),
        Value::Absent => None,
        _ => vstd::pervasive::unreached(),
    }
}

fn optional_u32_of_value(value: &Value) -> (r: Option<u32>)
    requires
        value@ is Absent || (value@ matches ValueView::Unsigned(u) && 0 <= u <= 0xffff_ffff),
    ensures
        value@ == optional_unsigned(
            match r {
                Some(u) => Some(u as int),
                None => None,
            },
        ),
{
    match value {
        Value::Unsigned(u) => Some(*u as u32),
        Value::Absent => None,
        _ => vstd::pervasive::unreached(),
    }
}

fn optional_i32_of_value(value: &Value) -> (r: Option<i32>)
    requires
        value@ is Absent || (value@ matches ValueView::Signed(i) && -0x8000_0000 <= i
            <= 0x7fff_ffff),
    ensures
        value@ == optional_signed(
            match r {
                Some(i) => Some(i as int),
                None => None,
            },
        ),
{
    match value {
        Value::Signed(i) => Some(*i as i32),
        Value::Absent => None,
        _ => vstd::pervasive::unreached(),
    }
}

impl Identifiable for Song {
    fn id(&self) -> (r: &String)
        ensures
            r@ == self@.id,
    {
        &self.id
    }
}

impl Default for Song {
    /// The song with empty identity and path and nothing else.
    fn default() -> (r: Song)
        ensures
            r@ == (SongView {
                id: Seq::empty(),
                path: Seq::empty(),
                title: None,
                artist: None,
                album: None,
                year: None,
                track: None,
                disc: None,
            }),
    {
        Song {
            id: String::new(),
            path: String::new(),
            title: None,
            artist: None,
            album: None,
            year: None,
            track: None,
            disc: None,
        }
    }
}

impl Song {
    /// The song of the file at `path` with the content `content` and the tags
    /// `tags`: its identity is that of the content, and the tags are kept as
    /// they are.
    pub fn from_tags(path: &str, content: &[u8], tags: &TagBundle) -> (r: Song)
        ensures
            r@ == (SongView {
                id: identity_text(content@),
                path: path@,
                title: text_view(tags.title),
                artist: text_view(tags.artist),
                album: text_view(tags.album),
                year: match tags.year {
                    Some(y) => Some(y as int),
                    None => None,
                },
                track: match tags.track {
                    Some(t) => Some(t as int),
                    None => None,
                },
                disc: match tags.disc {
                    Some(d) => Some(d as int),
                    None => None,
                },
            }),
    {
        Song {
            id: identity(content),
            path: String::from_str(path),
            title: tags.title.clone(),
            artist: tags.artist.clone(),
            album: tags.album.clone(),
            year: tags.year,
            track: tags.track,
            disc: tags.disc,
        }
    }
}

/// The text of a value, where it is a text.
pub open spec fn text_in(value: ValueView) -> Seq<char> {
    match value {
        ValueView::Text(t) => t,
        _ => Seq::empty(),
    }
}

/// The text of a value, where it is one.
pub open spec fn optional_text_in(value: ValueView) -> Option<Seq<char>> {
    match value {
        ValueView::Text(t) => Some(t),
        _ => None,
    }
}

/// The number of a value, where it is one.
pub open spec fn optional_number_in(value: ValueView) -> Option<int> {
    match value {
        ValueView::Signed(i) => Some(i),
        ValueView::Unsigned(u) => Some(u),
        _ => None,
    }
}

/// The song whose fields have the values `values`.
pub open spec fn song_of(values: Seq<ValueView>) -> SongView {
    SongView {
        id: text_in(values[0]),
        path: text_in(values[1]),
        title: optional_text_in(values[2]),
        artist: optional_text_in(values[3]),
        album: optional_text_in(values[4]),
        year: optional_number_in(values[5]),
        track: optional_number_in(values[6]),
        disc: optional_number_in(values[7]),
    }
}

/// The views of a vector of songs.
pub open spec fn song_views(songs: Seq<Song>) -> Seq<SongView> {
    Seq::new(songs.len(), |i: int| songs[i]@)
}

/// The songs that `rows` hold: the song of each row that can be read as
/// one, in the rows' order. A row that cannot be read holds no song.
pub open spec fn songs_of(rows: Seq<Map<Seq<char>, Seq<char>>>) -> Seq<SongView>
    decreases rows.len(),
{
    if rows.len() == 0 {
        Seq::empty()
    } else if decodable(song_fields(), rows.last()) {
        songs_of(rows.drop_last()).push(song_of(decoded(song_fields(), rows.last())))
    } else {
        songs_of(rows.drop_last())
    }
}

/// Two songs of one identity, such as the songs of two files with the same
/// content at different paths, upserted one after the other into a table that
/// holds at most one row of that identity, leave exactly one row of it.
pub proof fn lemma_same_identity_one_row(
    rows: Seq<Seq<ValueView>>,
    first: SongView,
    second: SongView,
)
    requires
        first.id == second.id,
        count_of(rows, 0, ValueView::Text(first.id)) <= 1,
    ensures
        count_of(
            upserted(upserted(rows, 0, song_values(first)), 0, song_values(second)),
            0,
            ValueView::Text(first.id),
        ) == 1,
        planned(
            count_of(upserted(rows, 0, song_values(first)), 0, ValueView::Text(second.id)),
        ) == Written::Updated,
{
    lemma_upsert_same_identity(rows, 0, song_values(first), song_values(second));
}

/// Whether a song is one that a row holds: some row can be read as a song,
/// and reads as this one.
pub open spec fn held_by_a_row(song: SongView) -> bool {
    exists|row: Map<Seq<char>, Seq<char>>| #[trigger]
        decodable(song_fields(), row) && song == song_of(decoded(song_fields(), row))
}

/// A song that a row holds has no title, artist or album that is exactly
/// `NULL`: such a text reads as absent.
pub proof fn lemma_held_song_has_no_null_text(song: SongView)
    requires
        held_by_a_row(song),
    ensures
        song.title != Some("NULL"@),
        song.artist != Some("NULL"@),
        song.album != Some("NULL"@),
{
    let row = choose|row: Map<Seq<char>, Seq<char>>| #[trigger]
        decodable(song_fields(), row) && song == song_of(decoded(song_fields(), row));
    let fields = song_fields();
    assert(field_result(fields, row, 2) is Ok);
    assert(field_result(fields, row, 3) is Ok);
    assert(field_result(fields, row, 4) is Ok);
}

/// Each of the songs that rows hold is a song that a row holds.
pub proof fn lemma_songs_of_are_held(rows: Seq<Map<Seq<char>, Seq<char>>>)
    ensures
        forall|i: int| 0 <= i < songs_of(rows).len() ==> held_by_a_row(#[trigger] songs_of(rows)[i]),
    decreases rows.len(),
{
    if rows.len() > 0 {
        lemma_songs_of_are_held(rows.drop_last());
        let songs = songs_of(rows);
        assert forall|i: int| 0 <= i < songs.len() implies held_by_a_row(#[trigger] songs[i]) by {
            if i < songs_of(rows.drop_last()).len() {
                assert(songs[i] == songs_of(rows.drop_last())[i]);
            } else {
                assert(decodable(song_fields(), rows.last()));
            }
        }
    }
}

/// What went wrong when a song was asked of the store.
#[derive(Debug)]
pub enum StoreError {
    /// The statement failed.
    Query(QueryError),
    /// A row that the store gave cannot be read as a song.
    Decode(DecodeError),
}

impl Song {
    /// The names and type names of a song's fields, in order.
    pub fn field_list() -> (r: Vec<(String, String)>)
        ensures
            pair_views(r@) == song_field_list(),
            all_supported(pair_views(r@)),
            declared_fields(pair_views(r@)) == song_fields(),
    {
        proof {
            lemma_song_field_list();
        }
        let mut out: Vec<(String, String)> = Vec::new();
        out.push((String::from_str("id"), String::from_str("String")));
        out.push((String::from_str("path"), String::from_str("String")));
        out.push((String::from_str("title"), String::from_str("Option<String>")));
        out.push((String::from_str("artist"), String::from_str("Option<String>")));
        out.push((String::from_str("album"), String::from_str("Option<String>")));
        out.push((String::from_str("year"), String::from_str("Option<i32>")));
        out.push((String::from_str("track"), String::from_str("Option<u32>")));
        out.push((String::from_str("disc"), String::from_str("Option<u32>")));
        out
    }

    /// The column type for the type name of a field, or an error where the
    /// name stands for no supported type.
    pub fn to_sql_type(field_type: &str) -> (r: Result<String, SchemaError>)
        ensures
            match r {
                Ok(text) => named_type(field_type@) matches Some(ty) && text@ == ty.sql_type(),
                Err(e) => named_type(field_type@) is None && e == SchemaError::UnsupportedType,
            },
    {
        match SemanticType::from_type_name(field_type) {
            Some(ty) => Ok(ty.to_sql_type()),
            None => Err(SchemaError::UnsupportedType),
        }
    }

    /// The record type of a song.
    pub fn descriptor() -> (r: Descriptor)
        ensures
            r@ == song_fields(),
    {
        let mut fields: Vec<Field> = Vec::new();
        let text = SemanticType::Required(BaseType::Text);
        let optional_text = SemanticType::Optional(BaseType::Text);
        let optional_u32 = SemanticType::Optional(BaseType::UnsignedInt(IntWidth::W32));
        fields.push(Field { name: String::from_str("id"), ty: text });
        fields.push(Field { name: String::from_str("path"), ty: text });
        fields.push(Field { name: String::from_str("title"), ty: optional_text });
        fields.push(Field { name: String::from_str("artist"), ty: optional_text });
        fields.push(Field { name: String::from_str("album"), ty: optional_text });
        fields.push(
            Field {
                name: String::from_str("year"),
                ty: SemanticType::Optional(BaseType::SignedInt(IntWidth::W32)),
            },
        );
        fields.push(Field { name: String::from_str("track"), ty: optional_u32 });
        fields.push(Field { name: String::from_str("disc"), ty: optional_u32 });
        proof {
            assert(field_views(fields@) =~= song_fields());
            lemma_song_identity();
            lemma_defect_free(song_fields());
        }
        match Descriptor::new(fields) {
            Ok(descriptor) => descriptor,
            Err(_) => vstd::pervasive::unreached(),
        }
    }

    /// This song as a record of its record type.
    pub fn to_record(&self) -> (r: Record)
        ensures
            r@ == song_values(self@),
            record_fits(song_fields(), r@),
    {
        let mut values: Vec<Value> = Vec::new();
        values.push(text_value(&self.id));
        values.push(text_value(&self.path));
        values.push(optional_text_value(&self.title));
        values.push(optional_text_value(&self.artist));
        values.push(optional_text_value(&self.album));
        values.push(
            match self.year {
                Some(y) => Value::Signed(y as i128),
                None => Value::Absent,
            },
        );
        values.push(
            match self.track {
                Some(t) => Value::Unsigned(t as u128),
                None => Value::Absent,
            },
        );
        values.push(
            match self.disc {
                Some(d) => Value::Unsigned(d as u128),
                None => Value::Absent,
            },
        );
        let record = Record { values };
        proof {
            lemma_song_values_fit(self@);
        }
        record
    }

    /// The song that a record of the song's record type holds.
    pub fn from_record(record: &Record) -> (r: Song)
        requires
            record_fits(song_fields(), record@),
        ensures
            r@ == song_of(record@),
            song_values(r@) == record@,
    {
        Song {
            id: text_of_value(&record.values[0]),
            path: text_of_value(&record.values[1]),
            title: optional_text_of_value(&record.values[2]),
            artist: optional_text_of_value(&record.values[3]),
            album: optional_text_of_value(&record.values[4]),
            year: optional_i32_of_value(&record.values[5]),
            track: optional_u32_of_value(&record.values[6]),
            disc: optional_u32_of_value(&record.values[7]),
        }
    }

    /// The literal of each field of this song, in the fields' order.
    pub fn value_list(&self) -> (r: Vec<String>)
        ensures
            crate::text::views(r@) == literals(song_values(self@)),
    {
        self.to_record().value_list()
    }

    /// Reads a row as a song. Each field is read from the column of its
    /// name; the first field that cannot be read fails the song.
    pub fn from_hash(row: &RawRow) -> (r: Result<Song, DecodeError>)
        ensures
            match r {
                Ok(song) => decodable(song_fields(), row@) && song@ == song_of(
                    decoded(song_fields(), row@),
                ) && song_values(song@) == decoded(song_fields(), row@),
                Err(e) => !decodable(song_fields(), row@) && fails_at(
                    song_fields(),
                    row@,
                    e.position(),
                    e.fault(),
                ),
            },
    {
        let descriptor = Song::descriptor();
        match Record::decode(row, &descriptor) {
            Ok(record) => Ok(Song::from_record(&record)),
            Err(e) => Err(e),
        }
    }

    /// The songs that `results` hold, in order. A row that cannot be read as
    /// a song is passed over.
    pub fn from_sqlite_result(results: &Vec<RawRow>) -> (r: Vec<Song>)
        ensures
            song_views(r@) == songs_of(row_views(results@)),
    {
        let ghost rows = row_views(results@);
        let mut songs: Vec<Song> = Vec::new();
        let n: usize = results.len();
        let mut i: usize = 0;
        while i < n
            invariant
                n == results@.len(),
                i <= n,
                rows == row_views(results@),
                song_views(songs@) == songs_of(rows.take(i as int)),
            decreases n - i,
        {
            let ghost before = song_views(songs@);
            proof {
                assert(rows.take(i + 1).drop_last() =~= rows.take(i as int));
            }
            match Song::from_hash(&results[i]) {
                Ok(song) => {
                    songs.push(song);
                    proof {
                        assert(song_views(songs@) =~= before.push(
                            song_of(decoded(song_fields(), results@[i as int]@)),
                        ));
                    }
                },
                Err(_) => {},
            }
            i += 1;
        }
        proof {
            assert(rows.take(n as int) =~= rows);
        }
        songs
    }

    /// The song of the first of `rows`, if there is a row: what a lookup by
    /// identity found.
    pub fn first(rows: &Vec<RawRow>) -> (r: Result<Option<Song>, DecodeError>)
        ensures
            match r {
                Ok(None) => rows@.len() == 0,
                Ok(Some(song)) => rows@.len() > 0 && decodable(song_fields(), rows@[0]@) && song@
                    == song_of(decoded(song_fields(), rows@[0]@)),
                Err(e) => rows@.len() > 0 && fails_at(
                    song_fields(),
                    rows@[0]@,
                    e.position(),
                    e.fault(),
                ),
            },
    {
        if rows.len() == 0 {
            Ok(None)
        } else {
            match Song::from_hash(&rows[0]) {
                Ok(song) => Ok(Some(song)),
                Err(e) => Err(e),
            }
        }
    }

    /// The statement that creates the table `table_name` for songs unless it
    /// exists; a table that exists is left as it is, whatever its columns.
    /// With it comes what takes the store's answer.
    pub fn create_table(table_name: &str) -> (r: (String, Plain))
        ensures
            r.0@ == create_table_text(table_name@, song_fields()),
    {
        (Song::descriptor().create_table_sql(table_name), Plain {})
    }

    /// Begins the upsert of this song into `table_name`: the statement that
    /// asks the table for the row of the song's identity, and what goes on
    /// when it was run. The song is then written over that row if the table
    /// holds one, and as a new row if not.
    pub fn add(&self, table_name: &str) -> (r: (String, Looking))
        ensures
            r.0@ == select_by_id_text(table_name@, self@.id),
            r.1.insert@ == insert_text(table_name@, song_fields(), song_values(self@)),
            r.1.update@ == update_text(table_name@, song_fields(), song_values(self@), self@.id),
    {
        proof {
            lemma_song_identity();
        }
        let record = self.to_record();
        let descriptor = Song::descriptor();
        upsert(&descriptor, &record, table_name)
    }

    /// The statement that asks `table_name` for the song of the identity
    /// `id`, and what takes the store's answer.
    pub fn get(table_name: &str, id: &str) -> (r: (String, Lookup))
        ensures
            r.0@ == select_by_id_text(table_name@, id@),
    {
        (select_by_id_sql(table_name, id), Lookup {})
    }

    /// The statement that asks `table_name` for the songs of one page, in
    /// the store's order: those from `page * per_page` on, at most
    /// `per_page` of them, or all songs when either is absent. With it comes
    /// what takes the store's answer.
    pub fn get_all_with_pagination(table_name: &str, page: Option<u32>, per_page: Option<u32>) -> (r:
        (String, Listing))
        ensures
            r.0@ == select_page_text(table_name@, window_of(page, per_page)),
    {
        let window = get_offset_and_limit(&Pagination { page, per_page });
        (select_page_sql(table_name, window), Listing {})
    }

    /// The statement that asks `table_name` for all its songs, in the
    /// store's order, and what takes the store's answer.
    pub fn get_all(table_name: &str) -> (r: (String, Listing))
        ensures
            r.0@ == select_page_text(table_name@, window_of(None, None)),
    {
        Song::get_all_with_pagination(table_name, None, None)
    }

    /// The statement that asks `table_name` for the songs that match `term`,
    /// best first, within the page that `pagination` selects, and what
    /// takes the store's answer.
    pub fn search(table_name: &str, term: &str, pagination: &Pagination) -> (r: (String, Listing))
        ensures
            r.0@ == search_text(
                table_name@,
                term@,
                window_of(pagination.page, pagination.per_page),
            ),
    {
        let window = get_offset_and_limit(pagination);
        (search_sql(table_name, term, window), Listing {})
    }
}

/// A lookup of one song that has sent its statement.
#[derive(Debug)]
pub struct Lookup {}

/// A listing of songs that has sent its statement.
#[derive(Debug)]
pub struct Listing {}

impl Lookup {
    /// The song that was looked up, given what the store gave for the
    /// lookup's statement: the song of the first row, or none if there is no
    /// row. A statement that failed gives its error, and a first row that is
    /// no song gives the reason.
    pub fn found(self, answer: Result<Vec<RawRow>, QueryError>) -> (r: Result<
        Option<Song>,
        StoreError,
    >)
        ensures
            match answer {
                Err(e) => r == Err::<Option<Song>, StoreError>(StoreError::Query(e)),
                Ok(rows) => match r {
                    Ok(None) => rows@.len() == 0,
                    Ok(Some(song)) => rows@.len() > 0 && decodable(song_fields(), rows@[0]@)
                        && song@ == song_of(decoded(song_fields(), rows@[0]@)),
                    Err(StoreError::Decode(e)) => rows@.len() > 0 && fails_at(
                        song_fields(),
                        rows@[0]@,
                        e.position(),
                        e.fault(),
                    ),
                    Err(StoreError::Query(_)) => false,
                },
            },
    {
        match answer {
            Err(e) => Err(StoreError::Query(e)),
            Ok(rows) => match Song::first(&rows) {
                Ok(found) => Ok(found),
                Err(e) => Err(StoreError::Decode(e)),
            },
        }
    }
}

impl Listing {
    /// The songs that were listed, given what the store gave for the
    /// listing's statement: the song of each row that can be read as one, in
    /// the rows' order. A statement that failed gives its error.
    pub fn listed(self, answer: Result<Vec<RawRow>, QueryError>) -> (r: Result<
        Vec<Song>,
        QueryError,
    >)
        ensures
            match answer {
                Err(e) => r == Err::<Vec<Song>, QueryError>(e),
                Ok(rows) => r matches Ok(songs) && song_views(songs@) == songs_of(
                    row_views(rows@),
                ),
            },
    {
        match answer {
            Err(e) => Err(e),
            Ok(rows) => Ok(Song::from_sqlite_result(&rows)),
        }
    }
}

} // verus!
