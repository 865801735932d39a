use rstream::codec::{DecodeError, Value};
use rstream::row::RawRow;
use rstream::schema::{BaseType, IntWidth, SchemaError, SemanticType};
use rstream::song::{Identifiable, Song, TagBundle};

fn row(cells: &[(&str, &str)]) -> RawRow {
    let mut row = RawRow::new();
    for (name, value) in cells {
        row.insert(name.to_string(), value.to_string());
    }
    row
}

#[test]
fn the_default_song_is_empty() {
    let song = Song::default();
    assert_eq!(song.id, "");
    assert_eq!(song.path, "");
    assert_eq!(song.title, None);
    assert_eq!(song.artist, None);
    assert_eq!(song.album, None);
    assert_eq!(song.year, None);
    assert_eq!(song.track, None);
    assert_eq!(song.disc, None);
}

#[test]
fn from_tags_takes_identity_from_content() {
    let tags = TagBundle {
        title: Some("Ti\"tle".to_string()),
        artist: None,
        album: Some("Album".to_string()),
        year: Some(-1),
        track: None,
        disc: Some(2),
    };
    let song = Song::from_tags("/music/a.mp3", b"hello world", &tags);
    assert_eq!(song.id, "XrY7u+Ae7tCTyyK7j1rNww==");
    assert_eq!(Identifiable::id(&song), "XrY7u+Ae7tCTyyK7j1rNww==");
    assert_eq!(song.path, "/music/a.mp3");
    assert_eq!(song.title.as_deref(), Some("Ti\"tle"));
    assert_eq!(song.artist, None);
    assert_eq!(song.album.as_deref(), Some("Album"));
    assert_eq!(song.year, Some(-1));
    assert_eq!(song.track, None);
    assert_eq!(song.disc, Some(2));
}

#[test]
fn the_fields_of_a_song() {
    let expected: Vec<(String, String)> = [
        ("id", "String"),
        ("path", "String"),
        ("title", "Option<String>"),
        ("artist", "Option<String>"),
        ("album", "Option<String>"),
        ("year", "Option<i32>"),
        ("track", "Option<u32>"),
        ("disc", "Option<u32>"),
    ]
    .iter()
    .map(|(n, t)| (n.to_string(), t.to_string()))
    .collect();
    assert_eq!(Song::field_list(), expected);
    let d = Song::descriptor();
    assert_eq!(d.len(), 8);
    assert_eq!(d.id_index(), 0);
    for (i, (name, declared)) in expected.iter().enumerate() {
        assert_eq!(&d.field(i).name, name);
        assert_eq!(Some(d.field(i).ty), SemanticType::from_type_name(declared));
    }
    assert_eq!(d.field(5).ty, SemanticType::Optional(BaseType::SignedInt(IntWidth::W32)));
}

#[test]
fn the_table_of_songs() {
    assert_eq!(
        Song::descriptor().create_table_sql("songs"),
        "CREATE TABLE IF NOT EXISTS songs (id TEXT NON NULL PRIMARY KEY,path TEXT NON NULL,title TEXT,artist TEXT,album TEXT,year INTEGER,track INTEGER,disc INTEGER);"
    );
}

#[test]
fn to_sql_type_maps_type_names() {
    assert_eq!(Song::to_sql_type("i32").unwrap(), "INTEGER NON NULL");
    assert_eq!(Song::to_sql_type("Option<u128>").unwrap(), "INTEGER");
    assert_eq!(Song::to_sql_type("String").unwrap(), "TEXT NON NULL");
    assert_eq!(Song::to_sql_type("Option<String>").unwrap(), "TEXT");
    assert_eq!(Song::to_sql_type("f32").unwrap_err(), SchemaError::UnsupportedType);
    assert_eq!(Song::to_sql_type("Option<Song>").unwrap_err(), SchemaError::UnsupportedType);
}

#[test]
fn value_list_of_a_song() {
    let mut song = Song::default();
    song.id = "k".to_string();
    song.path = "/a \"b\".mp3".to_string();
    song.title = Some("T".to_string());
    song.year = Some(1984);
    song.disc = Some(1);
    assert_eq!(song.value_list(), vec!["\"k\"", "\"/a \"\"b\"\".mp3\"", "\"T\"", "NULL", "NULL", "1984", "NULL", "1"]);
}

#[test]
fn a_song_and_its_record() {
    let mut song = Song::default();
    song.id = "k".to_string();
    song.path = "/a".to_string();
    song.artist = Some("A".to_string());
    song.year = Some(i32::MIN);
    song.track = Some(u32::MAX);
    let record = song.to_record();
    assert!(record.fits(&Song::descriptor()));
    assert_eq!(record.values.len(), 8);
    assert!(matches!(&record.values[5], Value::Signed(y) if *y == i32::MIN as i128));
    assert!(matches!(&record.values[6], Value::Unsigned(t) if *t == u32::MAX as u128));
    assert!(matches!(&record.values[7], Value::Absent));
    assert_eq!(record.id(&Song::descriptor()), "k");
    let back = Song::from_record(&record);
    assert_eq!(back.id, "k");
    assert_eq!(back.path, "/a");
    assert_eq!(back.title, None);
    assert_eq!(back.artist.as_deref(), Some("A"));
    assert_eq!(back.year, Some(i32::MIN));
    assert_eq!(back.track, Some(u32::MAX));
    assert_eq!(back.disc, None);
}

#[test]
fn from_hash_reads_a_row() {
    let song = Song::from_hash(&row(&[
        ("id", "k"),
        ("path", "/a"),
        ("title", "T"),
        ("album", "NULL"),
        ("year", "-44"),
        ("track", "+7"),
    ]))
    .unwrap();
    assert_eq!(song.id, "k");
    assert_eq!(song.path, "/a");
    assert_eq!(song.title.as_deref(), Some("T"));
    assert_eq!(song.artist, None);
    assert_eq!(song.album, None);
    assert_eq!(song.year, Some(-44));
    assert_eq!(song.track, Some(7));
    assert_eq!(song.disc, None);
}

#[test]
fn from_hash_fails_on_the_first_bad_field() {
    assert_eq!(Song::from_hash(&row(&[("path", "/a")])).unwrap_err(), DecodeError::MissingColumn { field: 0 });
    assert_eq!(Song::from_hash(&row(&[("id", "k")])).unwrap_err(), DecodeError::MissingColumn { field: 1 });
    assert_eq!(
        Song::from_hash(&row(&[("id", "k"), ("path", "/a"), ("year", "2147483648")])).unwrap_err(),
        DecodeError::ParseError { field: 5 }
    );
    assert_eq!(
        Song::from_hash(&row(&[("id", "k"), ("path", "/a"), ("track", "-1"), ("disc", "x")])).unwrap_err(),
        DecodeError::ParseError { field: 6 }
    );
    assert_eq!(
        Song::from_hash(&row(&[("id", "k"), ("path", "/a"), ("disc", "4294967296")])).unwrap_err(),
        DecodeError::ParseError { field: 7 }
    );
}

#[test]
fn from_sqlite_result_passes_over_bad_rows() {
    let rows = vec![
        row(&[("id", "a"), ("path", "/a")]),
        row(&[("id", "b")]),
        row(&[("id", "c"), ("path", "/c"), ("year", "x")]),
        row(&[("id", "d"), ("path", "/d"), ("year", "2001")]),
    ];
    let songs = Song::from_sqlite_result(&rows);
    assert_eq!(songs.len(), 2);
    assert_eq!(songs[0].id, "a");
    assert_eq!(songs[1].id, "d");
    assert_eq!(songs[1].year, Some(2001));
    assert!(Song::from_sqlite_result(&Vec::new()).is_empty());
}

#[test]
fn first_is_the_song_of_the_first_row() {
    assert!(Song::first(&Vec::new()).unwrap().is_none());
    let rows = vec![row(&[("id", "a"), ("path", "/a")]), row(&[("id", "b")])];
    assert_eq!(Song::first(&rows).unwrap().unwrap().id, "a");
    let rows = vec![row(&[("id", "b")]), row(&[("id", "a"), ("path", "/a")])];
    assert_eq!(Song::first(&rows).unwrap_err(), DecodeError::MissingColumn { field: 1 });
}
