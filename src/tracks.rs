//! Tracks: the records of a music library table, keyed by a fixed set of attributes.
//!
//! The columns of a table are found at run time, in its first record. Each column whose name is
//! known maps onto one attribute of a track; a record's fields then fill in the attributes of
//! their columns.
use vstd::prelude::*;

use std::collections::HashMap;

use crate::fields::{ColumnField, NdeField, NdeFieldBase, Payload};
use crate::table::views;

verus! {

broadcast use vstd::std_specs::hash::group_hash_axioms;

/// Why a record could not become a track.
#[derive(Debug, Clone, Copy, PartialEq, Eq, Structural)]
pub enum Cause {
    /// No filename field found.
    NoFilename,
}

/// An error that keeps a record from becoming a track.
#[derive(Debug, Clone, Copy, PartialEq, Eq, Structural)]
pub struct Error {
    pub cause: Cause,
}

pub type Result<T> = std::result::Result<T, Error>;

/// Enumerated set of attributes which a track may include.
#[derive(Debug, Clone, Copy, PartialEq, Eq, Hash, Structural)]
pub enum TrackAttrs {
    Filename,
    Artist,
    Title,
    Album,
    Year,
    Genre,
    Comment,
    TrackNo,
    Length,
    Type,
    LastUpd,
    LastPlay,
    Rating,
    Tuid2,
    PlayCount,
    Filetime,
    Filesize,
    Bitrate,
    Disc,
    Albumartist,
    ReplaygainAlbumGain,
    ReplaygainTrackGain,
    Publisher,
    Composer,
    Bpm,
    Discs,
    Tracks,
    IsPodcast,
    PodcastChannel,
    PodcastPubdate,
    GracenoteFileId,
    GracenoteExtData,
    Lossless,
    Category,
    Codec,
    Director,
    Producer,
    Width,
    Height,
    MimeType,
    DateAdded,
}

/// The kind of value that an attribute takes.
#[derive(Debug, Clone, Copy, PartialEq, Eq, Structural)]
pub enum ValueKind {
    /// A file name.
    Path,
    /// A string.
    Text,
    /// A 32-bit integer.
    Integer,
    /// A 32-bit length.
    Length,
    /// A 32-bit date and time.
    Datetime,
    /// A 64-bit integer.
    Int64,
}

/// The attribute that a column of the given name maps onto, if any; names match exactly.
pub open spec fn attr_named(s: Seq<char>) -> Option<TrackAttrs> {
    if s == "filename"@ {
        Some(TrackAttrs::Filename)
    } else if s == "artist"@ {
        Some(TrackAttrs::Artist)
    } else if s == "title"@ {
        Some(TrackAttrs::Title)
    } else if s == "album"@ {
        Some(TrackAttrs::Album)
    } else if s == "year"@ {
        Some(TrackAttrs::Year)
    } else if s == "genre"@ {
        Some(TrackAttrs::Genre)
    } else if s == "comment"@ {
        Some(TrackAttrs::Comment)
    } else if s == "trackno"@ {
        Some(TrackAttrs::TrackNo)
    } else if s == "length"@ {
        Some(TrackAttrs::Length)
    } else if s == "type"@ {
        Some(TrackAttrs::Type)
    } else if s == "lastupd"@ {
        Some(TrackAttrs::LastUpd)
    } else if s == "lastplay"@ {
        Some(TrackAttrs::LastPlay)
    } else if s == "rating"@ {
        Some(TrackAttrs::Rating)
    } else if s == "tuid2"@ {
        Some(TrackAttrs::Tuid2)
    } else if s == "playcount"@ {
        Some(TrackAttrs::PlayCount)
    } else if s == "filetime"@ {
        Some(TrackAttrs::Filetime)
    } else if s == "filesize"@ {
        Some(TrackAttrs::Filesize)
    } else if s == "bitrate"@ {
        Some(TrackAttrs::Bitrate)
    } else if s == "disc"@ {
        Some(TrackAttrs::Disc)
    } else if s == "albumartist"@ {
        Some(TrackAttrs::Albumartist)
    } else if s == "replaygain_album_gain"@ {
        Some(TrackAttrs::ReplaygainAlbumGain)
    } else if s == "replaygain_track_gain"@ {
        Some(TrackAttrs::ReplaygainTrackGain)
    } else if s == "publisher"@ {
        Some(TrackAttrs::Publisher)
    } else if s == "composer"@ {
        Some(TrackAttrs::Composer)
    } else if s == "bpm"@ {
        Some(TrackAttrs::Bpm)
    } else if s == "discs"@ {
        Some(TrackAttrs::Discs)
    } else if s == "tracks"@ {
        Some(TrackAttrs::Tracks)
    } else if s == "ispodcast"@ {
        Some(TrackAttrs::IsPodcast)
    } else if s == "podcastchannel"@ {
        Some(TrackAttrs::PodcastChannel)
    } else if s == "podcastpubdate"@ {
        Some(TrackAttrs::PodcastPubdate)
    } else if s == "GracenoteFileID"@ {
        Some(TrackAttrs::GracenoteFileId)
    } else if s == "GracenoteExtData"@ {
        Some(TrackAttrs::GracenoteExtData)
    } else if s == "lossless"@ {
        Some(TrackAttrs::Lossless)
    } else if s == "category"@ {
        Some(TrackAttrs::Category)
    } else if s == "codec"@ {
        Some(TrackAttrs::Codec)
    } else if s == "director"@ {
        Some(TrackAttrs::Director)
    } else if s == "producer"@ {
        Some(TrackAttrs::Producer)
    } else if s == "width"@ {
        Some(TrackAttrs::Width)
    } else if s == "height"@ {
        Some(TrackAttrs::Height)
    } else if s == "mimetype"@ {
        Some(TrackAttrs::MimeType)
    } else if s == "dateadded"@ {
        Some(TrackAttrs::DateAdded)
    } else {
        None
    }
}

/// The kind of value that attribute `a` takes.
pub open spec fn kind_of(a: TrackAttrs) -> ValueKind {
    match a {
        TrackAttrs::Filename => ValueKind::Path,
        TrackAttrs::Artist => ValueKind::Text,
        TrackAttrs::Title => ValueKind::Text,
        TrackAttrs::Album => ValueKind::Text,
        TrackAttrs::Year => ValueKind::Integer,
        TrackAttrs::Genre => ValueKind::Text,
        TrackAttrs::Comment => ValueKind::Text,
        TrackAttrs::TrackNo => ValueKind::Integer,
        TrackAttrs::Length => ValueKind::Length,
        TrackAttrs::Type => ValueKind::Integer,
        TrackAttrs::LastUpd => ValueKind::Datetime,
        TrackAttrs::LastPlay => ValueKind::Datetime,
        TrackAttrs::Rating => ValueKind::Integer,
        TrackAttrs::Tuid2 => ValueKind::Text,
        TrackAttrs::PlayCount => ValueKind::Integer,
        TrackAttrs::Filetime => ValueKind::Datetime,
        TrackAttrs::Filesize => ValueKind::Int64,
        TrackAttrs::Bitrate => ValueKind::Integer,
        TrackAttrs::Disc => ValueKind::Integer,
        TrackAttrs::Albumartist => ValueKind::Text,
        TrackAttrs::ReplaygainAlbumGain => ValueKind::Text,
        TrackAttrs::ReplaygainTrackGain => ValueKind::Text,
        TrackAttrs::Publisher => ValueKind::Text,
        TrackAttrs::Composer => ValueKind::Text,
        TrackAttrs::Bpm => ValueKind::Integer,
        TrackAttrs::Discs => ValueKind::Integer,
        TrackAttrs::Tracks => ValueKind::Integer,
        TrackAttrs::IsPodcast => ValueKind::Integer,
        TrackAttrs::PodcastChannel => ValueKind::Text,
        TrackAttrs::PodcastPubdate => ValueKind::Integer,
        TrackAttrs::GracenoteFileId => ValueKind::Text,
        TrackAttrs::GracenoteExtData => ValueKind::Text,
        TrackAttrs::Lossless => ValueKind::Integer,
        TrackAttrs::Category => ValueKind::Text,
        TrackAttrs::Codec => ValueKind::Text,
        TrackAttrs::Director => ValueKind::Text,
        TrackAttrs::Producer => ValueKind::Text,
        TrackAttrs::Width => ValueKind::Integer,
        TrackAttrs::Height => ValueKind::Integer,
        TrackAttrs::MimeType => ValueKind::Text,
        TrackAttrs::DateAdded => ValueKind::Datetime,
    }
}

/// Whether a payload is of the kind that attribute `a` takes.
pub open spec fn accepts(a: TrackAttrs, pl: Payload) -> bool {
    match kind_of(a) {
        ValueKind::Path => pl is Filename,
        ValueKind::Text => pl is String,
        ValueKind::Integer => pl is Integer,
        ValueKind::Length => pl is Length,
        ValueKind::Datetime => pl is Datetime,
        ValueKind::Int64 => pl is Int64,
    }
}

impl TrackAttrs {
    pub fn kind(&self) -> (r: ValueKind)
        ensures
            r == kind_of(*self),
    {
        match self {
            TrackAttrs::Filename => ValueKind::Path,
            TrackAttrs::Artist => ValueKind::Text,
            TrackAttrs::Title => ValueKind::Text,
            TrackAttrs::Album => ValueKind::Text,
            TrackAttrs::Year => ValueKind::Integer,
            TrackAttrs::Genre => ValueKind::Text,
            TrackAttrs::Comment => ValueKind::Text,
            TrackAttrs::TrackNo => ValueKind::Integer,
            TrackAttrs::Length => ValueKind::Length,
            TrackAttrs::Type => ValueKind::Integer,
            TrackAttrs::LastUpd => ValueKind::Datetime,
            TrackAttrs::LastPlay => ValueKind::Datetime,
            TrackAttrs::Rating => ValueKind::Integer,
            TrackAttrs::Tuid2 => ValueKind::Text,
            TrackAttrs::PlayCount => ValueKind::Integer,
            TrackAttrs::Filetime => ValueKind::Datetime,
            TrackAttrs::Filesize => ValueKind::Int64,
            TrackAttrs::Bitrate => ValueKind::Integer,
            TrackAttrs::Disc => ValueKind::Integer,
            TrackAttrs::Albumartist => ValueKind::Text,
            TrackAttrs::ReplaygainAlbumGain => ValueKind::Text,
            TrackAttrs::ReplaygainTrackGain => ValueKind::Text,
            TrackAttrs::Publisher => ValueKind::Text,
            TrackAttrs::Composer => ValueKind::Text,
            TrackAttrs::Bpm => ValueKind::Integer,
            TrackAttrs::Discs => ValueKind::Integer,
            TrackAttrs::Tracks => ValueKind::Integer,
            TrackAttrs::IsPodcast => ValueKind::Integer,
            TrackAttrs::PodcastChannel => ValueKind::Text,
            TrackAttrs::PodcastPubdate => ValueKind::Integer,
            TrackAttrs::GracenoteFileId => ValueKind::Text,
            TrackAttrs::GracenoteExtData => ValueKind::Text,
            TrackAttrs::Lossless => ValueKind::Integer,
            TrackAttrs::Category => ValueKind::Text,
            TrackAttrs::Codec => ValueKind::Text,
            TrackAttrs::Director => ValueKind::Text,
            TrackAttrs::Producer => ValueKind::Text,
            TrackAttrs::Width => ValueKind::Integer,
            TrackAttrs::Height => ValueKind::Integer,
            TrackAttrs::MimeType => ValueKind::Text,
            TrackAttrs::DateAdded => ValueKind::Datetime,
        }
    }
}

/// Whether `a` and `b` hold the same characters.
pub(crate) fn same_text(a: &str, b: &str) -> (r: bool)
    ensures
        r == (a@ == b@),
{
    let n = a.unicode_len();
    if n != b.unicode_len() {
        return false;
    }
    let mut i: usize = 0;
    while i < n
        invariant
            n == a@.len(),
            n == b@.len(),
            i <= n,
            a@.subrange(0, i as int) == b@.subrange(0, i as int),
        decreases n - i,
    {
        if a.get_char(i) != b.get_char(i) {
            return false;
        }
        i = i + 1;
        assert(a@.subrange(0, i as int) =~= b@.subrange(0, i as int));
    }
    assert(a@ =~= a@.subrange(0, n as int));
    assert(b@ =~= b@.subrange(0, n as int));
    true
}

/// The attribute that a column named `name` maps onto, if any.
pub fn attr_for_name(name: &str) -> (r: Option<TrackAttrs>)
    ensures
        r == attr_named(name@),
{
    if same_text(name, "filename") {
        Some(TrackAttrs::Filename)
    } else if same_text(name, "artist") {
        Some(TrackAttrs::Artist)
    } else if same_text(name, "title") {
        Some(TrackAttrs::Title)
    } else if same_text(name, "album") {
        Some(TrackAttrs::Album)
    } else if same_text(name, "year") {
        Some(TrackAttrs::Year)
    } else if same_text(name, "genre") {
        Some(TrackAttrs::Genre)
    } else if same_text(name, "comment") {
        Some(TrackAttrs::Comment)
    } else if same_text(name, "trackno") {
        Some(TrackAttrs::TrackNo)
    } else if same_text(name, "length") {
        Some(TrackAttrs::Length)
    } else if same_text(name, "type") {
        Some(TrackAttrs::Type)
    } else if same_text(name, "lastupd") {
        Some(TrackAttrs::LastUpd)
    } else if same_text(name, "lastplay") {
        Some(TrackAttrs::LastPlay)
    } else if same_text(name, "rating") {
        Some(TrackAttrs::Rating)
    } else if same_text(name, "tuid2") {
        Some(TrackAttrs::Tuid2)
    } else if same_text(name, "playcount") {
        Some(TrackAttrs::PlayCount)
    } else if same_text(name, "filetime") {
        Some(TrackAttrs::Filetime)
    } else if same_text(name, "filesize") {
        Some(TrackAttrs::Filesize)
    } else if same_text(name, "bitrate") {
        Some(TrackAttrs::Bitrate)
    } else if same_text(name, "disc") {
        Some(TrackAttrs::Disc)
    } else if same_text(name, "albumartist") {
        Some(TrackAttrs::Albumartist)
    } else if same_text(name, "replaygain_album_gain") {
        Some(TrackAttrs::ReplaygainAlbumGain)
    } else if same_text(name, "replaygain_track_gain") {
        Some(TrackAttrs::ReplaygainTrackGain)
    } else if same_text(name, "publisher") {
        Some(TrackAttrs::Publisher)
    } else if same_text(name, "composer") {
        Some(TrackAttrs::Composer)
    } else if same_text(name, "bpm") {
        Some(TrackAttrs::Bpm)
    } else if same_text(name, "discs") {
        Some(TrackAttrs::Discs)
    } else if same_text(name, "tracks") {
        Some(TrackAttrs::Tracks)
    } else if same_text(name, "ispodcast") {
        Some(TrackAttrs::IsPodcast)
    } else if same_text(name, "podcastchannel") {
        Some(TrackAttrs::PodcastChannel)
    } else if same_text(name, "podcastpubdate") {
        Some(TrackAttrs::PodcastPubdate)
    } else if same_text(name, "GracenoteFileID") {
        Some(TrackAttrs::GracenoteFileId)
    } else if same_text(name, "GracenoteExtData") {
        Some(TrackAttrs::GracenoteExtData)
    } else if same_text(name, "lossless") {
        Some(TrackAttrs::Lossless)
    } else if same_text(name, "category") {
        Some(TrackAttrs::Category)
    } else if same_text(name, "codec") {
        Some(TrackAttrs::Codec)
    } else if same_text(name, "director") {
        Some(TrackAttrs::Director)
    } else if same_text(name, "producer") {
        Some(TrackAttrs::Producer)
    } else if same_text(name, "width") {
        Some(TrackAttrs::Width)
    } else if same_text(name, "height") {
        Some(TrackAttrs::Height)
    } else if same_text(name, "mimetype") {
        Some(TrackAttrs::MimeType)
    } else if same_text(name, "dateadded") {
        Some(TrackAttrs::DateAdded)
    } else {
        None
    }
}

/// Map NDE table columns (discovered at runtime) to track attributes (fixed at compile time).
pub type ColumnMap = HashMap<i32, TrackAttrs>;

/// The column map that a sequence of column fields declares: each column with a known name
/// maps its id onto the attribute of that name; a later column with the same id wins.
pub open spec fn schema_of(cols: Seq<(NdeFieldBase, Payload)>) -> Map<i32, TrackAttrs>
    decreases cols.len(),
{
    if cols.len() == 0 {
        Map::empty()
    } else {
        let prev = schema_of(cols.drop_last());
        let c = cols.last();
        match c.1 {
            Payload::Column { name, .. } => match attr_named(name) {
                Some(a) => prev.insert(c.0.id, a),
                None => prev,
            },
            _ => prev,
        }
    }
}

/// Builds a column map from the columns of a table's first record.
pub fn new_column_map(cols: &Vec<ColumnField>) -> (m: ColumnMap)
    ensures
        m@ == schema_of(cols@.map_values(|c: ColumnField| c@)),
{
    let ghost cs = cols@.map_values(|c: ColumnField| c@);
    let mut col_map: ColumnMap = HashMap::new();
    let mut i: usize = 0;
    while i < cols.len()
        invariant
            cs == cols@.map_values(|c: ColumnField| c@),
            i <= cols@.len(),
            col_map@ == schema_of(cs.take(i as int)),
        decreases cols@.len() - i,
    {
        let col = &cols[i];
        assert(cs.take(i + 1).drop_last() =~= cs.take(i as int));
        assert(cs.take(i + 1).last() == col@);
        match attr_for_name(col.name.as_str()) {
            Some(a) => {
                col_map.insert(col.base.id, a);
            },
            None => {},
        }
        i = i + 1;
    }
    assert(cs.take(i as int) =~= cs);
    col_map
}

/// The payload that fills attribute `a` of a record with fields `fs`: that of the last field
/// whose column maps onto `a` and whose value is of the kind `a` takes.
pub open spec fn last_value(m: Map<i32, TrackAttrs>, fs: Seq<(NdeFieldBase, Payload)>, a: TrackAttrs) -> Option<Payload>
    decreases fs.len(),
{
    if fs.len() == 0 {
        None
    } else {
        let f = fs.last();
        if m.contains_key(f.0.id) && m[f.0.id] == a && accepts(a, f.1) {
            Some(f.1)
        } else {
            last_value(m, fs.drop_last(), a)
        }
    }
}

/// A payload that `last_value` yields is of the kind that the attribute takes.
proof fn lemma_last_value_accepted(
    m: Map<i32, TrackAttrs>,
    fs: Seq<(NdeFieldBase, Payload)>,
    a: TrackAttrs,
)
    ensures
        last_value(m, fs, a) matches Some(pl) ==> accepts(a, pl),
    decreases fs.len(),
{
    if fs.len() > 0 {
        lemma_last_value_accepted(m, fs.drop_last(), a);
    }
}

/// Whether field `f` carries a value of kind `k`.
fn carries(f: &NdeField, k: ValueKind) -> (r: bool)
    ensures
        r == match k {
            ValueKind::Path => f@.1 is Filename,
            ValueKind::Text => f@.1 is String,
            ValueKind::Integer => f@.1 is Integer,
            ValueKind::Length => f@.1 is Length,
            ValueKind::Datetime => f@.1 is Datetime,
            ValueKind::Int64 => f@.1 is Int64,
        },
{
    match (k, f) {
        (ValueKind::Path, NdeField::Filename(_)) => true,
        (ValueKind::Text, NdeField::String(_)) => true,
        (ValueKind::Integer, NdeField::Integer(_)) => true,
        (ValueKind::Length, NdeField::Length(_)) => true,
        (ValueKind::Datetime, NdeField::Datetime(_)) => true,
        (ValueKind::Int64, NdeField::Int64(_)) => true,
        _ => false,
    }
}

/// The position of the field that fills attribute `a`, as `last_value` describes.
fn find_last(m: &ColumnMap, fields: &Vec<NdeField>, a: TrackAttrs) -> (r: Option<usize>)
    ensures
        match r {
            None => last_value(m@, views(fields@), a) is None,
            Some(j) => j < fields@.len() && last_value(m@, views(fields@), a) == Some(
                fields@[j as int]@.1,
            ) && accepts(a, fields@[j as int]@.1),
        },
{
    let ghost fs = views(fields@);
    let k = a.kind();
    let mut found: Option<usize> = None;
    let mut i: usize = 0;
    while i < fields.len()
        invariant
            fs == views(fields@),
            k == kind_of(a),
            i <= fields@.len(),
            match found {
                None => last_value(m@, fs.take(i as int), a) is None,
                Some(j) => j < i && last_value(m@, fs.take(i as int), a) == Some(fs[j as int].1),
            },
        decreases fields@.len() - i,
    {
        let f = &fields[i];
        assert(fs.take(i + 1).drop_last() =~= fs.take(i as int));
        assert(fs.take(i + 1).last() == f@);
        match m.get(&f.id()) {
            Some(b) => {
                if *b == a && carries(f, k) {
                    found = Some(i);
                }
            },
            None => {},
        }
        i = i + 1;
    }
    assert(fs.take(i as int) =~= fs);
    proof {
        lemma_last_value_accepted(m@, fs, a);
    }
    found
}

fn text_attr(m: &ColumnMap, fields: &Vec<NdeField>, a: TrackAttrs) -> (r: Option<String>)
    requires
        kind_of(a) == ValueKind::Text,
    ensures
        text_slot(r) == last_value(m@, views(fields@), a),
{
    match find_last(m, fields, a) {
        None => None,
        Some(j) => match &fields[j] {
            NdeField::String(f) => Some(f.text.clone()),
            _ => None,
        },
    }
}

fn integer_attr(m: &ColumnMap, fields: &Vec<NdeField>, a: TrackAttrs) -> (r: Option<i32>)
    requires
        kind_of(a) == ValueKind::Integer,
    ensures
        integer_slot(r) == last_value(m@, views(fields@), a),
{
    match find_last(m, fields, a) {
        None => None,
        Some(j) => match &fields[j] {
            NdeField::Integer(f) => Some(f.data),
            _ => None,
        },
    }
}

fn length_attr(m: &ColumnMap, fields: &Vec<NdeField>, a: TrackAttrs) -> (r: Option<i32>)
    requires
        kind_of(a) == ValueKind::Length,
    ensures
        length_slot(r) == last_value(m@, views(fields@), a),
{
    match find_last(m, fields, a) {
        None => None,
        Some(j) => match &fields[j] {
            NdeField::Length(f) => Some(f.data),
            _ => None,
        },
    }
}

fn datetime_attr(m: &ColumnMap, fields: &Vec<NdeField>, a: TrackAttrs) -> (r: Option<i32>)
    requires
        kind_of(a) == ValueKind::Datetime,
    ensures
        datetime_slot(r) == last_value(m@, views(fields@), a),
{
    match find_last(m, fields, a) {
        None => None,
        Some(j) => match &fields[j] {
            NdeField::Datetime(f) => Some(f.data),
            _ => None,
        },
    }
}

fn int64_attr(m: &ColumnMap, fields: &Vec<NdeField>, a: TrackAttrs) -> (r: Option<i64>)
    requires
        kind_of(a) == ValueKind::Int64,
    ensures
        int64_slot(r) == last_value(m@, views(fields@), a),
{
    match find_last(m, fields, a) {
        None => None,
        Some(j) => match &fields[j] {
            NdeField::Int64(f) => Some(f.data),
            _ => None,
        },
    }
}

/// A Winamp Music Library track.
#[derive(Debug)]
pub struct Track {
    pub filename: String,
    pub artist: Option<String>,
    pub title: Option<String>,
    pub album: Option<String>,
    pub year: Option<i32>,
    pub genre: Option<String>,
    pub comment: Option<String>,
    pub trackno: Option<i32>,
    pub length: Option<i32>,
    pub ttype: Option<i32>,
    pub lastupd: Option<i32>,
    pub lastplay: Option<i32>,
    pub rating: Option<i32>,
    pub tuid2: Option<String>,
    pub play_count: Option<i32>,
    pub filetime: Option<i32>,
    pub filesize: Option<i64>,
    pub bitrate: Option<i32>,
    pub disc: Option<i32>,
    pub albumartist: Option<String>,
    pub replaygain_album_gain: Option<String>,
    pub replaygain_track_gain: Option<String>,
    pub publisher: Option<String>,
    pub composer: Option<String>,
    pub bpm: Option<i32>,
    pub discs: Option<i32>,
    pub tracks: Option<i32>,
    pub is_podcast: Option<i32>,
    pub podcast_channel: Option<String>,
    pub podcast_pubdate: Option<i32>,
    pub gracenote_file_id: Option<String>,
    pub gracenote_ext_data: Option<String>,
    pub lossless: Option<i32>,
    pub category: Option<String>,
    pub codec: Option<String>,
    pub director: Option<String>,
    pub producer: Option<String>,
    pub width: Option<i32>,
    pub height: Option<i32>,
    pub mimetype: Option<String>,
    pub date_added: Option<i32>,
}

/// The payload that the value of a string attribute stands for.
pub open spec fn text_slot(v: Option<String>) -> Option<Payload> {
    match v {
        Some(s) => Some(Payload::String(s@)),
        None => None,
    }
}

/// The payload that the value of an integer attribute stands for.
pub open spec fn integer_slot(v: Option<i32>) -> Option<Payload> {
    match v {
        Some(x) => Some(Payload::Integer(x)),
        None => None,
    }
}

/// The payload that the value of a length attribute stands for.
pub open spec fn length_slot(v: Option<i32>) -> Option<Payload> {
    match v {
        Some(x) => Some(Payload::Length(x)),
        None => None,
    }
}

/// The payload that the value of a date attribute stands for.
pub open spec fn datetime_slot(v: Option<i32>) -> Option<Payload> {
    match v {
        Some(x) => Some(Payload::Datetime(x)),
        None => None,
    }
}

/// The payload that the value of a 64-bit integer attribute stands for.
pub open spec fn int64_slot(v: Option<i64>) -> Option<Payload> {
    match v {
        Some(x) => Some(Payload::Int64(x)),
        None => None,
    }
}

impl Track {
    /// The payload that fills attribute `a` of this track, if any.
    pub open spec fn attr(&self, a: TrackAttrs) -> Option<Payload> {
        match a {
            TrackAttrs::Filename => Some(Payload::Filename(self.filename@)),
            TrackAttrs::Artist => text_slot(self.artist),
            TrackAttrs::Title => text_slot(self.title),
            TrackAttrs::Album => text_slot(self.album),
            TrackAttrs::Year => integer_slot(self.year),
            TrackAttrs::Genre => text_slot(self.genre),
            TrackAttrs::Comment => text_slot(self.comment),
            TrackAttrs::TrackNo => integer_slot(self.trackno),
            TrackAttrs::Length => length_slot(self.length),
            TrackAttrs::Type => integer_slot(self.ttype),
            TrackAttrs::LastUpd => datetime_slot(self.lastupd),
            TrackAttrs::LastPlay => datetime_slot(self.lastplay),
            TrackAttrs::Rating => integer_slot(self.rating),
            TrackAttrs::Tuid2 => text_slot(self.tuid2),
            TrackAttrs::PlayCount => integer_slot(self.play_count),
            TrackAttrs::Filetime => datetime_slot(self.filetime),
            TrackAttrs::Filesize => int64_slot(self.filesize),
            TrackAttrs::Bitrate => integer_slot(self.bitrate),
            TrackAttrs::Disc => integer_slot(self.disc),
            TrackAttrs::Albumartist => text_slot(self.albumartist),
            TrackAttrs::ReplaygainAlbumGain => text_slot(self.replaygain_album_gain),
            TrackAttrs::ReplaygainTrackGain => text_slot(self.replaygain_track_gain),
            TrackAttrs::Publisher => text_slot(self.publisher),
            TrackAttrs::Composer => text_slot(self.composer),
            TrackAttrs::Bpm => integer_slot(self.bpm),
            TrackAttrs::Discs => integer_slot(self.discs),
            TrackAttrs::Tracks => integer_slot(self.tracks),
            TrackAttrs::IsPodcast => integer_slot(self.is_podcast),
            TrackAttrs::PodcastChannel => text_slot(self.podcast_channel),
            TrackAttrs::PodcastPubdate => integer_slot(self.podcast_pubdate),
            TrackAttrs::GracenoteFileId => text_slot(self.gracenote_file_id),
            TrackAttrs::GracenoteExtData => text_slot(self.gracenote_ext_data),
            TrackAttrs::Lossless => integer_slot(self.lossless),
            TrackAttrs::Category => text_slot(self.category),
            TrackAttrs::Codec => text_slot(self.codec),
            TrackAttrs::Director => text_slot(self.director),
            TrackAttrs::Producer => text_slot(self.producer),
            TrackAttrs::Width => integer_slot(self.width),
            TrackAttrs::Height => integer_slot(self.height),
            TrackAttrs::MimeType => text_slot(self.mimetype),
            TrackAttrs::DateAdded => datetime_slot(self.date_added),
        }
    }

    /// Builds the track for a record from its fields: each field whose column maps onto an
    /// attribute, and whose value is of the kind that the attribute takes, fills that
    /// attribute, a later field over an earlier one. Other fields are ignored. The file name is
    /// required.
    pub fn new(col_map: &ColumnMap, fields: &Vec<NdeField>) -> (r: Result<Track>)
        ensures
            match r {
                Ok(t) => forall|a: TrackAttrs| #[trigger] t.attr(a) == last_value(col_map@, views(fields@), a),
                Err(e) => last_value(col_map@, views(fields@), TrackAttrs::Filename) is None
                    && e.cause == Cause::NoFilename,
            },
    {
        let filename = match find_last(col_map, fields, TrackAttrs::Filename) {
            Some(j) => match &fields[j] {
                NdeField::Filename(f) => f.path.clone(),
                _ => {
                    return Err(Error { cause: Cause::NoFilename });
                },
            },
            None => {
                return Err(Error { cause: Cause::NoFilename });
            },
        };
        let artist = text_attr(col_map, fields, TrackAttrs::Artist);
        let title = text_attr(col_map, fields, TrackAttrs::Title);
        let album = text_attr(col_map, fields, TrackAttrs::Album);
        let year = integer_attr(col_map, fields, TrackAttrs::Year);
        let genre = text_attr(col_map, fields, TrackAttrs::Genre);
        let comment = text_attr(col_map, fields, TrackAttrs::Comment);
        let trackno = integer_attr(col_map, fields, TrackAttrs::TrackNo);
        let length = length_attr(col_map, fields, TrackAttrs::Length);
        let ttype = integer_attr(col_map, fields, TrackAttrs::Type);
        let lastupd = datetime_attr(col_map, fields, TrackAttrs::LastUpd);
        let lastplay = datetime_attr(col_map, fields, TrackAttrs::LastPlay);
        let rating = integer_attr(col_map, fields, TrackAttrs::Rating);
        let tuid2 = text_attr(col_map, fields, TrackAttrs::Tuid2);
        let play_count = integer_attr(col_map, fields, TrackAttrs::PlayCount);
        let filetime = datetime_attr(col_map, fields, TrackAttrs::Filetime);
        let filesize = int64_attr(col_map, fields, TrackAttrs::Filesize);
        let bitrate = integer_attr(col_map, fields, TrackAttrs::Bitrate);
        let disc = integer_attr(col_map, fields, TrackAttrs::Disc);
        let albumartist = text_attr(col_map, fields, TrackAttrs::Albumartist);
        let replaygain_album_gain = text_attr(col_map, fields, TrackAttrs::ReplaygainAlbumGain);
        let replaygain_track_gain = text_attr(col_map, fields, TrackAttrs::ReplaygainTrackGain);
        let publisher = text_attr(col_map, fields, TrackAttrs::Publisher);
        let composer = text_attr(col_map, fields, TrackAttrs::Composer);
        let bpm = integer_attr(col_map, fields, TrackAttrs::Bpm);
        let discs = integer_attr(col_map, fields, TrackAttrs::Discs);
        let tracks = integer_attr(col_map, fields, TrackAttrs::Tracks);
        let is_podcast = integer_attr(col_map, fields, TrackAttrs::IsPodcast);
        let podcast_channel = text_attr(col_map, fields, TrackAttrs::PodcastChannel);
        let podcast_pubdate = integer_attr(col_map, fields, TrackAttrs::PodcastPubdate);
        let gracenote_file_id = text_attr(col_map, fields, TrackAttrs::GracenoteFileId);
        let gracenote_ext_data = text_attr(col_map, fields, TrackAttrs::GracenoteExtData);
        let lossless = integer_attr(col_map, fields, TrackAttrs::Lossless);
        let category = text_attr(col_map, fields, TrackAttrs::Category);
        let codec = text_attr(col_map, fields, TrackAttrs::Codec);
        let director = text_attr(col_map, fields, TrackAttrs::Director);
        let producer = text_attr(col_map, fields, TrackAttrs::Producer);
        let width = integer_attr(col_map, fields, TrackAttrs::Width);
        let height = integer_attr(col_map, fields, TrackAttrs::Height);
        let mimetype = text_attr(col_map, fields, TrackAttrs::MimeType);
        let date_added = datetime_attr(col_map, fields, TrackAttrs::DateAdded);
        let t = Track {
            filename,
            artist,
            title,
            album,
            year,
            genre,
            comment,
            trackno,
            length,
            ttype,
            lastupd,
            lastplay,
            rating,
            tuid2,
            play_count,
            filetime,
            filesize,
            bitrate,
            disc,
            albumartist,
            replaygain_album_gain,
            replaygain_track_gain,
            publisher,
            composer,
            bpm,
            discs,
            tracks,
            is_podcast,
            podcast_channel,
            podcast_pubdate,
            gracenote_file_id,
            gracenote_ext_data,
            lossless,
            category,
            codec,
            director,
            producer,
            width,
            height,
            mimetype,
            date_added,
        };
        assert forall|a: TrackAttrs| #[trigger] t.attr(a) == last_value(col_map@, views(fields@), a) by {
            match a {
                TrackAttrs::Filename => {},
                TrackAttrs::Artist => {},
                TrackAttrs::Title => {},
                TrackAttrs::Album => {},
                TrackAttrs::Year => {},
                TrackAttrs::Genre => {},
                TrackAttrs::Comment => {},
                TrackAttrs::TrackNo => {},
                TrackAttrs::Length => {},
                TrackAttrs::Type => {},
                TrackAttrs::LastUpd => {},
                TrackAttrs::LastPlay => {},
                TrackAttrs::Rating => {},
                TrackAttrs::Tuid2 => {},
                TrackAttrs::PlayCount => {},
                TrackAttrs::Filetime => {},
                TrackAttrs::Filesize => {},
                TrackAttrs::Bitrate => {},
                TrackAttrs::Disc => {},
                TrackAttrs::Albumartist => {},
                TrackAttrs::ReplaygainAlbumGain => {},
                TrackAttrs::ReplaygainTrackGain => {},
                TrackAttrs::Publisher => {},
                TrackAttrs::Composer => {},
                TrackAttrs::Bpm => {},
                TrackAttrs::Discs => {},
                TrackAttrs::Tracks => {},
                TrackAttrs::IsPodcast => {},
                TrackAttrs::PodcastChannel => {},
                TrackAttrs::PodcastPubdate => {},
                TrackAttrs::GracenoteFileId => {},
                TrackAttrs::GracenoteExtData => {},
                TrackAttrs::Lossless => {},
                TrackAttrs::Category => {},
                TrackAttrs::Codec => {},
                TrackAttrs::Director => {},
                TrackAttrs::Producer => {},
                TrackAttrs::Width => {},
                TrackAttrs::Height => {},
                TrackAttrs::MimeType => {},
                TrackAttrs::DateAdded => {},
            }
        }
        Ok(t)
    }
}

/// A column whose name is no known attribute leaves the column map as it was.
pub proof fn unknown_column_is_ignored(cols: Seq<(NdeFieldBase, Payload)>, c: (NdeFieldBase, Payload))
    requires
        c.1 matches Payload::Column { name, .. } && attr_named(name) is None,
    ensures
        schema_of(cols.push(c)) == schema_of(cols),
{
    assert(cols.push(c).drop_last() =~= cols);
}

/// A column whose name is a known attribute maps its id onto that attribute, and onto it
/// alone.
pub proof fn known_column_is_mapped(
    cols: Seq<(NdeFieldBase, Payload)>,
    c: (NdeFieldBase, Payload),
    a: TrackAttrs,
)
    requires
        c.1 matches Payload::Column { name, .. } && attr_named(name) == Some(a),
    ensures
        schema_of(cols.push(c)) == schema_of(cols).insert(c.0.id, a),
        schema_of(cols.push(c))[c.0.id] == a,
{
    assert(cols.push(c).drop_last() =~= cols);
}

/// A field whose column is not in the map changes nothing: inserted anywhere into a record,
/// it leaves every attribute as it was.
pub proof fn unmapped_field_is_ignored(
    m: Map<i32, TrackAttrs>,
    fs: Seq<(NdeFieldBase, Payload)>,
    i: int,
    extra: (NdeFieldBase, Payload),
    a: TrackAttrs,
)
    requires
        0 <= i <= fs.len(),
        !m.contains_key(extra.0.id),
    ensures
        last_value(m, fs.insert(i, extra), a) == last_value(m, fs, a),
    decreases fs.len(),
{
    if i == fs.len() {
        assert(fs.insert(i, extra).drop_last() =~= fs);
    } else {
        assert(fs.insert(i, extra).drop_last() =~= fs.drop_last().insert(i, extra));
        assert(fs.insert(i, extra).last() == fs.last());
        unmapped_field_is_ignored(m, fs.drop_last(), i, extra, a);
    }
}

} // verus!
