use vstd::prelude::*;
use vstd::utf8::{decode_utf8, valid_utf8};

verus! {

/// Relies on `String::from_utf8`: it succeeds exactly on valid UTF-8, and the
/// string it returns holds the decoded characters.
#[verifier::external_body]
fn text_from_bytes(b: Vec<u8>) -> (r: Option<String>)
    ensures
        r is Some <==> valid_utf8(b@),
        r is Some ==> r->0@ == decode_utf8(b@),
{
    String::from_utf8(b).ok()
}

/// Copies the `n` bytes that start at `start`.
pub fn copy_range(b: &Vec<u8>, start: usize, n: usize) -> (r: Vec<u8>)
    requires
        start + n <= b@.len(),
    ensures
        r@ == b@.subrange(start as int, start + n),
{
    let len: usize = b.len();
    let mut r: Vec<u8> = Vec::with_capacity(n);
    let mut i: usize = 0;
    while i < n
        invariant
            i <= n,
            start + n <= b@.len(),
            len == b@.len(),
            r@ == b@.subrange(start as int, start + i),
        decreases n - i,
    {
        r.push(b[start + i]);
        i = i + 1;
        assert(r@ =~= b@.subrange(start as int, start + i));
    }
    r
}

/// Decodes the `n` bytes at `start` as UTF-8 text.
pub fn read_text(b: &Vec<u8>, start: usize, n: usize) -> (r: Option<String>)
    requires
        start + n <= b@.len(),
    ensures
        r is Some <==> valid_utf8(b@.subrange(start as int, start + n)),
        r is Some ==> r->0@ == decode_utf8(b@.subrange(start as int, start + n)),
{
    text_from_bytes(copy_range(b, start, n))
}

/// The descriptive fields that `LIST`/`INFO` sub-chunks can set.
#[derive(PartialEq, Eq, Structural, Clone, Copy, Debug)]
pub enum InfoField {
    Artist,
    Copyright,
    Date,
    Genre,
    Keywords,
    Name,
    Title,
    Encoder,
    Comments,
    Description,
}

/// The field that an `INFO` sub-tag (four ASCII bytes read little-endian) names.
pub open spec fn info_field_of(tag: int) -> Option<InfoField> {
    if tag == 0x54524149 {
        Some(InfoField::Artist)  // IART
    } else if tag == 0x504f4349 {
        Some(InfoField::Copyright)  // ICOP
    } else if tag == 0x44524349 {
        Some(InfoField::Date)  // ICRD
    } else if tag == 0x524e4749 {
        Some(InfoField::Genre)  // IGNR
    } else if tag == 0x59454b49 {
        Some(InfoField::Keywords)  // IKEY
    } else if tag == 0x4d414e49 {
        Some(InfoField::Name)  // INAM
    } else if tag == 0x44525049 {
        Some(InfoField::Title)  // IPRD
    } else if tag == 0x54465349 {
        Some(InfoField::Encoder)  // ISFT
    } else if tag == 0x544d4349 {
        Some(InfoField::Comments)  // ICMT
    } else if tag == 0x4a425349 {
        Some(InfoField::Description)  // ISBJ
    } else {
        None
    }
}

pub fn info_field(tag: u32) -> (r: Option<InfoField>)
    ensures
        r == info_field_of(tag as int),
{
    match tag {
        0x54524149 => Some(InfoField::Artist),
        0x504f4349 => Some(InfoField::Copyright),
        0x44524349 => Some(InfoField::Date),
        0x524e4749 => Some(InfoField::Genre),
        0x59454b49 => Some(InfoField::Keywords),
        0x4d414e49 => Some(InfoField::Name),
        0x44525049 => Some(InfoField::Title),
        0x54465349 => Some(InfoField::Encoder),
        0x544d4349 => Some(InfoField::Comments),
        0x4a425349 => Some(InfoField::Description),
        _ => None,
    }
}

/// Textual metadata of a container; every field is absent until a sub-chunk sets it.
#[derive(Clone, Debug)]
pub struct AudioMetadata {
    pub album: Option<String>,
    pub artist: Option<String>,
    pub copyright: Option<String>,
    pub date: Option<String>,
    pub genre: Option<String>,
    pub keywords: Option<String>,
    pub name: Option<String>,
    pub title: Option<String>,
    pub comments: Option<String>,
    pub description: Option<String>,
    pub encoder: Option<String>,
}

/// The characters of each metadata field.
pub struct MetadataView {
    pub album: Option<Seq<char>>,
    pub artist: Option<Seq<char>>,
    pub copyright: Option<Seq<char>>,
    pub date: Option<Seq<char>>,
    pub genre: Option<Seq<char>>,
    pub keywords: Option<Seq<char>>,
    pub name: Option<Seq<char>>,
    pub title: Option<Seq<char>>,
    pub comments: Option<Seq<char>>,
    pub description: Option<Seq<char>>,
    pub encoder: Option<Seq<char>>,
}

pub open spec fn text_view(s: Option<String>) -> Option<Seq<char>> {
    match s {
        Some(t) => Some(t@),
        None => None,
    }
}

/// Metadata with no field set.
pub open spec fn empty_metadata() -> MetadataView {
    MetadataView {
        album: None,
        artist: None,
        copyright: None,
        date: None,
        genre: None,
        keywords: None,
        name: None,
        title: None,
        comments: None,
        description: None,
        encoder: None,
    }
}

/// `m` with field `f` set to `t`; a later value replaces an earlier one.
pub open spec fn with_field(m: MetadataView, f: InfoField, t: Seq<char>) -> MetadataView {
    match f {
        InfoField::Artist => MetadataView { artist: Some(t), ..m },
        InfoField::Copyright => MetadataView { copyright: Some(t), ..m },
        InfoField::Date => MetadataView { date: Some(t), ..m },
        InfoField::Genre => MetadataView { genre: Some(t), ..m },
        InfoField::Keywords => MetadataView { keywords: Some(t), ..m },
        InfoField::Name => MetadataView { name: Some(t), ..m },
        InfoField::Title => MetadataView { title: Some(t), ..m },
        InfoField::Encoder => MetadataView { encoder: Some(t), ..m },
        InfoField::Comments => MetadataView { comments: Some(t), ..m },
        InfoField::Description => MetadataView { description: Some(t), ..m },
    }
}

impl View for AudioMetadata {
    type V = MetadataView;

    open spec fn view(&self) -> MetadataView {
        MetadataView {
            album: text_view(self.album),
            artist: text_view(self.artist),
            copyright: text_view(self.copyright),
            date: text_view(self.date),
            genre: text_view(self.genre),
            keywords: text_view(self.keywords),
            name: text_view(self.name),
            title: text_view(self.title),
            comments: text_view(self.comments),
            description: text_view(self.description),
            encoder: text_view(self.encoder),
        }
    }
}

impl AudioMetadata {
    pub fn new() -> (r: AudioMetadata)
        ensures
            r@ == empty_metadata(),
    {
        AudioMetadata {
            album: None,
            artist: None,
            copyright: None,
            date: None,
            genre: None,
            keywords: None,
            name: None,
            title: None,
            comments: None,
            description: None,
            encoder: None,
        }
    }

    /// Sets one field, replacing what it held.
    pub fn set_field(&mut self, f: InfoField, t: String)
        ensures
            final(self)@ == with_field(old(self)@, f, t@),
    {
        match f {
            InfoField::Artist => self.artist = Some(t),
            InfoField::Copyright => self.copyright = Some(t),
            InfoField::Date => self.date = Some(t),
            InfoField::Genre => self.genre = Some(t),
            InfoField::Keywords => self.keywords = Some(t),
            InfoField::Name => self.name = Some(t),
            InfoField::Title => self.title = Some(t),
            InfoField::Encoder => self.encoder = Some(t),
            InfoField::Comments => self.comments = Some(t),
            InfoField::Description => self.description = Some(t),
        }
    }
}

} // verus!
