//! The EPUB builder: metadata, content files, resources, and the assembly
//! of the fixed documents (`content.opf`, `toc.ncx`, `nav.xhtml`) around the
//! rendered table of contents.
//!
//! Values that collaborators produce (a timestamp, a fresh identifier) are
//! carried as plain fields — a date as its calendar and clock numbers, an
//! identifier as its 128 bits — and all formatting of them is verified here.

use vstd::prelude::*;

use crate::common::append_str;
use crate::common::chars_to_string;
use crate::common::dec_str;
use crate::common::indent;
use crate::common::indent_text;
use crate::common::join_nl;
use crate::common::lemma_join_nl_concat;
use crate::common::lemma_join_nl_push;
use crate::common::str_eq;
use crate::common::subvec;
use crate::common::to_chars;
use crate::common::u32_dec_chars;
use crate::common::u64_dec_chars;
use crate::escape::enc_html;
use crate::escape::encode_html;
use crate::escape::esc_attr;
use crate::escape::esc_text;
use crate::escape::escape_attr_exec;
use crate::escape::escape_text_exec;
use crate::epub_content::EpubContent;
use crate::epub_content::ReferenceType;
use crate::escape::lower_of;
use crate::escape::lowercase_exec;
use crate::toc::count_models;
use crate::toc::toc_insert;
use crate::toc::ElemModel;
use crate::toc::Toc;
use crate::toc::TocElement;
use crate::zip::Zip;
use crate::Error;

use chrono::Datelike;
use chrono::Timelike;

verus! {

/// Represents the EPUB version.
///
/// Currently, this library supports EPUB 2.0.1 and 3.0.1.
#[non_exhaustive]
#[derive(Debug, Copy, Clone, PartialOrd, PartialEq, Eq, Structural)]
pub enum EpubVersion {
    /// EPUB 2.0.1 format
    V20,
    /// EPUB 3.0.1 format
    V30,
}

/// The page-progression-direction attribute of spine is a global attribute
/// and therefore defines the pagination flow of the book as a whole.
#[derive(Debug, Copy, Clone, PartialEq, Eq, Structural)]
pub enum PageDirection {
    /// Left to right
    Ltr,
    /// Right to left
    Rtl,
}

/// The attribute text of a page direction.
pub open spec fn direction_str(d: PageDirection) -> Seq<char> {
    match d {
        PageDirection::Rtl => "rtl"@,
        PageDirection::Ltr => "ltr"@,
    }
}

impl PageDirection {
    /// The direction as attribute text: `"ltr"` or `"rtl"`.
    pub fn to_string(&self) -> (r: String)
        ensures
            r@ == direction_str(*self),
    {
        match self {
            PageDirection::Rtl => "rtl".to_owned(),
            PageDirection::Ltr => "ltr".to_owned(),
        }
    }

    /// Parse a direction, ignoring case: exactly the texts that lowercase to
    /// `"ltr"` or `"rtl"` are accepted, and anything else is reported back,
    /// lowercased, in the error.
    pub fn from_str(s: &str) -> (r: Result<PageDirection, Error>)
        ensures
            (match r {
                Ok(d) => (lower_of(s@) == "rtl"@ || lower_of(s@) == "ltr"@) && (lower_of(s@)
                    == "rtl"@ ==> d is Rtl) && (lower_of(s@) == "ltr"@ ==> d is Ltr),
                Err(e) => lower_of(s@) != "rtl"@ && lower_of(s@) != "ltr"@ && (match e {
                    Error::PageDirectionError(m) => m@ == lower_of(s@),
                    _ => false,
                }),
            }),
    {
        proof {
            reveal_strlit("rtl");
            reveal_strlit("ltr");
        }
        let lower = lowercase_exec(s);
        let rtl: String = "rtl".to_owned();
        let ltr: String = "ltr".to_owned();
        proof {
            assert("rtl"@[0] == 'r');
            assert("ltr"@[0] == 'l');
            assert("rtl"@ != "ltr"@);
        }
        if lower == rtl {
            Ok(PageDirection::Rtl)
        } else if lower == ltr {
            Ok(PageDirection::Ltr)
        } else {
            Err(Error::PageDirectionError(lower))
        }
    }
}

impl Default for PageDirection {
    /// Left to right, unless said otherwise.
    fn default() -> (r: PageDirection)
        ensures
            r is Ltr,
    {
        PageDirection::Ltr
    }
}

/// Represents the EPUB `<meta>` content inside the `content.opf` file.
#[derive(Debug)]
pub struct MetadataOpf {
    /// Name of the `<meta>` tag
    pub name: String,
    /// Content of the `<meta>` tag
    pub content: String,
}

impl MetadataOpf {
    /// Create a new instance with the given name and content.
    pub fn new(&self, meta_name: String, meta_content: String) -> (r: Self)
        ensures
            r.name@ == meta_name@,
            r.content@ == meta_content@,
    {
        Self { name: meta_name, content: meta_content }
    }
}

/// A moment in UTC, carried as plain calendar and clock fields.
///
/// The builder never computes with time; whoever owns a clock (or a date
/// from elsewhere) hands the numbers over, and this type formats them.
#[derive(Debug, Copy, Clone, PartialEq, Eq, Structural)]
pub struct EpubDate {
    /// Calendar year (0 through 9999)
    pub year: u32,
    /// Calendar month, 1-based
    pub month: u32,
    /// Day of the month, 1-based
    pub day: u32,
    /// Hour of the day, 0 through 23
    pub hour: u32,
    /// Minute, 0 through 59
    pub minute: u32,
    /// Second, 0 through 59
    pub second: u32,
}

/// Two decimal digits, zero-padded.
pub open spec fn pad2(n: int) -> Seq<char> {
    if n < 10 {
        "0"@ + dec_str(n)
    } else {
        dec_str(n)
    }
}

/// Four decimal digits, zero-padded.
pub open spec fn pad4(n: int) -> Seq<char> {
    if n < 10 {
        "000"@ + dec_str(n)
    } else if n < 100 {
        "00"@ + dec_str(n)
    } else if n < 1000 {
        "0"@ + dec_str(n)
    } else {
        dec_str(n)
    }
}

impl EpubDate {
    /// The fields lie in their calendar and clock ranges.
    pub open spec fn wf(self) -> bool {
        self.year <= 9999 && 1 <= self.month <= 12 && 1 <= self.day <= 31 && self.hour <= 23
            && self.minute <= 59 && self.second <= 59
    }

    /// The date-and-time text the EPUB metadata carries.
    pub open spec fn iso_text(self) -> Seq<char> {
        pad4(self.year as int) + "-"@ + pad2(self.month as int) + "-"@ + pad2(self.day as int)
            + "T"@ + pad2(self.hour as int) + ":"@ + pad2(self.minute as int) + ":"@ + pad2(
            self.second as int,
        ) + "Z"@
    }

    /// Format the moment as `YYYY-MM-DDThh:mm:ssZ`.
    pub fn format_iso(&self) -> (r: String)
        requires
            self.wf(),
        ensures
            r@ == self.iso_text(),
    {
        let mut out = pad4_chars(self.year);
        append_str(&mut out, "-");
        let mut piece = pad2_chars(self.month);
        out.append(&mut piece);
        append_str(&mut out, "-");
        let mut piece = pad2_chars(self.day);
        out.append(&mut piece);
        append_str(&mut out, "T");
        let mut piece = pad2_chars(self.hour);
        out.append(&mut piece);
        append_str(&mut out, ":");
        let mut piece = pad2_chars(self.minute);
        out.append(&mut piece);
        append_str(&mut out, ":");
        let mut piece = pad2_chars(self.second);
        out.append(&mut piece);
        append_str(&mut out, "Z");
        chars_to_string(&out)
    }
}

/// `n` as two zero-padded decimal digits.
fn pad2_chars(n: u32) -> (r: Vec<char>)
    requires
        n < 100,
    ensures
        r@ == pad2(n as int),
{
    if n < 10 {
        let mut out = to_chars("0");
        let mut digits = u32_dec_chars(n);
        out.append(&mut digits);
        out
    } else {
        u32_dec_chars(n)
    }
}

/// `n` as four zero-padded decimal digits.
fn pad4_chars(n: u32) -> (r: Vec<char>)
    requires
        n < 10000,
    ensures
        r@ == pad4(n as int),
{
    if n < 10 {
        let mut out = to_chars("000");
        let mut digits = u32_dec_chars(n);
        out.append(&mut digits);
        out
    } else if n < 100 {
        let mut out = to_chars("00");
        let mut digits = u32_dec_chars(n);
        out.append(&mut digits);
        out
    } else if n < 1000 {
        let mut out = to_chars("0");
        let mut digits = u32_dec_chars(n);
        out.append(&mut digits);
        out
    } else {
        u32_dec_chars(n)
    }
}

/// The hexadecimal digit `d` as a lowercase character.
pub open spec fn hex_char_of(d: int) -> char {
    if d == 0 {
        '0'
    } else if d == 1 {
        '1'
    } else if d == 2 {
        '2'
    } else if d == 3 {
        '3'
    } else if d == 4 {
        '4'
    } else if d == 5 {
        '5'
    } else if d == 6 {
        '6'
    } else if d == 7 {
        '7'
    } else if d == 8 {
        '8'
    } else if d == 9 {
        '9'
    } else if d == 10 {
        'a'
    } else if d == 11 {
        'b'
    } else if d == 12 {
        'c'
    } else if d == 13 {
        'd'
    } else if d == 14 {
        'e'
    } else {
        'f'
    }
}

/// The lowest `count` hexadecimal digits of `n`, most significant first,
/// zero-padded to `count` characters.
pub open spec fn hex_nibbles(n: int, count: nat) -> Seq<char>
    decreases count,
{
    if count == 0 {
        Seq::empty()
    } else {
        hex_nibbles(n / 16, (count - 1) as nat).push(hex_char_of(n % 16))
    }
}

pub proof fn lemma_hex_nibbles_len(n: int, count: nat)
    ensures
        hex_nibbles(n, count).len() == count,
    decreases count,
{
    if count > 0 {
        lemma_hex_nibbles_len(n / 16, (count - 1) as nat);
    }
}

/// The URN form of a 128-bit identifier: `urn:uuid:` and the 32 hex digits
/// in the usual 8-4-4-4-12 grouping.
pub open spec fn urn_text(n: u128) -> Seq<char> {
    let full = hex_nibbles(n as int, 32);
    "urn:uuid:"@ + full.subrange(0, 8) + "-"@ + full.subrange(8, 12) + "-"@ + full.subrange(12, 16)
        + "-"@ + full.subrange(16, 20) + "-"@ + full.subrange(20, 32)
}

/// The hexadecimal digit for `d`, as an executable character.
fn hex_digit(d: u128) -> (c: char)
    requires
        d < 16,
    ensures
        c == hex_char_of(d as int),
{
    match d {
        0 => '0',
        1 => '1',
        2 => '2',
        3 => '3',
        4 => '4',
        5 => '5',
        6 => '6',
        7 => '7',
        8 => '8',
        9 => '9',
        10 => 'a',
        11 => 'b',
        12 => 'c',
        13 => 'd',
        14 => 'e',
        _ => 'f',
    }
}

/// The lowest `count` hexadecimal digits of `n`.
fn hex_chars(n: u128, count: u32) -> (r: Vec<char>)
    ensures
        r@ == hex_nibbles(n as int, count as nat),
    decreases count,
{
    if count == 0 {
        let r: Vec<char> = Vec::new();
        assert(r@ =~= hex_nibbles(n as int, 0));
        r
    } else {
        let mut v = hex_chars(n / 16, count - 1);
        v.push(hex_digit(n % 16));
        v
    }
}

/// Format a 128-bit identifier as a `urn:uuid:` URN.
pub fn format_urn(n: u128) -> (r: String)
    ensures
        r@ == urn_text(n),
{
    let full = hex_chars(n, 32);
    proof {
        lemma_hex_nibbles_len(n as int, 32);
    }
    let mut out = to_chars("urn:uuid:");
    let mut piece = subvec(&full, 0, 8);
    out.append(&mut piece);
    append_str(&mut out, "-");
    let mut piece = subvec(&full, 8, 12);
    out.append(&mut piece);
    append_str(&mut out, "-");
    let mut piece = subvec(&full, 12, 16);
    out.append(&mut piece);
    append_str(&mut out, "-");
    let mut piece = subvec(&full, 16, 20);
    out.append(&mut piece);
    append_str(&mut out, "-");
    let mut piece = subvec(&full, 20, 32);
    out.append(&mut piece);
    chars_to_string(&out)
}

/// Whether `c` may stand in a generated XML id.
///
/// The actual rules for IDs are the NCName rules of the XML namespaces
/// recommendation; the set here follows that ruleset, slightly more
/// permissively (some accepted characters are invalid as a first character,
/// which is fine because every generated id starts with a fixed prefix).
pub open spec fn is_id_char_spec(c: char) -> bool {
    let u = c as u32;
    (0x41 <= u <= 0x5A) || u == 0x5F || (0x61 <= u <= 0x7A) || (0xC0 <= u <= 0xD6) || (0xD8 <= u
        <= 0xF6) || (0xF8 <= u <= 0x2FF) || (0x370 <= u <= 0x37D) || (0x37F <= u <= 0x1FFF) || (
    0x200C <= u <= 0x200D) || (0x2070 <= u <= 0x218F) || (0x2C00 <= u <= 0x2FEF) || (0x3001 <= u
        <= 0xD7FF) || (0xF900 <= u <= 0xFDCF) || (0xFDF0 <= u <= 0xFFFD) || (0x10000 <= u
        <= 0xEFFFF) || u == 0x2D || u == 0x2E || (0x30 <= u <= 0x39) || u == 0xB7 || (0x300 <= u
        <= 0x36F) || (0x203F <= u <= 0x2040)
}

/// Executable form of [`is_id_char_spec`].
pub fn is_id_char(c: char) -> (r: bool)
    ensures
        r == is_id_char_spec(c),
{
    let u = c as u32;
    (0x41 <= u && u <= 0x5A) || u == 0x5F || (0x61 <= u && u <= 0x7A) || (0xC0 <= u && u <= 0xD6)
        || (0xD8 <= u && u <= 0xF6) || (0xF8 <= u && u <= 0x2FF) || (0x370 <= u && u <= 0x37D) || (
    0x37F <= u && u <= 0x1FFF) || (0x200C <= u && u <= 0x200D) || (0x2070 <= u && u <= 0x218F) || (
    0x2C00 <= u && u <= 0x2FEF) || (0x3001 <= u && u <= 0xD7FF) || (0xF900 <= u && u <= 0xFDCF)
        || (0xFDF0 <= u && u <= 0xFFFD) || (0x10000 <= u && u <= 0xEFFFF) || u == 0x2D || u == 0x2E
        || (0x30 <= u && u <= 0x39) || u == 0xB7 || (0x300 <= u && u <= 0x36F) || (0x203F <= u && u
        <= 0x2040)
}

/// The characters of `s` with everything outside the id alphabet replaced
/// by an underscore.
pub open spec fn id_sanitized(s: Seq<char>) -> Seq<char> {
    s.map_values(
        |c: char|
            if is_id_char_spec(c) {
                c
            } else {
                '_'
            },
    )
}

/// What [`to_id`] returns: a fixed prefix, then the sanitized text.
pub open spec fn to_id_text(s: Seq<char>) -> Seq<char> {
    "id_"@ + id_sanitized(s)
}

/// Generate an id-compatible string, replacing all non-id characters by
/// underscores.
pub fn to_id(s: &str) -> (r: String)
    ensures
        r@ == to_id_text(s@),
{
    let cs = to_chars(s);
    let mut out = to_chars("id_");
    let mut i: usize = 0;
    while i < cs.len()
        invariant
            cs@ == s@,
            i <= cs@.len(),
            out@ == "id_"@ + id_sanitized(s@.take(i as int)),
        decreases cs@.len() - i,
    {
        let c = *cs.get(i).unwrap();
        if is_id_char(c) {
            out.push(c);
        } else {
            out.push('_');
        }
        proof {
            assert(out@ =~= "id_"@ + id_sanitized(s@.take(i + 1)));
        }
        i = i + 1;
    }
    proof {
        assert(s@.take(s@.len() as int) =~= s@);
    }
    chars_to_string(&out)
}

/// A file added in the EPUB.
#[derive(Debug)]
pub struct Content {
    /// Path of the file inside the book
    pub file: String,
    /// Its mime type
    pub mime: String,
    /// Whether it takes part in the linear reading order
    pub itemref: bool,
    /// Whether it is the cover image
    pub cover: bool,
    /// Its reference type, for the guide/landmarks sections
    pub reftype: Option<crate::epub_content::ReferenceType>,
    /// Title of this content
    pub title: String,
}

impl Content {
    /// Create a new content file entry.
    pub fn new(file: &str, mime: &str) -> (r: Content)
        ensures
            r.file@ == file@,
            r.mime@ == mime@,
            !r.itemref,
            !r.cover,
            r.reftype is None,
            r.title@.len() == 0,
    {
        Content {
            file: file.to_owned(),
            mime: mime.to_owned(),
            itemref: false,
            cover: false,
            reftype: Option::None,
            title: String::new(),
        }
    }
}

/// EPUB Metadata.
#[derive(Debug)]
pub struct Metadata {
    /// Title of the book
    pub title: String,
    /// Authors, in order
    pub author: Vec<String>,
    /// Language of the book
    pub lang: String,
    /// Pagination flow
    pub direction: PageDirection,
    /// Generator of the book
    pub generator: String,
    /// The name shown for the table of contents
    pub toc_name: String,
    /// Description paragraphs
    pub description: Vec<String>,
    /// Subjects
    pub subject: Vec<String>,
    /// License, if any
    pub license: Option<String>,
    /// Publication date, if set
    pub date_published: Option<EpubDate>,
    /// Last modification date; the generation moment is used when unset
    pub date_modified: Option<EpubDate>,
    /// The book's identifier; a fresh one is drawn when unset
    pub uuid: Option<u128>,
}

/// The state [`Metadata::default`] establishes.
pub open spec fn metadata_is_default(m: Metadata) -> bool {
    m.title@.len() == 0 && m.author@.len() == 0 && m.lang@ == "en"@ && m.direction is Ltr
        && m.generator@ == "Rust EPUB library"@ && m.toc_name@ == "Table Of Contents"@
        && m.description@.len() == 0 && m.subject@.len() == 0 && m.license is None
        && m.date_published is None && m.date_modified is None && m.uuid is None
}

impl Default for Metadata {
    /// An English book with no title, no authors, and the stock generator
    /// and table-of-contents names.
    fn default() -> (r: Metadata)
        ensures
            metadata_is_default(r),
    {
        Metadata {
            title: String::new(),
            author: Vec::new(),
            lang: "en".to_owned(),
            direction: PageDirection::Ltr,
            generator: "Rust EPUB library".to_owned(),
            toc_name: "Table Of Contents".to_owned(),
            description: Vec::new(),
            subject: Vec::new(),
            license: Option::None,
            date_published: Option::None,
            date_modified: Option::None,
            uuid: Option::None,
        }
    }
}

/// Path separators normalized: a backslash (as Windows paths carry) becomes
/// a forward slash, which is what archive paths use.
pub open spec fn slashed(s: Seq<char>) -> Seq<char> {
    s.map_values(
        |c: char|
            if c == '\\' {
                '/'
            } else {
                c
            },
    )
}

/// Executable form of [`slashed`].
fn slashed_exec(s: &str) -> (r: String)
    ensures
        r@ == slashed(s@),
{
    let cs = to_chars(s);
    let mut out: Vec<char> = Vec::new();
    let mut i: usize = 0;
    while i < cs.len()
        invariant
            cs@ == s@,
            i <= cs@.len(),
            out@ == slashed(s@.take(i as int)),
        decreases cs@.len() - i,
    {
        let c = *cs.get(i).unwrap();
        if c == '\\' {
            out.push('/');
        } else {
            out.push(c);
        }
        proof {
            assert(out@ =~= slashed(s@.take(i + 1)));
        }
        i = i + 1;
    }
    proof {
        assert(s@.take(s@.len() as int) =~= s@);
    }
    chars_to_string(&out)
}

/// The manifest id of a file: the cover image has a fixed id, everything
/// else gets its path, sanitized.
pub open spec fn item_id_text(c: Content) -> Seq<char> {
    if c.cover {
        "cover-image"@
    } else {
        to_id_text(c.file@)
    }
}

fn item_id_exec(c: &Content) -> (r: String)
    ensures
        r@ == item_id_text(*c),
{
    if c.cover {
        "cover-image".to_owned()
    } else {
        to_id(c.file.as_str())
    }
}

/// The extra manifest attribute that marks the cover image, present only
/// from EPUB 3 on.
pub open spec fn item_props(c: Content, version: EpubVersion) -> Seq<char> {
    if c.cover && version is V30 {
        "properties=\"cover-image\" "@
    } else {
        Seq::<char>::empty()
    }
}

/// One manifest item line.
pub open spec fn item_xml(c: Content, version: EpubVersion) -> Seq<char> {
    "<item media-type=\""@ + esc_attr(c.mime@) + "\" "@ + item_props(c, version) + "id=\""@
        + esc_attr(item_id_text(c)) + "\" href=\""@ + esc_attr(slashed(c.file@)) + "\"/>"@
}

fn item_xml_exec(c: &Content, version: EpubVersion) -> (r: String)
    ensures
        r@ == item_xml(*c, version),
{
    let mut out: Vec<char> = to_chars("<item media-type=\"");
    let esc_mime = escape_attr_exec(c.mime.as_str());
    append_str(&mut out, esc_mime.as_str());
    append_str(&mut out, "\" ");
    let ghost mid = out@;
    let is_v30 = match version {
        EpubVersion::V30 => true,
        _ => false,
    };
    if c.cover && is_v30 {
        append_str(&mut out, "properties=\"cover-image\" ");
    }
    proof {
        assert(out@ =~= mid + item_props(*c, version));
    }
    append_str(&mut out, "id=\"");
    let id = item_id_exec(c);
    let esc_id = escape_attr_exec(id.as_str());
    append_str(&mut out, esc_id.as_str());
    append_str(&mut out, "\" href=\"");
    let sl = slashed_exec(c.file.as_str());
    let esc_href = escape_attr_exec(sl.as_str());
    append_str(&mut out, esc_href.as_str());
    append_str(&mut out, "\"/>");
    let r = chars_to_string(&out);
    proof {
        assert(r@ =~= item_xml(*c, version));
    }
    r
}

/// One spine line.
pub open spec fn itemref_xml(c: Content) -> Seq<char> {
    "<itemref idref=\""@ + esc_attr(item_id_text(c)) + "\"/>"@
}

fn itemref_xml_exec(c: &Content) -> (r: String)
    ensures
        r@ == itemref_xml(*c),
{
    let mut out: Vec<char> = to_chars("<itemref idref=\"");
    let id = item_id_exec(c);
    let esc_id = escape_attr_exec(id.as_str());
    append_str(&mut out, esc_id.as_str());
    append_str(&mut out, "\"/>");
    chars_to_string(&out)
}

/// The guide name of a reference type (the EPUB 2 vocabulary).
pub open spec fn guide_type_str(rt: ReferenceType) -> Seq<char> {
    match rt {
        ReferenceType::Cover => "cover"@,
        ReferenceType::TitlePage => "title-page"@,
        ReferenceType::Toc => "toc"@,
        ReferenceType::Index => "index"@,
        ReferenceType::Glossary => "glossary"@,
        ReferenceType::Acknowledgements => "acknowledgements"@,
        ReferenceType::Bibliography => "bibliography"@,
        ReferenceType::Colophon => "colophon"@,
        ReferenceType::Copyright => "copyright"@,
        ReferenceType::Dedication => "dedication"@,
        ReferenceType::Epigraph => "epigraph"@,
        ReferenceType::Foreword => "foreword"@,
        ReferenceType::Loi => "loi"@,
        ReferenceType::Lot => "lot"@,
        ReferenceType::Notes => "notes"@,
        ReferenceType::Preface => "preface"@,
        ReferenceType::Text => "text"@,
    }
}

fn guide_type_exec(rt: ReferenceType) -> (r: &'static str)
    ensures
        r@ == guide_type_str(rt),
{
    match rt {
        ReferenceType::Cover => "cover",
        ReferenceType::TitlePage => "title-page",
        ReferenceType::Toc => "toc",
        ReferenceType::Index => "index",
        ReferenceType::Glossary => "glossary",
        ReferenceType::Acknowledgements => "acknowledgements",
        ReferenceType::Bibliography => "bibliography",
        ReferenceType::Colophon => "colophon",
        ReferenceType::Copyright => "copyright",
        ReferenceType::Dedication => "dedication",
        ReferenceType::Epigraph => "epigraph",
        ReferenceType::Foreword => "foreword",
        ReferenceType::Loi => "loi",
        ReferenceType::Lot => "lot",
        ReferenceType::Notes => "notes",
        ReferenceType::Preface => "preface",
        ReferenceType::Text => "text",
    }
}

/// The landmark name of a reference type (the EPUB 3 vocabulary).
pub open spec fn landmark_type_str(rt: ReferenceType) -> Seq<char> {
    match rt {
        ReferenceType::Cover => "cover"@,
        ReferenceType::TitlePage => "titlepage"@,
        ReferenceType::Toc => "toc"@,
        ReferenceType::Index => "index"@,
        ReferenceType::Glossary => "glossary"@,
        ReferenceType::Acknowledgements => "acknowledgements"@,
        ReferenceType::Bibliography => "bibliography"@,
        ReferenceType::Colophon => "colophon"@,
        ReferenceType::Copyright => "copyright-page"@,
        ReferenceType::Dedication => "dedication"@,
        ReferenceType::Epigraph => "epigraph"@,
        ReferenceType::Foreword => "foreword"@,
        ReferenceType::Loi => "loi"@,
        ReferenceType::Lot => "lot"@,
        ReferenceType::Notes => "endnotes"@,
        ReferenceType::Preface => "preface"@,
        ReferenceType::Text => "bodymatter"@,
    }
}

fn landmark_type_exec(rt: ReferenceType) -> (r: &'static str)
    ensures
        r@ == landmark_type_str(rt),
{
    match rt {
        ReferenceType::Cover => "cover",
        ReferenceType::TitlePage => "titlepage",
        ReferenceType::Toc => "toc",
        ReferenceType::Index => "index",
        ReferenceType::Glossary => "glossary",
        ReferenceType::Acknowledgements => "acknowledgements",
        ReferenceType::Bibliography => "bibliography",
        ReferenceType::Colophon => "colophon",
        ReferenceType::Copyright => "copyright-page",
        ReferenceType::Dedication => "dedication",
        ReferenceType::Epigraph => "epigraph",
        ReferenceType::Foreword => "foreword",
        ReferenceType::Loi => "loi",
        ReferenceType::Lot => "lot",
        ReferenceType::Notes => "endnotes",
        ReferenceType::Preface => "preface",
        ReferenceType::Text => "bodymatter",
    }
}

/// One guide line, for a file that carries a reference type.
pub open spec fn guide_xml(c: Content) -> Seq<char> {
    match c.reftype {
        Option::Some(rt) => "<reference type=\""@ + esc_attr(guide_type_str(rt)) + "\" title=\""@
            + esc_attr(c.title@) + "\" href=\""@ + esc_attr(c.file@) + "\"/>"@,
        Option::None => Seq::<char>::empty(),
    }
}

/// One landmark line, for a titled file that carries a reference type.
pub open spec fn landmark_xml(c: Content, escape: bool) -> Seq<char> {
    match c.reftype {
        Option::Some(rt) => "<li><a epub:type=\""@ + esc_attr(landmark_type_str(rt))
            + "\" href=\""@ + esc_attr(c.file@) + "\">"@ + enc_html(c.title@, escape)
            + "</a></li>"@,
        Option::None => Seq::<char>::empty(),
    }
}

/// The manifest item lines of the added files, in order.
pub open spec fn items_list(files: Seq<Content>, version: EpubVersion) -> Seq<Seq<char>>
    decreases files,
{
    if files.len() == 0 {
        Seq::empty()
    } else {
        items_list(files.drop_last(), version).push(item_xml(files.last(), version))
    }
}

/// The spine lines: one for each file that takes part in the reading order.
pub open spec fn itemrefs_list(files: Seq<Content>) -> Seq<Seq<char>>
    decreases files,
{
    if files.len() == 0 {
        Seq::empty()
    } else if files.last().itemref {
        itemrefs_list(files.drop_last()).push(itemref_xml(files.last()))
    } else {
        itemrefs_list(files.drop_last())
    }
}

/// The guide lines: one for each file that carries a reference type.
pub open spec fn guide_list(files: Seq<Content>) -> Seq<Seq<char>>
    decreases files,
{
    if files.len() == 0 {
        Seq::empty()
    } else if files.last().reftype is Some {
        guide_list(files.drop_last()).push(guide_xml(files.last()))
    } else {
        guide_list(files.drop_last())
    }
}

/// The cover `<meta>` lines: one for each cover file.
pub open spec fn cover_meta_list(files: Seq<Content>) -> Seq<Seq<char>>
    decreases files,
{
    if files.len() == 0 {
        Seq::empty()
    } else if files.last().cover {
        cover_meta_list(files.drop_last()).push("<meta name=\"cover\" content=\"cover-image\"/>"@)
    } else {
        cover_meta_list(files.drop_last())
    }
}

/// The landmark lines: one for each titled file with a reference type.
pub open spec fn landmarks_list(files: Seq<Content>, escape: bool) -> Seq<Seq<char>>
    decreases files,
{
    if files.len() == 0 {
        Seq::empty()
    } else if files.last().reftype is Some && files.last().title@.len() > 0 {
        landmarks_list(files.drop_last(), escape).push(landmark_xml(files.last(), escape))
    } else {
        landmarks_list(files.drop_last(), escape)
    }
}

/// One creator line; `i` numbers the authors from zero.
pub open spec fn author_xml(name: Seq<char>, i: int, escape: bool) -> Seq<char> {
    "<dc:creator id=\"author_"@ + esc_attr(dec_str(i)) + "\">"@ + enc_html(name, escape)
        + "</dc:creator>"@
}

/// The creator lines of all authors, in order.
pub open spec fn authors_list(authors: Seq<String>, escape: bool) -> Seq<Seq<char>>
    decreases authors,
{
    if authors.len() == 0 {
        Seq::empty()
    } else {
        authors_list(authors.drop_last(), escape).push(
            author_xml(authors.last()@, authors.len() - 1, escape),
        )
    }
}

/// The manifest item lines, joined; the flag says whether there were none.
fn opf_items(files: &Vec<Content>, version: EpubVersion) -> (r: (String, bool))
    ensures
        r.0@ == join_nl(items_list(files@, version)),
        r.1 == (items_list(files@, version).len() == 0),
{
    let mut acc: Vec<char> = Vec::new();
    let mut first = true;
    proof {
        assert(files@.take(0) =~= Seq::<Content>::empty());
    }
    let mut k: usize = 0;
    while k < files.len()
        invariant
            k <= files@.len(),
            first == (items_list(files@.take(k as int), version).len() == 0),
            acc@ == join_nl(items_list(files@.take(k as int), version)),
        decreases files@.len() - k,
    {
        let ghost pre = items_list(files@.take(k as int), version);
        let x = item_xml_exec(files.get(k).unwrap(), version);
        if !first {
            append_str(&mut acc, "\n");
        }
        append_str(&mut acc, x.as_str());
        first = false;
        proof {
            assert(files@.take(k + 1).drop_last() =~= files@.take(k as int));
            assert(files@.take(k + 1).last() == files@[k as int]);
            lemma_join_nl_push(pre, item_xml(files@[k as int], version));
        }
        k = k + 1;
    }
    proof {
        assert(files@.take(files@.len() as int) =~= files@);
    }
    (chars_to_string(&acc), first)
}

/// The spine lines, joined; the flag says whether there were none.
fn opf_itemrefs(files: &Vec<Content>) -> (r: (String, bool))
    ensures
        r.0@ == join_nl(itemrefs_list(files@)),
        r.1 == (itemrefs_list(files@).len() == 0),
{
    let mut acc: Vec<char> = Vec::new();
    let mut first = true;
    proof {
        assert(files@.take(0) =~= Seq::<Content>::empty());
    }
    let mut k: usize = 0;
    while k < files.len()
        invariant
            k <= files@.len(),
            first == (itemrefs_list(files@.take(k as int)).len() == 0),
            acc@ == join_nl(itemrefs_list(files@.take(k as int))),
        decreases files@.len() - k,
    {
        let ghost pre = itemrefs_list(files@.take(k as int));
        proof {
            assert(files@.take(k + 1).drop_last() =~= files@.take(k as int));
            assert(files@.take(k + 1).last() == files@[k as int]);
        }
        let c = files.get(k).unwrap();
        if c.itemref {
            let x = itemref_xml_exec(c);
            if !first {
                append_str(&mut acc, "\n");
            }
            append_str(&mut acc, x.as_str());
            first = false;
            proof {
                lemma_join_nl_push(pre, itemref_xml(files@[k as int]));
            }
        }
        k = k + 1;
    }
    proof {
        assert(files@.take(files@.len() as int) =~= files@);
    }
    (chars_to_string(&acc), first)
}

/// The guide lines, joined; the flag says whether there were none.
fn opf_guide(files: &Vec<Content>) -> (r: (String, bool))
    ensures
        r.0@ == join_nl(guide_list(files@)),
        r.1 == (guide_list(files@).len() == 0),
{
    let mut acc: Vec<char> = Vec::new();
    let mut first = true;
    proof {
        assert(files@.take(0) =~= Seq::<Content>::empty());
    }
    let mut k: usize = 0;
    while k < files.len()
        invariant
            k <= files@.len(),
            first == (guide_list(files@.take(k as int)).len() == 0),
            acc@ == join_nl(guide_list(files@.take(k as int))),
        decreases files@.len() - k,
    {
        let ghost pre = guide_list(files@.take(k as int));
        proof {
            assert(files@.take(k + 1).drop_last() =~= files@.take(k as int));
            assert(files@.take(k + 1).last() == files@[k as int]);
        }
        let c = files.get(k).unwrap();
        let has_ref = c.reftype.is_some();
        if has_ref {
            let rt = match c.reftype {
                Option::Some(rt) => rt,
                Option::None => ReferenceType::Text,
            };
            let mut out: Vec<char> = to_chars("<reference type=\"");
            let tn = guide_type_exec(rt);
            let esc_tn = escape_attr_exec(tn);
            append_str(&mut out, esc_tn.as_str());
            append_str(&mut out, "\" title=\"");
            let esc_title = escape_attr_exec(c.title.as_str());
            append_str(&mut out, esc_title.as_str());
            append_str(&mut out, "\" href=\"");
            let esc_href = escape_attr_exec(c.file.as_str());
            append_str(&mut out, esc_href.as_str());
            append_str(&mut out, "\"/>");
            if !first {
                append_str(&mut acc, "\n");
            }
            let x = chars_to_string(&out);
            append_str(&mut acc, x.as_str());
            first = false;
            proof {
                assert(x@ =~= guide_xml(files@[k as int]));
                lemma_join_nl_push(pre, guide_xml(files@[k as int]));
            }
        }
        k = k + 1;
    }
    proof {
        assert(files@.take(files@.len() as int) =~= files@);
    }
    (chars_to_string(&acc), first)
}

/// The cover `<meta>` lines, joined; the flag says whether there were none.
fn opf_cover_meta(files: &Vec<Content>) -> (r: (String, bool))
    ensures
        r.0@ == join_nl(cover_meta_list(files@)),
        r.1 == (cover_meta_list(files@).len() == 0),
{
    let mut acc: Vec<char> = Vec::new();
    let mut first = true;
    proof {
        assert(files@.take(0) =~= Seq::<Content>::empty());
    }
    let mut k: usize = 0;
    while k < files.len()
        invariant
            k <= files@.len(),
            first == (cover_meta_list(files@.take(k as int)).len() == 0),
            acc@ == join_nl(cover_meta_list(files@.take(k as int))),
        decreases files@.len() - k,
    {
        let ghost pre = cover_meta_list(files@.take(k as int));
        proof {
            assert(files@.take(k + 1).drop_last() =~= files@.take(k as int));
            assert(files@.take(k + 1).last() == files@[k as int]);
        }
        let c = files.get(k).unwrap();
        if c.cover {
            if !first {
                append_str(&mut acc, "\n");
            }
            append_str(&mut acc, "<meta name=\"cover\" content=\"cover-image\"/>");
            first = false;
            proof {
                lemma_join_nl_push(pre, "<meta name=\"cover\" content=\"cover-image\"/>"@);
            }
        }
        k = k + 1;
    }
    proof {
        assert(files@.take(files@.len() as int) =~= files@);
    }
    (chars_to_string(&acc), first)
}

/// The landmark lines, joined; the flag says whether there were none.
fn nav_landmarks(files: &Vec<Content>, escape: bool) -> (r: (String, bool))
    ensures
        r.0@ == join_nl(landmarks_list(files@, escape)),
        r.1 == (landmarks_list(files@, escape).len() == 0),
{
    let mut acc: Vec<char> = Vec::new();
    let mut first = true;
    proof {
        assert(files@.take(0) =~= Seq::<Content>::empty());
    }
    let mut k: usize = 0;
    while k < files.len()
        invariant
            k <= files@.len(),
            first == (landmarks_list(files@.take(k as int), escape).len() == 0),
            acc@ == join_nl(landmarks_list(files@.take(k as int), escape)),
        decreases files@.len() - k,
    {
        let ghost pre = landmarks_list(files@.take(k as int), escape);
        proof {
            assert(files@.take(k + 1).drop_last() =~= files@.take(k as int));
            assert(files@.take(k + 1).last() == files@[k as int]);
        }
        let c = files.get(k).unwrap();
        let has_ref = c.reftype.is_some();
        if has_ref && !c.title.as_str().is_empty() {
            let rt = match c.reftype {
                Option::Some(rt) => rt,
                Option::None => ReferenceType::Text,
            };
            let mut out: Vec<char> = to_chars("<li><a epub:type=\"");
            let tn = landmark_type_exec(rt);
            let esc_tn = escape_attr_exec(tn);
            append_str(&mut out, esc_tn.as_str());
            append_str(&mut out, "\" href=\"");
            let esc_href = escape_attr_exec(c.file.as_str());
            append_str(&mut out, esc_href.as_str());
            append_str(&mut out, "\">");
            let enc_title = encode_html(c.title.as_str(), escape);
            append_str(&mut out, enc_title.as_str());
            append_str(&mut out, "</a></li>");
            if !first {
                append_str(&mut acc, "\n");
            }
            let x = chars_to_string(&out);
            append_str(&mut acc, x.as_str());
            first = false;
            proof {
                assert(x@ =~= landmark_xml(files@[k as int], escape));
                lemma_join_nl_push(pre, landmark_xml(files@[k as int], escape));
            }
        }
        k = k + 1;
    }
    proof {
        assert(files@.take(files@.len() as int) =~= files@);
    }
    (chars_to_string(&acc), first)
}

/// The creator lines, joined; the flag says whether there were none.
fn opf_authors(authors: &Vec<String>, escape: bool) -> (r: (String, bool))
    ensures
        r.0@ == join_nl(authors_list(authors@, escape)),
        r.1 == (authors_list(authors@, escape).len() == 0),
{
    let mut acc: Vec<char> = Vec::new();
    let mut first = true;
    proof {
        assert(authors@.take(0) =~= Seq::<String>::empty());
    }
    let mut k: usize = 0;
    while k < authors.len()
        invariant
            k <= authors@.len(),
            first == (authors_list(authors@.take(k as int), escape).len() == 0),
            acc@ == join_nl(authors_list(authors@.take(k as int), escape)),
        decreases authors@.len() - k,
    {
        let ghost pre = authors_list(authors@.take(k as int), escape);
        proof {
            assert(authors@.take(k + 1).drop_last() =~= authors@.take(k as int));
            assert(authors@.take(k + 1).last() == authors@[k as int]);
        }
        let name = authors.get(k).unwrap();
        let mut out: Vec<char> = to_chars("<dc:creator id=\"author_");
        let idx_digits = u64_dec_chars(k as u64);
        let idx_string = chars_to_string(&idx_digits);
        let esc_idx = escape_attr_exec(idx_string.as_str());
        append_str(&mut out, esc_idx.as_str());
        append_str(&mut out, "\">");
        let enc_name = encode_html(name.as_str(), escape);
        append_str(&mut out, enc_name.as_str());
        append_str(&mut out, "</dc:creator>");
        if !first {
            append_str(&mut acc, "\n");
        }
        let x = chars_to_string(&out);
        append_str(&mut acc, x.as_str());
        first = false;
        proof {
            assert(x@ =~= author_xml(authors@[k as int]@, k as int, escape));
            lemma_join_nl_push(pre, author_xml(authors@[k as int]@, k as int, escape));
        }
        k = k + 1;
    }
    proof {
        assert(authors@.take(authors@.len() as int) =~= authors@);
    }
    (chars_to_string(&acc), first)
}

/// One description line.
pub open spec fn description_xml(text: Seq<char>, escape: bool) -> Seq<char> {
    "<dc:description>"@ + enc_html(text, escape) + "</dc:description>"@
}

/// One subject line.
pub open spec fn subject_xml(text: Seq<char>, escape: bool) -> Seq<char> {
    "<dc:subject>"@ + enc_html(text, escape) + "</dc:subject>"@
}

/// One custom `<meta>` line.
pub open spec fn meta_opf_xml(m: MetadataOpf, escape: bool) -> Seq<char> {
    "<meta name=\""@ + enc_html(m.name@, escape) + "\" content=\""@ + enc_html(m.content@, escape)
        + "\"/>"@
}

/// The description lines, in order.
pub open spec fn description_list(texts: Seq<String>, escape: bool) -> Seq<Seq<char>>
    decreases texts,
{
    if texts.len() == 0 {
        Seq::empty()
    } else {
        description_list(texts.drop_last(), escape).push(
            description_xml(texts.last()@, escape),
        )
    }
}

/// The subject lines, in order.
pub open spec fn subject_list(texts: Seq<String>, escape: bool) -> Seq<Seq<char>>
    decreases texts,
{
    if texts.len() == 0 {
        Seq::empty()
    } else {
        subject_list(texts.drop_last(), escape).push(subject_xml(texts.last()@, escape))
    }
}

/// The rights line, when a license is set.
pub open spec fn rights_list(license: Option<String>, escape: bool) -> Seq<Seq<char>> {
    match license {
        Option::Some(l) => seq![("<dc:rights>"@ + enc_html(l@, escape) + "</dc:rights>"@)],
        Option::None => Seq::empty(),
    }
}

/// The custom `<meta>` lines, in order.
pub open spec fn meta_opf_list(metas: Seq<MetadataOpf>, escape: bool) -> Seq<Seq<char>>
    decreases metas,
{
    if metas.len() == 0 {
        Seq::empty()
    } else {
        meta_opf_list(metas.drop_last(), escape).push(meta_opf_xml(metas.last(), escape))
    }
}

/// Every optional metadata line of the package document, in the order the
/// package carries them: descriptions, subjects, rights, custom metas, and
/// one cover meta per cover file.
pub open spec fn optional_list<Z: Zip>(b: EpubBuilder<Z>) -> Seq<Seq<char>> {
    description_list(b.metadata.description@, b.escape_html) + subject_list(
        b.metadata.subject@,
        b.escape_html,
    ) + rights_list(b.metadata.license, b.escape_html) + meta_opf_list(
        b.meta_opf@,
        b.escape_html,
    ) + cover_meta_list(b.files@)
}

/// A generic one-line-per-entry loop over texts.
fn text_lines(texts: &Vec<String>, escape: bool, subjects: bool) -> (r: (String, bool))
    ensures
        subjects ==> r.0@ == join_nl(subject_list(texts@, escape)) && r.1 == (subject_list(
            texts@,
            escape,
        ).len() == 0),
        !subjects ==> r.0@ == join_nl(description_list(texts@, escape)) && r.1 == (
        description_list(texts@, escape).len() == 0),
{
    let mut acc: Vec<char> = Vec::new();
    let mut first = true;
    proof {
        assert(texts@.take(0) =~= Seq::<String>::empty());
    }
    let mut k: usize = 0;
    while k < texts.len()
        invariant
            k <= texts@.len(),
            subjects ==> first == (subject_list(texts@.take(k as int), escape).len() == 0)
                && acc@ == join_nl(subject_list(texts@.take(k as int), escape)),
            !subjects ==> first == (description_list(texts@.take(k as int), escape).len() == 0)
                && acc@ == join_nl(description_list(texts@.take(k as int), escape)),
        decreases texts@.len() - k,
    {
        proof {
            assert(texts@.take(k + 1).drop_last() =~= texts@.take(k as int));
            assert(texts@.take(k + 1).last() == texts@[k as int]);
        }
        let text = texts.get(k).unwrap();
        let mut out: Vec<char> = if subjects {
            to_chars("<dc:subject>")
        } else {
            to_chars("<dc:description>")
        };
        let enc = encode_html(text.as_str(), escape);
        append_str(&mut out, enc.as_str());
        if subjects {
            append_str(&mut out, "</dc:subject>");
        } else {
            append_str(&mut out, "</dc:description>");
        }
        if !first {
            append_str(&mut acc, "\n");
        }
        let x = chars_to_string(&out);
        append_str(&mut acc, x.as_str());
        first = false;
        proof {
            if subjects {
                assert(x@ =~= subject_xml(texts@[k as int]@, escape));
                lemma_join_nl_push(
                    subject_list(texts@.take(k as int), escape),
                    subject_xml(texts@[k as int]@, escape),
                );
            } else {
                assert(x@ =~= description_xml(texts@[k as int]@, escape));
                lemma_join_nl_push(
                    description_list(texts@.take(k as int), escape),
                    description_xml(texts@[k as int]@, escape),
                );
            }
        }
        k = k + 1;
    }
    proof {
        assert(texts@.take(texts@.len() as int) =~= texts@);
    }
    (chars_to_string(&acc), first)
}

/// The custom `<meta>` lines, joined; the flag says whether there were none.
fn opf_meta_lines(metas: &Vec<MetadataOpf>, escape: bool) -> (r: (String, bool))
    ensures
        r.0@ == join_nl(meta_opf_list(metas@, escape)),
        r.1 == (meta_opf_list(metas@, escape).len() == 0),
{
    let mut acc: Vec<char> = Vec::new();
    let mut first = true;
    proof {
        assert(metas@.take(0) =~= Seq::<MetadataOpf>::empty());
    }
    let mut k: usize = 0;
    while k < metas.len()
        invariant
            k <= metas@.len(),
            first == (meta_opf_list(metas@.take(k as int), escape).len() == 0),
            acc@ == join_nl(meta_opf_list(metas@.take(k as int), escape)),
        decreases metas@.len() - k,
    {
        proof {
            assert(metas@.take(k + 1).drop_last() =~= metas@.take(k as int));
            assert(metas@.take(k + 1).last() == metas@[k as int]);
        }
        let m = metas.get(k).unwrap();
        let mut out: Vec<char> = to_chars("<meta name=\"");
        let enc_name = encode_html(m.name.as_str(), escape);
        append_str(&mut out, enc_name.as_str());
        append_str(&mut out, "\" content=\"");
        let enc_content = encode_html(m.content.as_str(), escape);
        append_str(&mut out, enc_content.as_str());
        append_str(&mut out, "\"/>");
        if !first {
            append_str(&mut acc, "\n");
        }
        let x = chars_to_string(&out);
        append_str(&mut acc, x.as_str());
        first = false;
        proof {
            assert(x@ =~= meta_opf_xml(metas@[k as int], escape));
            lemma_join_nl_push(
                meta_opf_list(metas@.take(k as int), escape),
                meta_opf_xml(metas@[k as int], escape),
            );
        }
        k = k + 1;
    }
    proof {
        assert(metas@.take(metas@.len() as int) =~= metas@);
    }
    (chars_to_string(&acc), first)
}

/// The optional metadata lines of the package document, joined; the flag
/// says whether there were none.
fn opf_optional(
    description: &Vec<String>,
    subject: &Vec<String>,
    license: &Option<String>,
    metas: &Vec<MetadataOpf>,
    files: &Vec<Content>,
    escape: bool,
) -> (r: (String, bool))
    ensures
        ({
            let l = description_list(description@, escape) + subject_list(subject@, escape)
                + rights_list(*license, escape) + meta_opf_list(metas@, escape) + cover_meta_list(
                files@,
            );
            r.0@ == join_nl(l) && r.1 == (l.len() == 0)
        }),
{
    let ghost l1 = description_list(description@, escape);
    let ghost l2 = l1 + subject_list(subject@, escape);
    let ghost l3 = l2 + rights_list(*license, escape);
    let ghost l4 = l3 + meta_opf_list(metas@, escape);
    let ghost l5 = l4 + cover_meta_list(files@);
    let d = text_lines(description, escape, false);
    let s = text_lines(subject, escape, true);
    let rights: (String, bool) = match license {
        Option::Some(l) => {
            let mut out: Vec<char> = to_chars("<dc:rights>");
            let enc = encode_html(l.as_str(), escape);
            append_str(&mut out, enc.as_str());
            append_str(&mut out, "</dc:rights>");
            (chars_to_string(&out), false)
        },
        Option::None => (String::new(), true),
    };
    let m = opf_meta_lines(metas, escape);
    let c = opf_cover_meta(files);
    let mut acc: Vec<char> = to_chars(d.0.as_str());
    let mut first = d.1;
    proof {
        lemma_join_nl_concat(l1, subject_list(subject@, escape));
    }
    if !s.1 {
        if !first {
            append_str(&mut acc, "\n");
        }
        append_str(&mut acc, s.0.as_str());
        first = false;
    }
    proof {
        assert(acc@ == join_nl(l2));
        assert(first == (l2.len() == 0));
        lemma_join_nl_concat(l2, rights_list(*license, escape));
        if license is Some {
            assert(rights.0@ =~= join_nl(rights_list(*license, escape)));
        }
    }
    if !rights.1 {
        if !first {
            append_str(&mut acc, "\n");
        }
        append_str(&mut acc, rights.0.as_str());
        first = false;
    }
    proof {
        assert(acc@ == join_nl(l3));
        assert(first == (l3.len() == 0));
        lemma_join_nl_concat(l3, meta_opf_list(metas@, escape));
    }
    if !m.1 {
        if !first {
            append_str(&mut acc, "\n");
        }
        append_str(&mut acc, m.0.as_str());
        first = false;
    }
    proof {
        assert(acc@ == join_nl(l4));
        assert(first == (l4.len() == 0));
        lemma_join_nl_concat(l4, cover_meta_list(files@));
    }
    if !c.1 {
        if !first {
            append_str(&mut acc, "\n");
        }
        append_str(&mut acc, c.0.as_str());
        first = false;
    }
    proof {
        assert(acc@ == join_nl(l5));
        assert(first == (l5.len() == 0));
    }
    (chars_to_string(&acc), first)
}

/// Relies on chrono::Utc::now, Datelike and Timelike: the current UTC
/// moment, as its plain calendar and clock numbers. Nothing is promised of
/// the values; the caller validates them.
#[verifier::external_body]
fn now_parts() -> (r: (u32, u32, u32, u32, u32, u32)) {
    let t = chrono::Utc::now();
    (t.year() as u32, t.month(), t.day(), t.hour(), t.minute(), t.second())
}

/// The current moment, every field forced into its calendar range.
fn current_date() -> (r: EpubDate)
    ensures
        r.wf(),
{
    let p = now_parts();
    EpubDate {
        year: if p.0 > 9999 {
            9999
        } else {
            p.0
        },
        month: if p.1 < 1 {
            1
        } else if p.1 > 12 {
            12
        } else {
            p.1
        },
        day: if p.2 < 1 {
            1
        } else if p.2 > 31 {
            31
        } else {
            p.2
        },
        hour: if p.3 > 23 {
            23
        } else {
            p.3
        },
        minute: if p.4 > 59 {
            59
        } else {
            p.4
        },
        second: if p.5 > 59 {
            59
        } else {
            p.5
        },
    }
}

/// Relies on uuid::Uuid::new_v4: a freshly drawn random identifier, handed
/// over as its 128 bits. Nothing is promised of the value.
#[verifier::external_body]
fn fresh_uuid_bits() -> (r: u128) {
    uuid::Uuid::new_v4().as_u128()
}

/// The version attribute of the package document.
pub open spec fn version_attr(v: EpubVersion) -> Seq<char> {
    match v {
        EpubVersion::V20 => "2.0"@,
        EpubVersion::V30 => "3.0"@,
    }
}

/// The whole package document (`content.opf`): metadata — identifier,
/// title, language, generator, modification and publication dates, creators
/// and the optional lines — then the manifest, the spine and the guide, all
/// built from the added files.
pub open spec fn opf_text<Z: Zip>(b: EpubBuilder<Z>, modified: EpubDate, book_id: u128) -> Seq<
    char,
> {
    let date_pub = (match b.metadata.date_published {
        Option::Some(d) => "    <dc:date>"@ + d.iso_text() + "</dc:date>\n"@,
        Option::None => Seq::<char>::empty(),
    });
    "<?xml version=\"1.0\" encoding=\"UTF-8\"?>\n<package xmlns=\"http://www.idpf.org/2007/opf\" version=\""@
        + version_attr(b.version)
        + "\" unique-identifier=\"book_id\">\n  <metadata xmlns:dc=\"http://purl.org/dc/elements/1.1/\" xmlns:opf=\"http://www.idpf.org/2007/opf\">\n    <dc:identifier id=\"book_id\">"@
        + urn_text(book_id) + "</dc:identifier>\n    <dc:title>"@ + enc_html(
        b.metadata.title@,
        b.escape_html,
    ) + "</dc:title>\n    <dc:language>"@ + esc_text(b.metadata.lang@)
        + "</dc:language>\n    <meta name=\"generator\" content=\""@ + esc_attr(
        b.metadata.generator@,
    ) + "\"/>\n    <meta property=\"dcterms:modified\">"@ + modified.iso_text() + "</meta>\n"@
        + date_pub + indent_text(join_nl(authors_list(b.metadata.author@, b.escape_html)), 2)
        + "\n"@ + indent_text(join_nl(optional_list(b)), 2) + "\n"@
        + "  </metadata>\n  <manifest>\n    <item media-type=\"application/x-dtbncx+xml\" id=\"ncx\" href=\"toc.ncx\"/>\n    <item media-type=\"application/xhtml+xml\" properties=\"nav\" id=\"nav\" href=\"nav.xhtml\"/>\n"@
        + indent_text(join_nl(items_list(b.files@, b.version)), 2) + "\n"@
        + "  </manifest>\n  <spine page-progression-direction=\""@ + direction_str(
        b.metadata.direction,
    ) + "\" toc=\"ncx\">\n"@ + indent_text(join_nl(itemrefs_list(b.files@)), 2) + "\n"@
        + "  </spine>\n  <guide>\n"@ + indent_text(join_nl(guide_list(b.files@)), 2) + "\n"@
        + "  </guide>\n</package>\n"@
}

/// The whole navigation-control document (`toc.ncx`): a fixed head, the
/// table-of-contents name as the document title, and the rendered
/// navigation points.
pub open spec fn ncx_text<Z: Zip>(b: EpubBuilder<Z>) -> Seq<char> {
    "<?xml version=\"1.0\" encoding=\"UTF-8\"?>\n<ncx xmlns=\"http://www.daisy.org/z3986/2005/ncx/\" version=\"2005-1\">\n  <head>\n    <meta name=\"dtb:depth\" content=\"1\"/>\n    <meta name=\"dtb:totalPageCount\" content=\"0\"/>\n    <meta name=\"dtb:maxPageNumber\" content=\"0\"/>\n  </head>\n  <docTitle>\n    <text>"@
        + enc_html(b.metadata.toc_name@, b.escape_html) + "</text>\n  </docTitle>\n  <navMap>\n"@
        + crate::toc::toc_render_epub(b.toc.model(), b.escape_html) + "\n  </navMap>\n</ncx>\n"@
}

/// The navigation document (`nav.xhtml`, and `toc.xhtml` for the inline
/// table of contents): the rendered list, and — from EPUB 3 on — the
/// landmarks of the titled reference files.
pub open spec fn nav_text<Z: Zip>(b: EpubBuilder<Z>, numbered: bool) -> Seq<char> {
    let lblock = if b.version is V30 && landmarks_list(b.files@, b.escape_html).len() > 0 {
        "    <nav epub:type=\"landmarks\">\n"@ + indent_text(
            "<ol>\n"@ + indent_text(join_nl(landmarks_list(b.files@, b.escape_html)), 1)
                + "\n</ol>"@,
            3,
        ) + "\n    </nav>\n"@
    } else {
        Seq::<char>::empty()
    };
    "<?xml version=\"1.0\" encoding=\"UTF-8\"?>\n<!DOCTYPE html>\n<html xmlns=\"http://www.w3.org/1999/xhtml\" xmlns:epub=\"http://www.idpf.org/2007/ops\">\n  <head>\n    <title>"@
        + enc_html(b.metadata.toc_name@, b.escape_html)
        + "</title>\n    <meta name=\"generator\" content=\""@ + esc_attr(b.metadata.generator@)
        + "\"/>\n    <link rel=\"stylesheet\" type=\"text/css\" href=\"stylesheet.css\"/>\n  </head>\n  <body>\n    <nav epub:type=\"toc\">\n      <h1>"@
        + enc_html(b.metadata.toc_name@, b.escape_html) + "</h1>\n"@ + crate::toc::toc_render_html(
        b.toc.model(),
        numbered,
        b.escape_html,
    ) + "\n    </nav>\n"@ + lblock + "  </body>\n</html>\n"@
}

/// Epub Builder.
///
/// The main struct of this library: it is created around an archive writer,
/// content and metadata are added to it, and at the end the finished archive
/// is generated.
pub struct EpubBuilder<Z: Zip> {
    /// The EPUB version to generate
    pub version: EpubVersion,
    /// Global pagination direction
    pub direction: PageDirection,
    /// The archive writer
    pub zip: Z,
    /// The files of the book, in the order they were added
    pub files: Vec<Content>,
    /// The book's metadata
    pub metadata: Metadata,
    /// The table of contents
    pub toc: Toc,
    /// Whether a stylesheet was set
    pub stylesheet: bool,
    /// Whether an inline table of contents was requested
    pub inline_toc: bool,
    /// Whether human-readable fields are HTML-escaped
    pub escape_html: bool,
    /// Custom `<meta>` entries for the package document
    pub meta_opf: Vec<MetadataOpf>,
}

/// `new_b` differs from `old_b` at most in its metadata (and its archive
/// writer, whose state is never tracked).
pub open spec fn only_metadata_changed<Z: Zip>(new_b: EpubBuilder<Z>, old_b: EpubBuilder<Z>) -> bool {
    (EpubBuilder { metadata: old_b.metadata, zip: old_b.zip, ..new_b }) == old_b
}

impl<Z: Zip> EpubBuilder<Z> {
    /// Create a new default EPUB Builder around an archive writer.
    ///
    /// The two fixed container documents are written to the archive right
    /// away; a failure of the writer is handed back.
    pub fn new(zip: Z) -> (r: Result<EpubBuilder<Z>, Error>)
        ensures
            (match r {
                Ok(b) => b.version is V20 && b.direction is Ltr && b.files@.len() == 0
                    && metadata_is_default(b.metadata) && b.toc.model() == Seq::<
                    ElemModel,
                >::empty() && !b.stylesheet && !b.inline_toc && b.escape_html && b.meta_opf@.len()
                    == 0,
                Err(_) => true,
            }),
    {
        let mut epub = EpubBuilder {
            version: EpubVersion::V20,
            direction: PageDirection::Ltr,
            zip,
            files: Vec::new(),
            metadata: Metadata::default(),
            toc: Toc::new(),
            stylesheet: false,
            inline_toc: false,
            escape_html: true,
            meta_opf: Vec::new(),
        };
        match epub.zip.write_file("META-INF/container.xml", crate::templates::CONTAINER.as_bytes()) {
            Ok(_) => (),
            Err(e) => {
                return Err(e);
            },
        }
        match epub.zip.write_file(
            "META-INF/com.apple.ibooks.display-options.xml",
            crate::templates::IBOOKS.as_bytes(),
        ) {
            Ok(_) => (),
            Err(e) => {
                return Err(e);
            },
        }
        Ok(epub)
    }

    /// Set EPUB version (default: `V20`).
    pub fn epub_version(&mut self, version: EpubVersion) -> (r: &mut Self)
        ensures
            *r == (EpubBuilder { version, ..*old(self) }),
            *final(self) == *final(r),
    {
        self.version = version;
        self
    }

    /// Set the EPUB pagination direction (default: left to right).
    pub fn epub_direction(&mut self, direction: PageDirection) -> (r: &mut Self)
        ensures
            *r == (EpubBuilder { direction, ..*old(self) }),
            *final(self) == *final(r),
    {
        self.direction = direction;
        self
    }

    /// Add a custom `<meta>` entry to the package document.
    pub fn add_metadata_opf(&mut self, item: MetadataOpf) -> (r: &mut Self)
        ensures
            r.meta_opf@ == old(self).meta_opf@.push(item),
            (EpubBuilder { meta_opf: old(self).meta_opf, ..*r }) == *old(self),
            *final(self) == *final(r),
    {
        self.meta_opf.push(item);
        self
    }

    /// Sets the authors of the EPUB.
    pub fn set_authors(&mut self, value: Vec<String>)
        ensures
            final(self).metadata.author == value,
            (Metadata { author: old(self).metadata.author, ..final(self).metadata }) == old(self).metadata,
            only_metadata_changed(*final(self), *old(self)),
            final(self).zip == old(self).zip,
    {
        self.metadata.author = value;
    }

    /// Add an author to the EPUB.
    pub fn add_author(&mut self, value: &str)
        ensures
            final(self).metadata.author@.len() == old(self).metadata.author@.len() + 1,
            final(self).metadata.author@.last()@ == value@,
            final(self).metadata.author@.drop_last() == old(self).metadata.author@,
            (Metadata { author: old(self).metadata.author, ..final(self).metadata }) == old(self).metadata,
            only_metadata_changed(*final(self), *old(self)),
            final(self).zip == old(self).zip,
    {
        self.metadata.author.push(value.to_owned());
        proof {
            assert(self.metadata.author@.drop_last() =~= old(self).metadata.author@);
        }
    }

    /// Remove all authors from the EPUB.
    pub fn clear_authors(&mut self)
        ensures
            final(self).metadata.author@.len() == 0,
            (Metadata { author: old(self).metadata.author, ..final(self).metadata }) == old(self).metadata,
            only_metadata_changed(*final(self), *old(self)),
            final(self).zip == old(self).zip,
    {
        self.metadata.author = Vec::new();
    }

    /// Sets the title of the EPUB.
    pub fn set_title(&mut self, value: &str)
        ensures
            final(self).metadata.title@ == value@,
            (Metadata { title: old(self).metadata.title, ..final(self).metadata }) == old(self).metadata,
            only_metadata_changed(*final(self), *old(self)),
            final(self).zip == old(self).zip,
    {
        self.metadata.title = value.to_owned();
    }

    /// Tells whether fields should be HTML-escaped.
    ///
    /// * `true`: fields such as titles, descriptions and so on are
    ///   HTML-escaped everywhere (the default)
    /// * `false`: fields are used as they are, leaving you in charge of
    ///   making sure they contain nothing illegal
    pub fn escape_html(&mut self, val: bool)
        ensures
            *final(self) == (EpubBuilder { escape_html: val, ..*old(self) }),
    {
        self.escape_html = val;
    }

    /// Sets the language of the EPUB.
    ///
    /// This is quite important, as EPUB renderers rely on it for e.g.
    /// hyphenating words.
    pub fn set_lang(&mut self, value: &str)
        ensures
            final(self).metadata.lang@ == value@,
            (Metadata { lang: old(self).metadata.lang, ..final(self).metadata }) == old(self).metadata,
            only_metadata_changed(*final(self), *old(self)),
            final(self).zip == old(self).zip,
    {
        self.metadata.lang = value.to_owned();
    }

    /// Sets the generator of the book (should be your program name).
    pub fn set_generator(&mut self, value: &str)
        ensures
            final(self).metadata.generator@ == value@,
            (Metadata { generator: old(self).metadata.generator, ..final(self).metadata }) == old(self).metadata,
            only_metadata_changed(*final(self), *old(self)),
            final(self).zip == old(self).zip,
    {
        self.metadata.generator = value.to_owned();
    }

    /// Sets the name to use for the table of contents (by default, "Table
    /// Of Contents").
    pub fn set_toc_name(&mut self, value: &str)
        ensures
            final(self).metadata.toc_name@ == value@,
            (Metadata { toc_name: old(self).metadata.toc_name, ..final(self).metadata }) == old(self).metadata,
            only_metadata_changed(*final(self), *old(self)),
            final(self).zip == old(self).zip,
    {
        self.metadata.toc_name = value.to_owned();
    }

    /// Sets and replaces the description of the EPUB.
    pub fn set_description(&mut self, value: Vec<String>)
        ensures
            final(self).metadata.description == value,
            (Metadata { description: old(self).metadata.description, ..final(self).metadata })
                == old(self).metadata,
            only_metadata_changed(*final(self), *old(self)),
            final(self).zip == old(self).zip,
    {
        self.metadata.description = value;
    }

    /// Adds a line to the EPUB description.
    pub fn add_description(&mut self, value: &str)
        ensures
            final(self).metadata.description@.len() == old(self).metadata.description@.len() + 1,
            final(self).metadata.description@.last()@ == value@,
            final(self).metadata.description@.drop_last() == old(self).metadata.description@,
            (Metadata { description: old(self).metadata.description, ..final(self).metadata })
                == old(self).metadata,
            only_metadata_changed(*final(self), *old(self)),
            final(self).zip == old(self).zip,
    {
        self.metadata.description.push(value.to_owned());
        proof {
            assert(self.metadata.description@.drop_last() =~= old(self).metadata.description@);
        }
    }

    /// Remove all description paragraphs from the EPUB.
    pub fn clear_description(&mut self)
        ensures
            final(self).metadata.description@.len() == 0,
            (Metadata { description: old(self).metadata.description, ..final(self).metadata })
                == old(self).metadata,
            only_metadata_changed(*final(self), *old(self)),
            final(self).zip == old(self).zip,
    {
        self.metadata.description = Vec::new();
    }

    /// Sets and replaces the subjects of the EPUB.
    pub fn set_subjects(&mut self, value: Vec<String>)
        ensures
            final(self).metadata.subject == value,
            (Metadata { subject: old(self).metadata.subject, ..final(self).metadata }) == old(self).metadata,
            only_metadata_changed(*final(self), *old(self)),
            final(self).zip == old(self).zip,
    {
        self.metadata.subject = value;
    }

    /// Adds a value to the subjects.
    pub fn add_subject(&mut self, value: &str)
        ensures
            final(self).metadata.subject@.len() == old(self).metadata.subject@.len() + 1,
            final(self).metadata.subject@.last()@ == value@,
            final(self).metadata.subject@.drop_last() == old(self).metadata.subject@,
            (Metadata { subject: old(self).metadata.subject, ..final(self).metadata }) == old(self).metadata,
            only_metadata_changed(*final(self), *old(self)),
            final(self).zip == old(self).zip,
    {
        self.metadata.subject.push(value.to_owned());
        proof {
            assert(self.metadata.subject@.drop_last() =~= old(self).metadata.subject@);
        }
    }

    /// Remove all the subjects from the EPUB.
    pub fn clear_subjects(&mut self)
        ensures
            final(self).metadata.subject@.len() == 0,
            (Metadata { subject: old(self).metadata.subject, ..final(self).metadata }) == old(self).metadata,
            only_metadata_changed(*final(self), *old(self)),
            final(self).zip == old(self).zip,
    {
        self.metadata.subject = Vec::new();
    }

    /// Sets the license under which this EPUB is distributed.
    pub fn set_license(&mut self, value: &str)
        ensures
            (match final(self).metadata.license {
                Option::Some(l) => l@ == value@,
                Option::None => false,
            }),
            (Metadata { license: old(self).metadata.license, ..final(self).metadata }) == old(self).metadata,
            only_metadata_changed(*final(self), *old(self)),
            final(self).zip == old(self).zip,
    {
        self.metadata.license = Option::Some(value.to_owned());
    }

    /// Sets the publication date of the EPUB.
    pub fn set_publication_date(&mut self, date_published: EpubDate)
        ensures
            final(self).metadata.date_published == Option::Some(date_published),
            (Metadata {
                date_published: old(self).metadata.date_published,
                ..final(self).metadata
            }) == old(self).metadata,
            only_metadata_changed(*final(self), *old(self)),
            final(self).zip == old(self).zip,
    {
        self.metadata.date_published = Option::Some(date_published);
    }

    /// Sets the date on which the EPUB was last modified.
    ///
    /// This value is part of the metadata. If this function is not called,
    /// the moment of generation is used instead.
    pub fn set_modified_date(&mut self, date_modified: EpubDate)
        ensures
            final(self).metadata.date_modified == Option::Some(date_modified),
            (Metadata {
                date_modified: old(self).metadata.date_modified,
                ..final(self).metadata
            }) == old(self).metadata,
            only_metadata_changed(*final(self), *old(self)),
            final(self).zip == old(self).zip,
    {
        self.metadata.date_modified = Option::Some(date_modified);
    }

    /// Set some EPUB metadata under a textual key.
    ///
    /// For most keys this replaces the existing value. `author`,
    /// `description` and `subject` can hold several values: a non-empty
    /// value is appended, and the empty string clears them. The keys
    /// accepted are `author`, `title`, `lang`, `direction`, `generator`,
    /// `description`, `subject`, `license` and `toc_name`; any other key is
    /// rejected, and so is a `direction` value that is neither `ltr` nor
    /// `rtl` (ignoring case).
    pub fn metadata(&mut self, key: &str, value: &str) -> (r: Result<(), Error>)
        ensures
            (EpubBuilder { metadata: old(self).metadata, ..*final(self) }) == *old(self),
            key@ == "author"@ ==> r is Ok && (Metadata {
                author: old(self).metadata.author,
                ..final(self).metadata
            }) == old(self).metadata && (if value@.len() == 0 {
                final(self).metadata.author@.len() == 0
            } else {
                final(self).metadata.author@.len() == old(self).metadata.author@.len() + 1
                    && final(self).metadata.author@.last()@ == value@ && final(self).metadata.author@.drop_last() == old(self).metadata.author@
            }),
            key@ == "title"@ ==> r is Ok && final(self).metadata.title@ == value@ && (Metadata {
                title: old(self).metadata.title,
                ..final(self).metadata
            }) == old(self).metadata,
            key@ == "lang"@ ==> r is Ok && final(self).metadata.lang@ == value@ && (Metadata {
                lang: old(self).metadata.lang,
                ..final(self).metadata
            }) == old(self).metadata,
            key@ == "direction"@ ==> ((r is Ok <==> (lower_of(value@) == "rtl"@ || lower_of(value@)
                == "ltr"@)) && (r is Ok ==> (Metadata {
                direction: old(self).metadata.direction,
                ..final(self).metadata
            }) == old(self).metadata && (lower_of(value@) == "rtl"@ ==> final(self).metadata.direction is Rtl) && (lower_of(value@) == "ltr"@ ==> final(self).metadata.direction is Ltr)) && (r is Err ==> *final(self) == *old(self))),
            key@ == "generator"@ ==> r is Ok && final(self).metadata.generator@ == value@ && (
            Metadata { generator: old(self).metadata.generator, ..final(self).metadata }) == old(self).metadata,
            key@ == "description"@ ==> r is Ok && (Metadata {
                description: old(self).metadata.description,
                ..final(self).metadata
            }) == old(self).metadata && (if value@.len() == 0 {
                final(self).metadata.description@.len() == 0
            } else {
                final(self).metadata.description@.len() == old(self).metadata.description@.len()
                    + 1 && final(self).metadata.description@.last()@ == value@ && final(self).metadata.description@.drop_last() == old(self).metadata.description@
            }),
            key@ == "subject"@ ==> r is Ok && (Metadata {
                subject: old(self).metadata.subject,
                ..final(self).metadata
            }) == old(self).metadata && (if value@.len() == 0 {
                final(self).metadata.subject@.len() == 0
            } else {
                final(self).metadata.subject@.len() == old(self).metadata.subject@.len() + 1
                    && final(self).metadata.subject@.last()@ == value@ && final(self).metadata.subject@.drop_last() == old(self).metadata.subject@
            }),
            key@ == "license"@ ==> r is Ok && (match final(self).metadata.license {
                Option::Some(l) => l@ == value@,
                Option::None => false,
            }) && (Metadata { license: old(self).metadata.license, ..final(self).metadata }) == old(self).metadata,
            key@ == "toc_name"@ ==> r is Ok && final(self).metadata.toc_name@ == value@ && (
            Metadata { toc_name: old(self).metadata.toc_name, ..final(self).metadata }) == old(self).metadata,
            (key@ != "author"@ && key@ != "title"@ && key@ != "lang"@ && key@ != "direction"@
                && key@ != "generator"@ && key@ != "description"@ && key@ != "subject"@ && key@
                != "license"@ && key@ != "toc_name"@) ==> (*final(self) == *old(self) && (match r {
                Result::Err(Error::InvalidMetadataError(m)) => m@ == key@,
                _ => false,
            })),
    {
        proof {
            reveal_strlit("author");
            reveal_strlit("title");
            reveal_strlit("lang");
            reveal_strlit("direction");
            reveal_strlit("generator");
            reveal_strlit("description");
            reveal_strlit("subject");
            reveal_strlit("license");
            reveal_strlit("toc_name");
            assert("author"@.len() == 6);
            assert("title"@.len() == 5);
            assert("lang"@.len() == 4);
            assert("direction"@.len() == 9);
            assert("generator"@.len() == 9);
            assert("description"@.len() == 11);
            assert("subject"@.len() == 7);
            assert("license"@.len() == 7);
            assert("toc_name"@.len() == 8);
            assert("direction"@[0] == 'd');
            assert("generator"@[0] == 'g');
            assert("subject"@[0] == 's');
            assert("license"@[0] == 'l');
        }
        if str_eq(key, "author") {
            if value.is_empty() {
                self.metadata.author = Vec::new();
            } else {
                self.metadata.author.push(value.to_owned());
                proof {
                    assert(self.metadata.author@.drop_last() =~= old(self).metadata.author@);
                }
            }
            Ok(())
        } else if str_eq(key, "title") {
            self.metadata.title = value.to_owned();
            Ok(())
        } else if str_eq(key, "lang") {
            self.metadata.lang = value.to_owned();
            Ok(())
        } else if str_eq(key, "direction") {
            match PageDirection::from_str(value) {
                Ok(d) => {
                    self.metadata.direction = d;
                    Ok(())
                },
                Err(e) => Err(e),
            }
        } else if str_eq(key, "generator") {
            self.metadata.generator = value.to_owned();
            Ok(())
        } else if str_eq(key, "description") {
            if value.is_empty() {
                self.metadata.description = Vec::new();
            } else {
                self.metadata.description.push(value.to_owned());
                proof {
                    assert(self.metadata.description@.drop_last() =~= old(self).metadata.description@);
                }
            }
            Ok(())
        } else if str_eq(key, "subject") {
            if value.is_empty() {
                self.metadata.subject = Vec::new();
            } else {
                self.metadata.subject.push(value.to_owned());
                proof {
                    assert(self.metadata.subject@.drop_last() =~= old(self).metadata.subject@);
                }
            }
            Ok(())
        } else if str_eq(key, "license") {
            self.metadata.license = Option::Some(value.to_owned());
            Ok(())
        } else if str_eq(key, "toc_name") {
            self.metadata.toc_name = value.to_owned();
            Ok(())
        } else {
            Err(Error::InvalidMetadataError(key.to_owned()))
        }
    }

    /// Sets the stylesheet of the EPUB.
    ///
    /// The content is written into a `stylesheet.css` file; it is used by
    /// some generated pages, and your own documents may link it as well.
    pub fn stylesheet(&mut self, content: &[u8]) -> (r: Result<(), Error>)
        ensures
            r is Ok ==> (EpubBuilder {
                files: old(self).files,
                stylesheet: old(self).stylesheet,
                zip: final(self).zip,
                ..*final(self)
            }) == (EpubBuilder { zip: final(self).zip, ..*old(self) }) && final(self).stylesheet
                && final(self).files@.len() == old(self).files@.len() + 1 && final(self).files@.drop_last() == old(self).files@ && final(self).files@.last().file@
                == "stylesheet.css"@ && final(self).files@.last().mime@ == "text/css"@,
            r is Err ==> (EpubBuilder { zip: final(self).zip, ..*final(self) }) == (EpubBuilder {
                zip: final(self).zip,
                ..*old(self)
            }),
    {
        match self.add_resource("stylesheet.css", content, "text/css") {
            Ok(_) => {
                self.stylesheet = true;
                Ok(())
            },
            Err(e) => Err(e),
        }
    }

    /// Adds an inline table of contents to the document.
    ///
    /// If this method is called, a page holding the table of contents that
    /// appears in the document is added. Where it lands depends on when you
    /// call this method: before any content, it will be at the beginning;
    /// after, at the end.
    pub fn inline_toc(&mut self) -> (r: &mut Self)
        ensures
            r.inline_toc,
            r.toc.model() == toc_insert(
                old(self).toc.model(),
                (ElemModel {
                    level: 1,
                    url: "toc.xhtml"@,
                    title: old(self).metadata.toc_name@,
                    raw_title: Option::None,
                    children: Seq::empty(),
                }),
            ),
            r.files@.len() == old(self).files@.len() + 1,
            r.files@.drop_last() == old(self).files@,
            r.files@.last().file@ == "toc.xhtml"@,
            r.files@.last().mime@ == "application/xhtml+xml"@,
            r.files@.last().itemref,
            !r.files@.last().cover,
            r.files@.last().reftype == Option::Some(ReferenceType::Toc),
            r.files@.last().title@ == old(self).metadata.toc_name@,
            (EpubBuilder {
                toc: old(self).toc,
                files: old(self).files,
                inline_toc: old(self).inline_toc,
                ..*r
            }) == *old(self),
            *final(self) == *final(r),
    {
        self.inline_toc = true;
        let name = self.metadata.toc_name.clone();
        self.toc.add(TocElement::new("toc.xhtml", name.as_str()));
        let mut file = Content::new("toc.xhtml", "application/xhtml+xml");
        file.reftype = Option::Some(ReferenceType::Toc);
        file.title = self.metadata.toc_name.clone();
        file.itemref = true;
        self.files.push(file);
        proof {
            assert(self.files@.drop_last() =~= old(self).files@);
        }
        self
    }

    /// Add a resource to the EPUB file.
    ///
    /// A resource can be a picture, a font, some CSS file, ... Unlike
    /// `add_content`, files added this way don't appear in the linear
    /// document.
    ///
    /// The file is stored under an `OEBPS` directory inside the archive, so
    /// the path should not (and need not) carry that prefix.
    pub fn add_resource(&mut self, path: &str, content: &[u8], mime_type: &str) -> (r: Result<
        (),
        Error,
    >)
        ensures
            r is Ok ==> (EpubBuilder {
                files: old(self).files,
                zip: final(self).zip,
                ..*final(self)
            }) == (EpubBuilder { zip: final(self).zip, ..*old(self) }) && final(self).files@.len()
                == old(self).files@.len() + 1 && final(self).files@.drop_last() == old(self).files@
                && final(self).files@.last().file@ == path@ && final(self).files@.last().mime@
                == mime_type@ && !final(self).files@.last().itemref && !final(self).files@.last().cover && final(self).files@.last().reftype is None && final(self).files@.last().title@.len() == 0,
            r is Err ==> (EpubBuilder { zip: final(self).zip, ..*final(self) }) == (EpubBuilder {
                zip: final(self).zip,
                ..*old(self)
            }),
    {
        let mut zip_path: String = "OEBPS/".to_owned();
        zip_path.append(path);
        match self.zip.write_file(zip_path.as_str(), content) {
            Ok(_) => (),
            Err(e) => {
                return Err(e);
            },
        }
        self.files.push(Content::new(path, mime_type));
        proof {
            assert(self.files@.drop_last() =~= old(self).files@);
        }
        Ok(())
    }

    /// Add a cover image to the EPUB.
    ///
    /// This works like adding the image with `add_resource`, except that it
    /// is also signalled in the manifest section, so e-readers display it as
    /// the cover.
    pub fn add_cover_image(&mut self, path: &str, content: &[u8], mime_type: &str) -> (r: Result<
        (),
        Error,
    >)
        ensures
            r is Ok ==> (EpubBuilder {
                files: old(self).files,
                zip: final(self).zip,
                ..*final(self)
            }) == (EpubBuilder { zip: final(self).zip, ..*old(self) }) && final(self).files@.len()
                == old(self).files@.len() + 1 && final(self).files@.drop_last() == old(self).files@
                && final(self).files@.last().file@ == path@ && final(self).files@.last().mime@
                == mime_type@ && !final(self).files@.last().itemref && final(self).files@.last().cover && final(self).files@.last().reftype is None && final(self).files@.last().title@.len() == 0,
            r is Err ==> (EpubBuilder { zip: final(self).zip, ..*final(self) }) == (EpubBuilder {
                zip: final(self).zip,
                ..*old(self)
            }),
    {
        let mut zip_path: String = "OEBPS/".to_owned();
        zip_path.append(path);
        match self.zip.write_file(zip_path.as_str(), content) {
            Ok(_) => (),
            Err(e) => {
                return Err(e);
            },
        }
        let mut file = Content::new(path, mime_type);
        file.cover = true;
        self.files.push(file);
        proof {
            assert(self.files@.drop_last() =~= old(self).files@);
        }
        Ok(())
    }

    /// Add a XHTML content file to the EPUB.
    ///
    /// The file lands under the `OEBPS` directory, takes part in the linear
    /// reading order, and — when its entry carries a title — is inserted
    /// into the table of contents.
    pub fn add_content(&mut self, content: EpubContent) -> (r: Result<(), Error>)
        ensures
            r is Ok ==> (EpubBuilder {
                files: old(self).files,
                toc: old(self).toc,
                zip: final(self).zip,
                ..*final(self)
            }) == (EpubBuilder { zip: final(self).zip, ..*old(self) }) && final(self).files@.len()
                == old(self).files@.len() + 1 && final(self).files@.drop_last() == old(self).files@
                && final(self).files@.last().file@ == content.toc.url@ && final(self).files@.last().mime@ == "application/xhtml+xml"@ && final(self).files@.last().itemref
                && !final(self).files@.last().cover && final(self).files@.last().reftype
                == content.reftype && final(self).files@.last().title@ == (if content.reftype
                is Some {
                content.toc.title@
            } else {
                Seq::<char>::empty()
            }) && final(self).toc.model() == (if content.toc.model().title.len() > 0 {
                toc_insert(old(self).toc.model(), content.toc.model())
            } else {
                old(self).toc.model()
            }),
            r is Err ==> (EpubBuilder { zip: final(self).zip, ..*final(self) }) == (EpubBuilder {
                zip: final(self).zip,
                ..*old(self)
            }),
    {
        let mut zip_path: String = "OEBPS/".to_owned();
        zip_path.append(content.toc.url.as_str());
        match self.zip.write_file(zip_path.as_str(), content.content.as_slice()) {
            Ok(_) => (),
            Err(e) => {
                return Err(e);
            },
        }
        let mut file = Content::new(content.toc.url.as_str(), "application/xhtml+xml");
        file.itemref = true;
        file.reftype = content.reftype;
        if file.reftype.is_some() {
            file.title = content.toc.title.clone();
        }
        self.files.push(file);
        proof {
            assert(self.files@.drop_last() =~= old(self).files@);
        }
        if !content.toc.title.as_str().is_empty() {
            self.toc.add(content.toc);
        }
        Ok(())
    }

    /// Sets the identifier used for the EPUB, as its 128 bits.
    ///
    /// This is useful for reproducibly generating epubs.
    pub fn set_uuid(&mut self, uuid: u128)
        ensures
            final(self).metadata.uuid == Option::Some(uuid),
            (Metadata { uuid: old(self).metadata.uuid, ..final(self).metadata }) == old(self).metadata,
            only_metadata_changed(*final(self), *old(self)),
            final(self).zip == old(self).zip,
    {
        self.metadata.uuid = Option::Some(uuid);
    }

    /// Render the package document, for the given modification moment and
    /// book identifier (the callers resolve the defaults).
    fn render_opf(&self, modified: EpubDate, book_id: u128) -> (r: String)
        requires
            modified.wf(),
            (match self.metadata.date_published {
                Option::Some(d) => d.wf(),
                Option::None => true,
            }),
        ensures
            r@ == opf_text(*self, modified, book_id),
    {
        let urn = format_urn(book_id);
        let title = encode_html(self.metadata.title.as_str(), self.escape_html);
        let lang = escape_text_exec(self.metadata.lang.as_str());
        let generator = escape_attr_exec(self.metadata.generator.as_str());
        let modified_text = modified.format_iso();
        let date_pub: String = match self.metadata.date_published {
            Option::Some(d) => {
                let mut line: Vec<char> = to_chars("    <dc:date>");
                let iso = d.format_iso();
                append_str(&mut line, iso.as_str());
                append_str(&mut line, "</dc:date>\n");
                chars_to_string(&line)
            },
            Option::None => String::new(),
        };
        let authors = opf_authors(&self.metadata.author, self.escape_html);
        let authors_ind = indent(authors.0.as_str(), 2);
        let optional = opf_optional(
            &self.metadata.description,
            &self.metadata.subject,
            &self.metadata.license,
            &self.meta_opf,
            &self.files,
            self.escape_html,
        );
        let optional_ind = indent(optional.0.as_str(), 2);
        let items = opf_items(&self.files, self.version);
        let items_ind = indent(items.0.as_str(), 2);
        let itemrefs = opf_itemrefs(&self.files);
        let itemrefs_ind = indent(itemrefs.0.as_str(), 2);
        let guide = opf_guide(&self.files);
        let guide_ind = indent(guide.0.as_str(), 2);
        let direction = self.metadata.direction.to_string();
        let vattr: &str = match self.version {
            EpubVersion::V20 => "2.0",
            _ => "3.0",
        };
        let mut out: Vec<char> = to_chars(
            "<?xml version=\"1.0\" encoding=\"UTF-8\"?>\n<package xmlns=\"http://www.idpf.org/2007/opf\" version=\"",
        );
        append_str(&mut out, vattr);
        append_str(
            &mut out,
            "\" unique-identifier=\"book_id\">\n  <metadata xmlns:dc=\"http://purl.org/dc/elements/1.1/\" xmlns:opf=\"http://www.idpf.org/2007/opf\">\n    <dc:identifier id=\"book_id\">",
        );
        append_str(&mut out, urn.as_str());
        append_str(&mut out, "</dc:identifier>\n    <dc:title>");
        append_str(&mut out, title.as_str());
        append_str(&mut out, "</dc:title>\n    <dc:language>");
        append_str(&mut out, lang.as_str());
        append_str(&mut out, "</dc:language>\n    <meta name=\"generator\" content=\"");
        append_str(&mut out, generator.as_str());
        append_str(&mut out, "\"/>\n    <meta property=\"dcterms:modified\">");
        append_str(&mut out, modified_text.as_str());
        append_str(&mut out, "</meta>\n");
        append_str(&mut out, date_pub.as_str());
        append_str(&mut out, authors_ind.as_str());
        append_str(&mut out, "\n");
        append_str(&mut out, optional_ind.as_str());
        append_str(&mut out, "\n");
        append_str(
            &mut out,
            "  </metadata>\n  <manifest>\n    <item media-type=\"application/x-dtbncx+xml\" id=\"ncx\" href=\"toc.ncx\"/>\n    <item media-type=\"application/xhtml+xml\" properties=\"nav\" id=\"nav\" href=\"nav.xhtml\"/>\n",
        );
        append_str(&mut out, items_ind.as_str());
        append_str(&mut out, "\n");
        append_str(&mut out, "  </manifest>\n  <spine page-progression-direction=\"");
        append_str(&mut out, direction.as_str());
        append_str(&mut out, "\" toc=\"ncx\">\n");
        append_str(&mut out, itemrefs_ind.as_str());
        append_str(&mut out, "\n");
        append_str(&mut out, "  </spine>\n  <guide>\n");
        append_str(&mut out, guide_ind.as_str());
        append_str(&mut out, "\n");
        append_str(&mut out, "  </guide>\n</package>\n");
        let r = chars_to_string(&out);
        proof {
            assert(vattr@ == version_attr(self.version));
            assert(r@ == opf_text(*self, modified, book_id));
        }
        r
    }

    /// Render the navigation-control document (`toc.ncx`).
    fn render_toc(&mut self) -> (r: String)
        requires
            count_models(old(self).toc.model()) <= u32::MAX,
        ensures
            r@ == ncx_text(*old(self)),
            *final(self) == *old(self),
    {
        let escape = self.escape_html;
        let nav_points = self.toc.render_epub(escape);
        let toc_name = encode_html(self.metadata.toc_name.as_str(), escape);
        let mut out: Vec<char> = to_chars(
            "<?xml version=\"1.0\" encoding=\"UTF-8\"?>\n<ncx xmlns=\"http://www.daisy.org/z3986/2005/ncx/\" version=\"2005-1\">\n  <head>\n    <meta name=\"dtb:depth\" content=\"1\"/>\n    <meta name=\"dtb:totalPageCount\" content=\"0\"/>\n    <meta name=\"dtb:maxPageNumber\" content=\"0\"/>\n  </head>\n  <docTitle>\n    <text>",
        );
        append_str(&mut out, toc_name.as_str());
        append_str(&mut out, "</text>\n  </docTitle>\n  <navMap>\n");
        append_str(&mut out, nav_points.as_str());
        append_str(&mut out, "\n  </navMap>\n</ncx>\n");
        chars_to_string(&out)
    }

    /// Render the navigation document (`nav.xhtml`, or the inline
    /// `toc.xhtml` when `numbered` is off).
    fn render_nav(&mut self, numbered: bool) -> (r: String)
        ensures
            r@ == nav_text(*old(self), numbered),
            *final(self) == *old(self),
    {
        let escape = self.escape_html;
        let content = self.toc.render(numbered, escape);
        let toc_name = encode_html(self.metadata.toc_name.as_str(), escape);
        let generator = escape_attr_exec(self.metadata.generator.as_str());
        let is_v30 = match self.version {
            EpubVersion::V30 => true,
            _ => false,
        };
        let lblock: String = if is_v30 {
            let landmarks = nav_landmarks(&self.files, escape);
            if !landmarks.1 {
                let mut inner: Vec<char> = to_chars("<ol>\n");
                let lm_ind = indent(landmarks.0.as_str(), 1);
                append_str(&mut inner, lm_ind.as_str());
                append_str(&mut inner, "\n</ol>");
                let inner_string = chars_to_string(&inner);
                let inner_ind = indent(inner_string.as_str(), 3);
                let mut block: Vec<char> = to_chars("    <nav epub:type=\"landmarks\">\n");
                append_str(&mut block, inner_ind.as_str());
                append_str(&mut block, "\n    </nav>\n");
                chars_to_string(&block)
            } else {
                String::new()
            }
        } else {
            String::new()
        };
        let mut out: Vec<char> = to_chars(
            "<?xml version=\"1.0\" encoding=\"UTF-8\"?>\n<!DOCTYPE html>\n<html xmlns=\"http://www.w3.org/1999/xhtml\" xmlns:epub=\"http://www.idpf.org/2007/ops\">\n  <head>\n    <title>",
        );
        append_str(&mut out, toc_name.as_str());
        append_str(&mut out, "</title>\n    <meta name=\"generator\" content=\"");
        append_str(&mut out, generator.as_str());
        append_str(
            &mut out,
            "\"/>\n    <link rel=\"stylesheet\" type=\"text/css\" href=\"stylesheet.css\"/>\n  </head>\n  <body>\n    <nav epub:type=\"toc\">\n      <h1>",
        );
        append_str(&mut out, toc_name.as_str());
        append_str(&mut out, "</h1>\n");
        append_str(&mut out, content.as_str());
        append_str(&mut out, "\n    </nav>\n");
        append_str(&mut out, lblock.as_str());
        append_str(&mut out, "  </body>\n</html>\n");
        let r = chars_to_string(&out);
        proof {
            assert(r@ == nav_text(*old(self), numbered));
        }
        r
    }

    /// Generate the EPUB file and hand back the archive's bytes.
    ///
    /// A stylesheet is supplied if none was set; the package, navigation
    /// and (when requested) inline-toc documents are rendered and written;
    /// then the archive writer finishes the file. The date and identifier
    /// defaults come from the clock and a fresh random identifier.
    pub fn generate(self) -> (r: Result<Vec<u8>, Error>)
        requires
            count_models(self.toc.model()) <= u32::MAX,
            (match self.metadata.date_published {
                Option::Some(d) => d.wf(),
                Option::None => true,
            }),
            (match self.metadata.date_modified {
                Option::Some(d) => d.wf(),
                Option::None => true,
            }),
    {
        let mut this = self;
        if !this.stylesheet {
            match this.stylesheet("".as_bytes()) {
                Ok(_) => (),
                Err(e) => {
                    return Err(e);
                },
            }
        }
        let modified: EpubDate = match this.metadata.date_modified {
            Option::Some(d) => d,
            Option::None => current_date(),
        };
        let book_id: u128 = match this.metadata.uuid {
            Option::Some(u) => u,
            Option::None => fresh_uuid_bits(),
        };
        let opf = this.render_opf(modified, book_id);
        match this.zip.write_file("OEBPS/content.opf", opf.as_str().as_bytes()) {
            Ok(_) => (),
            Err(e) => {
                return Err(e);
            },
        }
        let ncx = this.render_toc();
        match this.zip.write_file("OEBPS/toc.ncx", ncx.as_str().as_bytes()) {
            Ok(_) => (),
            Err(e) => {
                return Err(e);
            },
        }
        let nav = this.render_nav(true);
        match this.zip.write_file("OEBPS/nav.xhtml", nav.as_str().as_bytes()) {
            Ok(_) => (),
            Err(e) => {
                return Err(e);
            },
        }
        if this.inline_toc {
            let inline = this.render_nav(false);
            match this.zip.write_file("OEBPS/toc.xhtml", inline.as_str().as_bytes()) {
                Ok(_) => (),
                Err(e) => {
                    return Err(e);
                },
            }
        }
        this.zip.generate()
    }
}

} // verus!
