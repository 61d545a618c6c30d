//! Access to the `quick-xml` pull parser.
//!
//! The reader and its tag and text events are `quick-xml` values the
//! library carries through unchanged; each call that reads from them is a
//! small trusted wrapper. `quick-xml` reads a document deterministically,
//! so what the `k`-th read of a document gives is a function of the text
//! and `k`: the reader keeps the count of events it has handed out, each
//! tag and text event remembers its place, and every wrapper's result is
//! named as a function of that place.

use vstd::prelude::*;
use quick_xml::Reader;
use quick_xml::events::{BytesStart, BytesText, Event};

verus! {

/// `quick_xml::Reader`, a pull parser over an input source.
#[verifier::external_type_specification]
#[verifier::external_body]
#[verifier::reject_recursive_types(R)]
pub struct ExReader<R>(Reader<R>);

/// `quick_xml::events::BytesText`, escaped character data.
#[verifier::external_type_specification]
#[verifier::external_body]
pub struct ExBytesText<'a>(BytesText<'a>);

/// `quick_xml::events::BytesStart`, an opening or self-closing tag.
#[verifier::external_type_specification]
#[verifier::external_body]
pub struct ExBytesStart<'a>(BytesStart<'a>);

/// A `quick-xml` reader over a document, with the document's text and
/// the number of events it has handed out so far. Only this module makes
/// or advances one, so the count is always the reader's own.
pub struct XmlSource<'a> {
    reader: Reader<&'a [u8]>,
    text: Ghost<Seq<char>>,
    seen: Ghost<nat>,
}

impl<'a> XmlSource<'a> {
    /// The document being read.
    pub closed spec fn text(&self) -> Seq<char> {
        self.text@
    }

    /// How many events have been read.
    pub closed spec fn seen(&self) -> nat {
        self.seen@
    }
}

/// An opening or self-closing tag: the `k`-th event of `text`.
pub struct Tag<'a> {
    start: BytesStart<'a>,
    origin: Ghost<(Seq<char>, nat)>,
}

impl<'a> Tag<'a> {
    /// The document the tag was read from.
    pub closed spec fn text(&self) -> Seq<char> {
        self.origin@.0
    }

    /// The tag's place among the document's events.
    pub closed spec fn at(&self) -> nat {
        self.origin@.1
    }
}

/// Escaped character data: the `k`-th event of `text`.
pub struct Chars<'a> {
    body: BytesText<'a>,
    origin: Ghost<(Seq<char>, nat)>,
}

impl<'a> Chars<'a> {
    /// The document the text was read from.
    pub closed spec fn text(&self) -> Seq<char> {
        self.origin@.0
    }

    /// The text's place among the document's events.
    pub closed spec fn at(&self) -> nat {
        self.origin@.1
    }
}

/// One parse event, as the library consumes it.
pub enum XmlEvent<'a> {
    /// `<tag ...>`
    Start(Tag<'a>),
    /// `<tag .../>`
    Empty(Tag<'a>),
    /// `</tag>`, with the tag's name.
    End(String),
    /// Character data between tags, still escaped.
    Text(Chars<'a>),
    /// End of the document.
    Eof,
    /// Anything else (comments, declarations, CDATA, ...).
    Other,
}

/// A parse failure: the reader's byte position and the parser's message.
pub struct XmlFailure {
    pub position: u64,
    pub message: String,
}

/// What the `k`-th read of a document gives, as plain values.
pub enum XmlEventV {
    Start,
    Empty,
    End(Seq<char>),
    Text,
    Eof,
    Other,
    Fail(nat, Seq<char>),
}

/// The `k`-th event (counting from 0) that `Reader::read_event` hands out
/// for the document `text`, with whitespace around text trimmed.
pub uninterp spec fn xml_event_at(text: Seq<char>, k: nat) -> XmlEventV;

/// The name of the tag that is the `k`-th event of `text`
/// (`BytesStart::name`, decoded lossily as UTF-8).
pub uninterp spec fn tag_name_at(text: Seq<char>, k: nat) -> Seq<char>;

/// The attributes of the tag that is the `k`-th event of `text`, each key
/// with its decoded, unescaped value, or the first failure's message.
pub uninterp spec fn tag_attrs_at(text: Seq<char>, k: nat) -> Result<Seq<(Seq<char>, Seq<char>)>, Seq<char>>;

/// The unescaped character data that is the `k`-th event of `text`
/// (`BytesText::unescape`), or the failure's message.
pub uninterp spec fn text_at(text: Seq<char>, k: nat) -> Result<Seq<char>, Seq<char>>;

/// The plain view of an attribute list or its failure.
pub open spec fn attrs_result(r: Result<Vec<(String, String)>, String>) -> Result<Seq<(Seq<char>, Seq<char>)>, Seq<char>> {
    match r {
        Ok(v) => Ok(v@.map_values(|p: (String, String)| (p.0@, p.1@))),
        Err(m) => Err(m@),
    }
}

/// A reader over `xml` that trims whitespace around text
/// (`Reader::from_str` with `trim_text(true)`), before its first event.
#[verifier::external_body]
pub fn xml_reader<'a>(xml: &'a str) -> (r: XmlSource<'a>)
    ensures
        r.text() == xml@,
        r.seen() == 0,
{
    let mut reader = Reader::from_str(xml);
    reader.config_mut().trim_text(true);
    XmlSource { reader, text: Ghost(xml@), seen: Ghost(0) }
}

/// Count one more event read from `src`; the place of that event.
fn advance(src: &mut XmlSource) -> (origin: Ghost<(Seq<char>, nat)>)
    ensures
        origin@ == (old(src).text(), old(src).seen()),
        final(src).text() == old(src).text(),
        final(src).seen() == old(src).seen() + 1,
{
    let origin = Ghost((src.text@, src.seen@));
    src.seen = Ghost(src.seen@ + 1);
    origin
}

/// The next event (`Reader::read_event`), or the parser's failure with
/// the reader's byte position: the `seen`-th event of the document.
#[verifier::external_body]
pub fn xml_next<'a>(src: &mut XmlSource<'a>) -> (r: Result<XmlEvent<'a>, XmlFailure>)
    ensures
        final(src).text() == old(src).text(),
        final(src).seen() == old(src).seen() + 1,
        match r {
            Err(f) => xml_event_at(old(src).text(), old(src).seen()) == XmlEventV::Fail(f.position as nat, f.message@),
            Ok(XmlEvent::Start(t)) => xml_event_at(old(src).text(), old(src).seen()) == XmlEventV::Start
                && t.text() == old(src).text() && t.at() == old(src).seen(),
            Ok(XmlEvent::Empty(t)) => xml_event_at(old(src).text(), old(src).seen()) == XmlEventV::Empty
                && t.text() == old(src).text() && t.at() == old(src).seen(),
            Ok(XmlEvent::End(n)) => xml_event_at(old(src).text(), old(src).seen()) == XmlEventV::End(n@),
            Ok(XmlEvent::Text(c)) => xml_event_at(old(src).text(), old(src).seen()) == XmlEventV::Text
                && c.text() == old(src).text() && c.at() == old(src).seen(),
            Ok(XmlEvent::Eof) => xml_event_at(old(src).text(), old(src).seen()) == XmlEventV::Eof,
            Ok(XmlEvent::Other) => xml_event_at(old(src).text(), old(src).seen()) == XmlEventV::Other,
        },
{
    let origin = advance(src);
    match src.reader.read_event() {
        Ok(Event::Start(e)) => Ok(XmlEvent::Start(Tag { start: e, origin })),
        Ok(Event::Empty(e)) => Ok(XmlEvent::Empty(Tag { start: e, origin })),
        Ok(Event::End(e)) => Ok(XmlEvent::End(String::from_utf8_lossy(&e).into_owned())),
        Ok(Event::Text(t)) => Ok(XmlEvent::Text(Chars { body: t, origin })),
        Ok(Event::Eof) => Ok(XmlEvent::Eof),
        Ok(_) => Ok(XmlEvent::Other),
        Err(err) => Err(XmlFailure { position: src.reader.buffer_position(), message: err.to_string() }),
    }
}

/// The text with its entity and character references resolved
/// (`BytesText::unescape`), or the failure's message.
#[verifier::external_body]
pub fn text_unescaped(c: &Chars) -> (r: Result<String, String>)
    ensures
        match r {
            Ok(s) => text_at(c.text(), c.at()) == Ok::<Seq<char>, Seq<char>>(s@),
            Err(m) => text_at(c.text(), c.at()) == Err::<Seq<char>, Seq<char>>(m@),
        },
{
    match c.body.unescape() {
        Ok(s) => Ok(s.into_owned()),
        Err(err) => Err(err.to_string()),
    }
}

/// The tag's name (`BytesStart::name`).
#[verifier::external_body]
pub fn tag_name(t: &Tag) -> (r: String)
    ensures
        r@ == tag_name_at(t.text(), t.at()),
{
    String::from_utf8_lossy(t.start.name().as_ref()).into_owned()
}

/// The tag's attributes in document order, each key with its decoded and
/// unescaped value (`BytesStart::attributes` and
/// `Attribute::decode_and_unescape_value` with the reader's decoder); the
/// first failure's message otherwise.
#[verifier::external_body]
pub fn tag_attrs(t: &Tag, src: &XmlSource) -> (r: Result<Vec<(String, String)>, String>)
    ensures
        attrs_result(r) == tag_attrs_at(t.text(), t.at()),
{
    let mut out = Vec::new();
    for attr in t.start.attributes() {
        let attr = attr.map_err(|err| err.to_string())?;
        let value = attr.decode_and_unescape_value(src.reader.decoder()).map_err(|err| err.to_string())?;
        out.push((String::from_utf8_lossy(attr.key.as_ref()).into_owned(), value.into_owned()));
    }
    Ok(out)
}

} // verus!
