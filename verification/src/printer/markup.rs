//! The elements of a print job, as the XML reader hands them out.
//!
//! Reading XML is left to `quick_xml`. What this module adds is the plain
//! form of each event that the translator works on, and the contracts under
//! which the reader is called.

use quick_xml::events::attributes::Attribute;
use quick_xml::events::{BytesStart, Event};
use quick_xml::name::QName;
use quick_xml::Reader;
use std::borrow::Cow;
use vstd::prelude::*;

verus! {

/// `quick_xml::Reader`, a pull parser over a source of bytes.
#[verifier::external_type_specification]
#[verifier::external_body]
#[verifier::reject_recursive_types(R)]
pub struct ExReader<R>(quick_xml::Reader<R>);

/// `quick_xml::Error`, the failure of reading or decoding markup.
#[verifier::external_type_specification]
#[verifier::external_body]
pub struct ExXmlError(quick_xml::Error);

/// `quick_xml::events::BytesStart`, the inside of an opening tag.
#[verifier::external_type_specification]
#[verifier::external_body]
pub struct ExBytesStart<'a>(quick_xml::events::BytesStart<'a>);

/// An event as the reader yields it, its contents not yet decoded.
pub enum RawEvent {
    /// An opening tag: its name as written, and the tag itself for its attributes.
    Start { name: Vec<u8>, element: BytesStart<'static> },
    /// Character data between tags, as written: still escaped.
    Text { content: Vec<u8> },
    /// A closing tag and its name as written.
    End { name: Vec<u8> },
    /// The end of the document.
    Eof,
    /// Anything else: an empty element, a comment, a declaration, and the like.
    Other,
}

/// One attribute of an opening tag as written: its key, and its value still escaped.
pub struct RawAttribute {
    pub key: Vec<u8>,
    pub value: Vec<u8>,
}

/// The events of the document `text`, in order, as a reader that trims text
/// yields them; the last is the end of the document or the first failure.
pub uninterp spec fn document_events(text: Seq<char>) -> Seq<Result<RawEvent, quick_xml::Error>>;

/// The events that `reader` has not yet handed out.
pub uninterp spec fn pending_events(reader: Reader<&[u8]>) -> Seq<Result<RawEvent, quick_xml::Error>>;

/// Opens a reader on `xml_text` that trims the white space around text.
///
/// Calls `quick_xml::Reader::from_str` and then `Reader::trim_text(true)`. The
/// contract only names what the reader will yield.
#[verifier::external_body]
pub(crate) fn open_reader<'a>(xml_text: &'a str) -> (reader: Reader<&'a [u8]>)
    ensures
        pending_events(reader) == document_events(xml_text@),
{
    let mut reader = Reader::from_str(xml_text);
    reader.trim_text(true);
    reader
}

/// Takes the next event from `reader`.
///
/// Calls `quick_xml::Reader::read_event_into`. The contract claims that the
/// reader hands out its pending events one by one and in order, and that
/// once they are exhausted it reports the end of the document.
#[verifier::external_body]
pub(crate) fn next_event(reader: &mut Reader<&[u8]>) -> (event: Result<RawEvent, quick_xml::Error>)
    ensures
        pending_events(*old(reader)).len() > 0 ==> event == pending_events(*old(reader))[0]
            && pending_events(*final(reader)) == pending_events(*old(reader)).skip(1),
        pending_events(*old(reader)).len() == 0 ==> (event matches Ok(RawEvent::Eof))
            && pending_events(*final(reader)).len() == 0,
{
    let mut buf = Vec::new();
    Ok(
        match reader.read_event_into(&mut buf)? {
            Event::Start(e) => RawEvent::Start {
                name: e.name().as_ref().to_vec(),
                element: e.into_owned(),
            },
            Event::Text(e) => RawEvent::Text { content: e.into_inner().into_owned() },
            Event::End(e) => RawEvent::End { name: e.name().as_ref().to_vec() },
            Event::Eof => RawEvent::Eof,
            _ => RawEvent::Other,
        },
    )
}

/// The attributes of an opening tag in the order written, each with its key
/// and its value still escaped; `None` stands for one that is malformed or
/// repeats an earlier key.
pub uninterp spec fn element_attributes(element: BytesStart<'static>) -> Seq<
    Option<(Seq<u8>, Seq<u8>)>,
>;

/// Escaped bytes read as UTF-8 with the entity references resolved, or why
/// they cannot be.
pub uninterp spec fn unescaped(raw: Seq<u8>) -> Result<Seq<char>, quick_xml::Error>;

/// Bytes read as UTF-8, each ill-formed part replaced by U+FFFD.
pub uninterp spec fn lossy_text(bytes: Seq<u8>) -> Seq<char>;

/// The written form of a list of attributes.
pub open spec fn raw_attributes(attributes: Seq<Option<RawAttribute>>) -> Seq<
    Option<(Seq<u8>, Seq<u8>)>,
> {
    attributes.map_values(
        |a: Option<RawAttribute>|
            match a {
                Some(a) => Some((a.key@, a.value@)),
                None => None,
            },
    )
}

/// What a fallible decoding step yields, the text taken by its view.
pub open spec fn text_outcome(text: Result<String, quick_xml::Error>) -> Result<
    Seq<char>,
    quick_xml::Error,
> {
    match text {
        Ok(t) => Ok(t@),
        Err(e) => Err(e),
    }
}

/// Lists the attributes of an opening tag.
///
/// Walks `quick_xml::events::BytesStart::attributes` to its end and copies
/// each item out: key and value as written, `None` for an item that the
/// iterator reports as an error.
#[verifier::external_body]
pub(crate) fn read_attributes(element: &BytesStart<'static>) -> (attributes: Vec<
    Option<RawAttribute>,
>)
    ensures
        raw_attributes(attributes@) == element_attributes(*element),
{
    element.attributes().map(
        |item|
            item.ok().map(
                |a| RawAttribute { key: a.key.as_ref().to_vec(), value: a.value.into_owned() },
            ),
    ).collect()
}

/// Decodes escaped bytes and resolves their entity references.
///
/// Calls `quick_xml::events::attributes::Attribute::unescape_value` on an
/// attribute that holds `raw` as its value; the key plays no part in it.
/// That method reads the bytes as UTF-8 and replaces the predefined
/// entities and character references. With the crate's `encoding` feature
/// off, as it is here, `BytesText::unescape` does the same two steps to
/// character data; with it on, text would be decoded by the document's
/// encoding and this function would no longer stand for both.
#[verifier::external_body]
pub(crate) fn unescape(raw: &[u8]) -> (text: Result<String, quick_xml::Error>)
    ensures
        text_outcome(text) == unescaped(raw@),
{
    Attribute { key: QName(b""), value: Cow::Borrowed(raw) }.unescape_value().map(
        |t| t.into_owned(),
    )
}

/// Reads bytes as UTF-8 text, tolerating ill-formed input.
///
/// Calls `String::from_utf8_lossy`.
#[verifier::external_body]
pub(crate) fn lossy_string(bytes: &[u8]) -> (text: String)
    ensures
        text@ == lossy_text(bytes@),
{
    String::from_utf8_lossy(bytes).into_owned()
}

/// An attribute of the current element: key and value as text.
pub struct MarkupAttribute {
    pub key: String,
    pub value: String,
}

/// An event of the document in plain form, as the translator takes it.
///
/// Whether an element's attributes or a text can be decoded is part of the
/// event: the translator decides whether a failure matters.
pub enum MarkupEvent {
    /// An opening tag with its attributes in the order written.
    Start { name: String, attributes: Result<Vec<MarkupAttribute>, quick_xml::Error> },
    /// Character data between tags.
    Text { content: Result<String, quick_xml::Error> },
    /// A closing tag.
    End { name: String },
    /// The end of the document.
    Eof,
    /// Markup that carries nothing for the translator.
    Other,
    /// The document could not be read any further.
    Malformed { cause: quick_xml::Error },
}

/// The mathematical form of [`MarkupEvent`].
pub enum EventModel {
    Start { name: Seq<char>, attributes: Result<Seq<(Seq<char>, Seq<char>)>, quick_xml::Error> },
    Text { content: Result<Seq<char>, quick_xml::Error> },
    End { name: Seq<char> },
    Eof,
    Other,
    Malformed { cause: quick_xml::Error },
}

/// Attributes as pairs of key and value.
pub open spec fn attribute_pairs(attributes: Seq<MarkupAttribute>) -> Seq<(Seq<char>, Seq<char>)> {
    attributes.map_values(|a: MarkupAttribute| (a.key@, a.value@))
}

impl View for MarkupEvent {
    type V = EventModel;

    open spec fn view(&self) -> EventModel {
        match *self {
            MarkupEvent::Start { name, attributes } => EventModel::Start {
                name: name@,
                attributes: attributes_outcome(attributes),
            },
            MarkupEvent::Text { content } => EventModel::Text { content: text_outcome(content) },
            MarkupEvent::End { name } => EventModel::End { name: name@ },
            MarkupEvent::Eof => EventModel::Eof,
            MarkupEvent::Other => EventModel::Other,
            MarkupEvent::Malformed { cause } => EventModel::Malformed { cause },
        }
    }
}

/// The attributes of an element decoded in order: malformed ones are passed
/// over, keys are read tolerantly, and the first value that cannot be
/// unescaped fails the whole list.
pub open spec fn decoded_attributes(raw: Seq<Option<(Seq<u8>, Seq<u8>)>>) -> Result<
    Seq<(Seq<char>, Seq<char>)>,
    quick_xml::Error,
>
    decreases raw.len(),
{
    if raw.len() == 0 {
        Ok(Seq::empty())
    } else {
        match decoded_attributes(raw.drop_last()) {
            Err(e) => Err(e),
            Ok(front) => match raw.last() {
                None => Ok(front),
                Some((key, value)) => match unescaped(value) {
                    Ok(text) => Ok(front.push((lossy_text(key), text))),
                    Err(e) => Err(e),
                },
            },
        }
    }
}

/// The plain form of what the reader yielded.
pub open spec fn decoded_event(raw: Result<RawEvent, quick_xml::Error>) -> EventModel {
    match raw {
        Err(cause) => EventModel::Malformed { cause },
        Ok(RawEvent::Start { name, element }) => EventModel::Start {
            name: lossy_text(name@),
            attributes: decoded_attributes(element_attributes(element)),
        },
        Ok(RawEvent::Text { content }) => EventModel::Text { content: unescaped(content@) },
        Ok(RawEvent::End { name }) => EventModel::End { name: lossy_text(name@) },
        Ok(RawEvent::Eof) => EventModel::Eof,
        Ok(RawEvent::Other) => EventModel::Other,
    }
}

/// A failure among the first attributes is the failure of the whole list.
proof fn lemma_decoding_failure_stays(raw: Seq<Option<(Seq<u8>, Seq<u8>)>>, n: int)
    requires
        0 <= n <= raw.len(),
        decoded_attributes(raw.take(n)) is Err,
    ensures
        decoded_attributes(raw) == decoded_attributes(raw.take(n)),
    decreases raw.len(),
{
    if n == raw.len() {
        assert(raw.take(n) == raw);
    } else {
        assert(raw.drop_last().take(n) == raw.take(n));
        lemma_decoding_failure_stays(raw.drop_last(), n);
    }
}

/// What decoding a list of attributes yields, the list taken as pairs.
pub open spec fn attributes_outcome(attributes: Result<Vec<MarkupAttribute>, quick_xml::Error>)
    -> Result<Seq<(Seq<char>, Seq<char>)>, quick_xml::Error> {
    match attributes {
        Ok(list) => Ok(attribute_pairs(list@)),
        Err(e) => Err(e),
    }
}

/// Decodes the attributes of an element.
fn decode_attributes(raw: Vec<Option<RawAttribute>>) -> (attributes: Result<
    Vec<MarkupAttribute>,
    quick_xml::Error,
>)
    ensures
        attributes_outcome(attributes) == decoded_attributes(raw_attributes(raw@)),
{
    let ghost written = raw_attributes(raw@);
    let mut list: Vec<MarkupAttribute> = Vec::new();
    let mut i: usize = 0;
    assert(written.take(0) == Seq::<Option<(Seq<u8>, Seq<u8>)>>::empty());
    assert(attribute_pairs(list@) == Seq::<(Seq<char>, Seq<char>)>::empty());
    while i < raw.len()
        invariant
            i <= raw.len(),
            written == raw_attributes(raw@),
            written.len() == raw.len(),
            decoded_attributes(written.take(i as int)) == Ok::<
                Seq<(Seq<char>, Seq<char>)>,
                quick_xml::Error,
            >(attribute_pairs(list@)),
        decreases raw.len() - i,
    {
        proof {
            assert(written.take(i + 1).drop_last() == written.take(i as int));
            assert(written.take(i + 1).last() == written[i as int]);
        }
        match &raw[i] {
            None => {},
            Some(a) => {
                let key = lossy_string(a.key.as_slice());
                match unescape(a.value.as_slice()) {
                    Ok(value) => {
                        let ghost before = attribute_pairs(list@);
                        list.push(MarkupAttribute { key, value });
                        assert(attribute_pairs(list@) == before.push((key@, value@)));
                    },
                    Err(e) => {
                        proof {
                            lemma_decoding_failure_stays(written, i + 1);
                        }
                        return Err(e);
                    },
                }
            },
        }
        i += 1;
    }
    assert(written.take(raw.len() as int) == written);
    Ok(list)
}

/// Brings an event of the reader into the plain form that the translator takes.
pub fn decode_event(raw: Result<RawEvent, quick_xml::Error>) -> (event: MarkupEvent)
    ensures
        event@ == decoded_event(raw),
{
    match raw {
        Err(cause) => MarkupEvent::Malformed { cause },
        Ok(RawEvent::Start { name, element }) => {
            let attributes = decode_attributes(read_attributes(&element));
            MarkupEvent::Start { name: lossy_string(name.as_slice()), attributes }
        },
        Ok(RawEvent::Text { content }) => MarkupEvent::Text { content: unescape(content.as_slice()) },
        Ok(RawEvent::End { name }) => MarkupEvent::End { name: lossy_string(name.as_slice()) },
        Ok(RawEvent::Eof) => MarkupEvent::Eof,
        Ok(RawEvent::Other) => MarkupEvent::Other,
    }
}

} // verus!
