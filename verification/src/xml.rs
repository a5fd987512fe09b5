//! The events of an XML document as plain values, read with quick-xml.
use vstd::prelude::*;
use quick_xml::events::BytesStart;
use quick_xml::events::Event::{Empty, End, Eof, Start, Text};
use quick_xml::Reader;
use vstd::utf8::encode_utf8;
use crate::text::{chars_of, same_chars};
use crate::xlsx_chart::{after_last, lossy_text, strip_ns, utf8_lossy};

verus! {

/// quick-xml's start or empty-element tag.
#[verifier::external_type_specification]
#[verifier::external_body]
pub struct ExBytesStart<'a>(quick_xml::events::BytesStart<'a>);

/// One attribute of a tag: its raw name (with any namespace prefix) and its
/// raw, still escaped value.
pub struct XmlAttr {
    pub key: Vec<u8>,
    pub value: Vec<u8>,
}

/// A start or empty-element tag: its raw name (with any namespace prefix)
/// and its attributes in document order, `None` standing for an attribute
/// that could not be read.
pub struct XmlTag {
    pub name: Vec<u8>,
    pub attrs: Vec<Option<XmlAttr>>,
}

/// One event of an XML document.
pub enum XmlEvent {
    /// A start tag `<name ...>`.
    Start(XmlTag),
    /// An empty-element tag `<name .../>`.
    Empty(XmlTag),
    /// An end tag `</name>`, with its raw name.
    End(Vec<u8>),
    /// Character data between tags, unescaped; `None` where unescaping failed.
    Text(Option<String>),
    /// A comment, CDATA section, declaration, processing instruction or
    /// document type definition.
    Other,
    /// The end of the document.
    Eof,
    /// A syntax error.
    Error,
}

/// Whether an event is part of the document's content (neither its end nor
/// an error).
pub open spec fn is_content(e: XmlEvent) -> bool {
    !(e is Eof) && !(e is Error)
}

/// The events that quick-xml reads from the document `xml`, with white space
/// around character data trimmed, up to the end of the document or the first
/// syntax error (neither of which is among them).
pub uninterp spec fn xml_event_stream(xml: Seq<char>) -> Seq<XmlEvent>;

/// Converts quick-xml's start or empty-element tag (`BytesStart::name`,
/// `BytesStart::attributes`) to an [`XmlTag`]: its raw name and its
/// attributes, each its raw key and raw value, an unreadable one `None`. It
/// serves [`read_xml_events`] alone, which states what the events are.
#[verifier::external_body]
fn xml_tag(t: BytesStart) -> XmlTag {
    XmlTag { name: t.name().0.to_vec(), attrs: t.attributes()
        .map(|a| a.ok().map(|a| XmlAttr { key: a.key.0.to_vec(), value: a.value.to_vec() })).collect() }
}

/// Reads `xml` with quick-xml (`Reader::from_str`, `trim_text(true)`), calling
/// `Reader::read_event` until the end of the document or the first error, and
/// converts each event to an [`XmlEvent`]: a tag with [`xml_tag`], an end tag
/// to its raw name, text to its `BytesText::unescape`d form. The contract
/// claims that the events are a function of the text alone, named
/// [`xml_event_stream`], and that none of them is the end or an error.
#[verifier::external_body]
fn read_xml_events(xml: &str) -> (events: Vec<XmlEvent>)
    ensures
        events@ == xml_event_stream(xml@),
        forall|i: int| 0 <= i < events@.len() ==> is_content(#[trigger] events@[i]),
{
    let mut r = Reader::from_str(xml);
    r.config_mut().trim_text(true);
    let mut v = Vec::new();
    loop {
        v.push(match r.read_event() {
            Ok(Start(e)) => XmlEvent::Start(xml_tag(e)),
            Ok(Empty(e)) => XmlEvent::Empty(xml_tag(e)),
            Ok(End(e)) => XmlEvent::End(e.name().0.to_vec()),
            Ok(Text(e)) => XmlEvent::Text(e.unescape().ok().map(|t| t.into())),
            Ok(Eof) | Err(_) => return v,
            _ => XmlEvent::Other,
        });
    }
}

/// The events of `xml` (see [`xml_event_stream`]), with white space around
/// text trimmed, up to the end of the document or the first syntax error.
pub fn xml_events(xml: &str) -> (events: Vec<XmlEvent>)
    ensures
        events@ == xml_event_stream(xml@),
        forall|i: int| 0 <= i < events@.len() ==> is_content(#[trigger] events@[i]),
{
    read_xml_events(xml)
}

/// Whether `v` holds exactly the UTF-8 bytes of `s`.
pub fn bytes_match(v: &Vec<u8>, s: &str) -> (b: bool)
    ensures
        b == (v@ == encode_utf8(s@)),
{
    let w = s.as_bytes();
    if v.len() != w.len() {
        return false;
    }
    let mut i: usize = 0;
    while i < v.len()
        invariant
            v@.len() == w@.len(),
            w@ == encode_utf8(s@),
            i <= v@.len(),
            forall|j: int| 0 <= j < i ==> v@[j] == w@[j],
        decreases v.len() - i,
    {
        if v[i] != w[i] {
            return false;
        }
        i += 1;
    }
    assert(v@ =~= w@);
    true
}

/// A name without its namespace prefix, as text (`r:id` -> `id`).
pub open spec fn local_of(name: Seq<u8>) -> Seq<char> {
    after_last(utf8_lossy(name), ':')
}

/// Whether the name `name`, without its namespace prefix, is `word`.
pub fn local_is(name: &Vec<u8>, word: &str) -> (b: bool)
    ensures
        b == (local_of(name@) == word@),
{
    let local = strip_ns(name.as_slice());
    same_chars(&chars_of(local.as_str()), &chars_of(word))
}

/// The value of the last readable attribute whose key is exactly `key`.
pub open spec fn last_attr_exact(attrs: Seq<Option<XmlAttr>>, key: Seq<u8>) -> Option<Seq<u8>>
    decreases attrs.len(),
{
    if attrs.len() == 0 {
        None
    } else {
        match attrs.last() {
            Some(a) => if a.key@ == key { Some(a.value@) } else { last_attr_exact(attrs.drop_last(), key) },
            None => last_attr_exact(attrs.drop_last(), key),
        }
    }
}

/// The value of the last readable attribute whose key, without its namespace
/// prefix, is `local`.
pub open spec fn last_attr_local(attrs: Seq<Option<XmlAttr>>, local: Seq<char>) -> Option<Seq<u8>>
    decreases attrs.len(),
{
    if attrs.len() == 0 {
        None
    } else {
        match attrs.last() {
            Some(a) => if local_of(a.key@) == local { Some(a.value@) } else { last_attr_local(attrs.drop_last(), local) },
            None => last_attr_local(attrs.drop_last(), local),
        }
    }
}

/// An attribute's value as text (`""` where there is none), as
/// `String::from_utf8_lossy` decodes it.
pub open spec fn attr_text(value: Option<Seq<u8>>) -> Seq<char> {
    match value {
        Some(v) => utf8_lossy(v),
        None => seq![],
    }
}

/// The text of the last readable attribute whose key is exactly `key` (`""`
/// where there is none).
pub fn attr_text_exact(attrs: &Vec<Option<XmlAttr>>, key: &str) -> (t: String)
    ensures
        t@ == attr_text(last_attr_exact(attrs@, encode_utf8(key@))),
{
    let mut t = String::new();
    let ghost k = encode_utf8(key@);
    let mut i: usize = 0;
    while i < attrs.len()
        invariant
            i <= attrs@.len(),
            k == encode_utf8(key@),
            t@ == attr_text(last_attr_exact(attrs@.take(i as int), k)),
        decreases attrs.len() - i,
    {
        assert(attrs@.take(i + 1).drop_last() =~= attrs@.take(i as int));
        assert(attrs@.take(i + 1).last() == attrs@[i as int]);
        match &attrs[i] {
            Some(a) => {
                if bytes_match(&a.key, key) {
                    t = lossy_text(a.value.as_slice());
                }
            },
            None => {},
        }
        i += 1;
    }
    assert(attrs@.take(attrs@.len() as int) =~= attrs@);
    t
}

/// The text of the last readable attribute whose key, without its namespace
/// prefix, is `local` (`""` where there is none).
pub fn attr_text_local(attrs: &Vec<Option<XmlAttr>>, local: &str) -> (t: String)
    ensures
        t@ == attr_text(last_attr_local(attrs@, local@)),
{
    let mut t = String::new();
    let mut i: usize = 0;
    while i < attrs.len()
        invariant
            i <= attrs@.len(),
            t@ == attr_text(last_attr_local(attrs@.take(i as int), local@)),
        decreases attrs.len() - i,
    {
        assert(attrs@.take(i + 1).drop_last() =~= attrs@.take(i as int));
        assert(attrs@.take(i + 1).last() == attrs@[i as int]);
        match &attrs[i] {
            Some(a) => {
                if local_is(&a.key, local) {
                    t = lossy_text(a.value.as_slice());
                }
            },
            None => {},
        }
        i += 1;
    }
    assert(attrs@.take(attrs@.len() as int) =~= attrs@);
    t
}

} // verus!
