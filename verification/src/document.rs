//! Reading a whole StationXML document: the XML text is cut into events by quick-xml,
//! and the events drive the reader's states from the root element on.
use crate::error::StationError;
use crate::station_xml::{Outcome, StationXML, StationXMLView};
use crate::sub_state::{EndEvent, FDSNStationXMLState, SubState};
use crate::text::{str_chars, str_equals, string_from_chars};
use quick_xml::events::Event;
use vstd::prelude::*;

verus! {

#[verifier::external_type_specification]
#[verifier::external_body]
#[verifier::reject_recursive_types(R)]
pub struct ExReader<R>(quick_xml::Reader<R>);

#[verifier::external_type_specification]
#[verifier::external_body]
pub struct ExXmlError(quick_xml::Error);

#[verifier::external_type_specification]
#[verifier::external_body]
pub struct ExEscapeError(quick_xml::escape::EscapeError);

/// What an event of quick-xml holds, as plain strings.
enum XmlToken {
    /// `<name ...>`: the name, and the text between `<` and `>`.
    Start { name: String, full: String },
    /// `<name .../>`: the name, and the text between `<` and `/>`.
    Empty { name: String, full: String },
    /// `</name>`.
    End,
    /// Text between tags, with its references not yet resolved.
    Text(String),
    /// A comment, a declaration, a processing instruction, a document type or a CDATA
    /// section: nothing the states read.
    Other,
    /// The end of the text.
    Eof,
    /// An error of the reader.
    Failure,
}

/// A token as plain values.
pub enum TokenView {
    Start(Seq<char>, Seq<char>),
    Empty(Seq<char>, Seq<char>),
    End,
    Text(Seq<char>),
    Other,
    Eof,
    Failure,
}

spec fn token_view(t: XmlToken) -> TokenView {
    match t {
        XmlToken::Start { name, full } => TokenView::Start(name@, full@),
        XmlToken::Empty { name, full } => TokenView::Empty(name@, full@),
        XmlToken::End => TokenView::End,
        XmlToken::Text(raw) => TokenView::Text(raw@),
        XmlToken::Other => TokenView::Other,
        XmlToken::Eof => TokenView::Eof,
        XmlToken::Failure => TokenView::Failure,
    }
}

/// The tokens that quick-xml hands out for `text`, read by a reader that `text_reader`
/// sets up: in order, up to and including the end of the text or the first error.
pub uninterp spec fn xml_tokens(text: Seq<char>) -> Seq<TokenView>;

/// The tokens that the reader `r` has still to hand out, in order, up to and including
/// the end of its text or its first error.
pub uninterp spec fn reader_tokens(r: quick_xml::Reader<&[u8]>) -> Seq<TokenView>;

/// `quick_xml::Reader::from_str` on `text`, configured with `trim_text(true)` so that
/// texts come without the white space around them and texts of white space only are
/// skipped. The reader hands out the tokens of `text` (at least the end of the text).
#[verifier::external_body]
fn text_reader<'a>(text: &'a str) -> (r: quick_xml::Reader<&'a [u8]>)
    ensures
        reader_tokens(r) == xml_tokens(text@),
        reader_tokens(r).len() > 0,
{
    let mut reader = quick_xml::Reader::from_str(text);
    reader.config_mut().trim_text(true);
    reader
}

/// `quick_xml::Reader::read_event`: the reader's next token, as plain strings (a reader
/// of a `str` hands out UTF-8 bytes); comments, declarations, processing instructions,
/// document types and CDATA sections are `Other`, and an error is `Failure`. After any
/// other token the reader is left with the tokens after it, of which there is at least
/// one; after the end of the text or an error nothing is stated of the reader (quick-xml
/// then hands out the end of the text again, or goes on reading after the error).
#[verifier::external_body]
fn next_token<'a>(reader: &mut quick_xml::Reader<&'a [u8]>) -> (t: XmlToken)
    requires
        reader_tokens(*old(reader)).len() > 0,
    ensures
        token_view(t) == reader_tokens(*old(reader))[0],
        (t is Eof || t is Failure) || (reader_tokens(*final(reader)) == reader_tokens(
            *old(reader),
        ).drop_first() && reader_tokens(*final(reader)).len() > 0),
{
    match reader.read_event() {
        Ok(Event::Start(e)) => XmlToken::Start { name: String::from_utf8_lossy(e.name().as_ref()).into_owned(), full: String::from_utf8_lossy(&e).into_owned() },
        Ok(Event::Empty(e)) => XmlToken::Empty { name: String::from_utf8_lossy(e.name().as_ref()).into_owned(), full: String::from_utf8_lossy(&e).into_owned() },
        Ok(Event::End(_)) => XmlToken::End,
        Ok(Event::Text(e)) => XmlToken::Text(String::from_utf8_lossy(&e).into_owned()),
        Ok(Event::Eof) => XmlToken::Eof,
        Ok(_) => XmlToken::Other,
        Err(_) => XmlToken::Failure,
    }
}

/// What `quick_xml::escape::unescape` makes of a raw text: the text with its character
/// references and predefined entities resolved, or `None` for an unknown or unterminated
/// reference.
pub uninterp spec fn xml_unescaped(raw: Seq<char>) -> Option<Seq<char>>;

/// The text holds an `&`, which starts a reference.
pub open spec fn has_reference(raw: Seq<char>) -> bool {
    raw.contains('&')
}

/// `quick_xml::escape::unescape`. The result is named, and a text without `&` comes back
/// as it is (the function finds no reference to resolve in it).
#[verifier::external_body]
fn unescape_text(raw: &str) -> (r: Result<String, quick_xml::escape::EscapeError>)
    ensures
        r matches Ok(s) ==> xml_unescaped(raw@) == Some(s@),
        r is Err ==> xml_unescaped(raw@) is None,
        r is Ok || has_reference(raw@),
        r matches Ok(s) ==> (s@ == raw@ || has_reference(raw@)),
{
    match quick_xml::escape::unescape(raw) {
        Ok(s) => Ok(s.into_owned()),
        Err(e) => Err(e),
    }
}

/// An event of the document as the states read it.
pub enum XmlEvent {
    /// A start tag: the element's name in lower case, and the whole text between `<`
    /// and `>` (name and attributes).
    Start { tag_lowercase: String, full: String },
    /// The text inside an element, trimmed and with its escapes resolved.
    Text(String),
    /// An end tag.
    End,
}

/// An event as plain values.
pub enum XmlEventView {
    Start { tag: Seq<char>, full: Seq<char> },
    Text(Seq<char>),
    End,
}

pub open spec fn event_view(e: XmlEvent) -> XmlEventView {
    match e {
        XmlEvent::Start { tag_lowercase, full } => XmlEventView::Start {
            tag: tag_lowercase@,
            full: full@,
        },
        XmlEvent::Text(t) => XmlEventView::Text(t@),
        XmlEvent::End => XmlEventView::End,
    }
}

pub open spec fn event_views(evs: Seq<XmlEvent>) -> Seq<XmlEventView> {
    evs.map_values(|e: XmlEvent| event_view(e))
}

/// `c` with the ASCII capitals turned into small letters.
pub open spec fn ascii_lower(c: char) -> char {
    if 'A' <= c && c <= 'Z' {
        ((c as u32) + 32) as char
    } else {
        c
    }
}

/// `s` with the ASCII capitals turned into small letters.
pub open spec fn ascii_lowercase_of(s: Seq<char>) -> Seq<char> {
    s.map_values(|c: char| ascii_lower(c))
}

fn lower_char(c: char) -> (r: char)
    ensures
        r == ascii_lower(c),
{
    if 'A' <= c && c <= 'Z' {
        let code: u32 = c as u32;
        char_of_ascii(code + 32)
    } else {
        c
    }
}

fn char_of_ascii(code: u32) -> (c: char)
    requires
        97 <= code <= 122,
    ensures
        c == code as char,
{
    let b: u8 = code as u8;
    b as char
}

/// The element name `name` in ASCII lower case, as the states compare names.
pub fn ascii_lowercase(name: &str) -> (r: String)
    ensures
        r@ == ascii_lowercase_of(name@),
{
    let chars = str_chars(name);
    let mut out: Vec<char> = Vec::new();
    let mut i: usize = 0;
    while i < chars.len()
        invariant
            chars@ == name@,
            i <= chars@.len(),
            out@ == ascii_lowercase_of(chars@.take(i as int)),
        decreases chars@.len() - i,
    {
        out.push(lower_char(chars[i]));
        i = i + 1;
        assert(out@ =~= ascii_lowercase_of(chars@.take(i as int)));
    }
    assert(chars@.take(i as int) =~= chars@);
    string_from_chars(&out)
}

/// How the events `evs` end when the state `s` reads them into the document `x`: the
/// first tag or text that the state does not read panics the reader, the first error
/// ends the reading, and otherwise the document is what they make of `x`.
pub open spec fn run_events(s: FDSNStationXMLState, evs: Seq<XmlEventView>, x: StationXMLView) -> Outcome<
    StationXMLView,
>
    decreases evs.len(),
{
    if evs.len() == 0 {
        Outcome::Gives(x)
    } else {
        let rest = evs.drop_first();
        match evs[0] {
            XmlEventView::Start { tag, full } => if !s.admits_start(tag, full) {
                Outcome::Panics
            } else {
                match s.start_spec(tag, full, x) {
                    Err(e) => Outcome::Fails(e),
                    Ok((s2, x2)) => run_events(s2, rest, x2),
                }
            },
            XmlEventView::Text(t) => if !s.admits_text(t) {
                Outcome::Panics
            } else {
                match s.text_spec(t, x) {
                    Err(e) => Outcome::Fails(e),
                    Ok(x2) => run_events(s, rest, x2),
                }
            },
            XmlEventView::End => match s.end_spec() {
                Err(e) => Outcome::Fails(e),
                Ok(EndEvent::Backtrack) => run_events(s, rest, x),
                Ok(EndEvent::Continue(s2)) => run_events(s2, rest, x),
            },
        }
    }
}

/// The empty document.
pub open spec fn empty_document() -> StationXMLView {
    StationXMLView {
        source: Seq::empty(),
        sender: Seq::empty(),
        module: Seq::empty(),
        module_uri: Seq::empty(),
        creation_date: None,
        networks: Seq::empty(),
    }
}

/// The document that the events of a whole StationXML text describe: they open with the
/// root element `FDSNStationXML`, whose content the states read from their first state
/// on, starting with the empty document.
pub open spec fn document_outcome(evs: Seq<XmlEventView>) -> Outcome<StationXMLView> {
    if evs.len() > 0 && (evs[0] matches XmlEventView::Start { tag, .. } && tag
        == "fdsnstationxml"@) {
        run_events(FDSNStationXMLState::Initial, evs.drop_first(), empty_document())
    } else {
        Outcome::Fails(StationError::XMLStructureError)
    }
}

/// `res` is the document that the outcome `o` describes.
pub open spec fn document_matches(res: Outcome<StationXML>, o: Outcome<StationXMLView>) -> bool {
    match o {
        Outcome::Gives(v) => res matches Outcome::Gives(x) && x.deep_view() == v,
        Outcome::Fails(e) => res == Outcome::<StationXML>::Fails(e),
        Outcome::Panics => res is Panics,
    }
}

/// A state reads every start tag that it may read in the document at hand only if it
/// admits the tag.
proof fn lemma_start_ok_admits(s: FDSNStationXMLState, tag: Seq<char>, full: Seq<char>, x: StationXMLView)
    requires
        s.start_ok(tag, full, x),
    ensures
        s.admits_start(tag, full),
{
}

/// A state reads a text in the document at hand only if it admits the text.
proof fn lemma_text_ok_admits(s: FDSNStationXMLState, text: Seq<char>, x: StationXMLView)
    requires
        s.text_ok(text, x),
    ensures
        s.admits_text(text),
{
}

/// The document that the events of a whole StationXML text describe.
pub fn read_events(events: &Vec<XmlEvent>) -> (res: Outcome<StationXML>)
    ensures
        document_matches(res, document_outcome(event_views(events@))),
{
    let ghost vs = event_views(events@);
    if events.len() == 0 {
        return Outcome::Fails(StationError::XMLStructureError);
    }
    let opens_root = match &events[0] {
        XmlEvent::Start { tag_lowercase, .. } => str_equals(tag_lowercase.as_str(), "fdsnstationxml"),
        _ => false,
    };
    if !opens_root {
        return Outcome::Fails(StationError::XMLStructureError);
    }
    let mut state = FDSNStationXMLState::Initial;
    let mut xml = StationXML::new();
    let mut i: usize = 1;
    assert(vs.skip(1) =~= vs.drop_first());
    while i < events.len()
        invariant
            1 <= i <= events@.len(),
            vs == event_views(events@),
            state.placed(xml.deep_view()),
            run_events(state, vs.skip(i as int), xml.deep_view()) == document_outcome(vs),
        decreases events@.len() - i,
    {
        let ghost rest = vs.skip(i as int);
        assert(rest[0] == event_view(events@[i as int]));
        assert(rest.drop_first() =~= vs.skip(i + 1));
        match &events[i] {
            XmlEvent::Start { tag_lowercase, full } => {
                let tag = tag_lowercase.as_str();
                let text = full.as_str();
                if !state.start_admissible(tag, text, &xml) {
                    proof {
                        if state.admits_start(tag@, text@) {
                            state.lemma_start_ok(tag@, text@, xml.deep_view());
                        }
                    }
                    return Outcome::Panics;
                }
                proof {
                    lemma_start_ok_admits(state, tag@, text@, xml.deep_view());
                    state.lemma_start_placed(tag@, text@, xml.deep_view());
                }
                match state.xml_start_event(tag, text, xml) {
                    Ok((s, x)) => {
                        state = s;
                        xml = x;
                    },
                    Err(e) => return Outcome::Fails(e),
                }
            },
            XmlEvent::Text(t) => {
                let text = t.as_str();
                if !state.text_admissible(text, &xml) {
                    proof {
                        if state.admits_text(text@) {
                            state.lemma_text_ok(text@, xml.deep_view());
                        }
                    }
                    return Outcome::Panics;
                }
                proof {
                    lemma_text_ok_admits(state, text@, xml.deep_view());
                    state.lemma_text_placed(text@, xml.deep_view());
                }
                match state.xml_text_event(text, xml) {
                    Ok(x) => xml = x,
                    Err(e) => return Outcome::Fails(e),
                }
            },
            XmlEvent::End => {
                proof {
                    state.lemma_end_placed(xml.deep_view());
                }
                match state.xml_end_event() {
                    Ok(EndEvent::Backtrack) => {},
                    Ok(EndEvent::Continue(s)) => state = s,
                    Err(e) => return Outcome::Fails(e),
                }
            },
        }
        i = i + 1;
    }
    assert(vs.skip(i as int) =~= Seq::<XmlEventView>::empty());
    Outcome::Gives(xml)
}

/// `rest` with the events `p` before it, or the error that `rest` ends in.
pub open spec fn prefixed(
    p: Seq<XmlEventView>,
    rest: Result<Seq<XmlEventView>, StationError>,
) -> Result<Seq<XmlEventView>, StationError> {
    match rest {
        Ok(s) => Ok(p + s),
        Err(e) => Err(e),
    }
}

/// The events that the tokens `ts` make, read in order: an element written `<name .../>`
/// opens and closes, names are taken in ASCII lower case, texts have their references
/// resolved, other tokens are passed over, and the reading stops at the end of the text.
/// An error of the reader, or a reference that cannot be resolved, is an `XMLError`.
pub open spec fn events_of_tokens(ts: Seq<TokenView>) -> Result<Seq<XmlEventView>, StationError>
    decreases ts.len(),
{
    if ts.len() == 0 {
        Ok(Seq::empty())
    } else {
        let rest = events_of_tokens(ts.drop_first());
        match ts[0] {
            TokenView::Start(name, full) => prefixed(
                seq![XmlEventView::Start { tag: ascii_lowercase_of(name), full }],
                rest,
            ),
            TokenView::Empty(name, full) => prefixed(
                seq![XmlEventView::Start { tag: ascii_lowercase_of(name), full }, XmlEventView::End],
                rest,
            ),
            TokenView::End => prefixed(seq![XmlEventView::End], rest),
            TokenView::Text(raw) => match xml_unescaped(raw) {
                Some(t) => prefixed(seq![XmlEventView::Text(t)], rest),
                None => Err(StationError::XMLError),
            },
            TokenView::Other => rest,
            TokenView::Eof => Ok(Seq::empty()),
            TokenView::Failure => Err(StationError::XMLError),
        }
    }
}

/// The events of the text `text`.
pub open spec fn text_events(text: Seq<char>) -> Result<Seq<XmlEventView>, StationError> {
    events_of_tokens(xml_tokens(text))
}

/// The document that the text `text` describes.
pub open spec fn text_outcome(text: Seq<char>) -> Outcome<StationXMLView> {
    match text_events(text) {
        Ok(evs) => document_outcome(evs),
        Err(e) => Outcome::Fails(e),
    }
}

proof fn lemma_prefixed_twice(
    p: Seq<XmlEventView>,
    q: Seq<XmlEventView>,
    rest: Result<Seq<XmlEventView>, StationError>,
)
    ensures
        prefixed(p, prefixed(q, rest)) == prefixed(p + q, rest),
{
    match rest {
        Ok(s) => {
            assert(p + (q + s) =~= (p + q) + s);
        },
        Err(_) => {},
    }
}

/// The events of the XML text `text`, as `text_events` says: the tokens that quick-xml
/// cuts the text into, made into events.
pub fn xml_events(text: &str) -> (res: Result<Vec<XmlEvent>, StationError>)
    ensures
        match text_events(text@) {
            Ok(evs) => res matches Ok(v) && event_views(v@) == evs,
            Err(e) => res == Err::<Vec<XmlEvent>, StationError>(e),
        },
{
    let mut reader = text_reader(text);
    let mut events: Vec<XmlEvent> = Vec::new();
    assert(event_views(events@) =~= Seq::<XmlEventView>::empty());
    assert(prefixed(Seq::empty(), events_of_tokens(xml_tokens(text@))) == events_of_tokens(
        xml_tokens(text@),
    )) by {
        if let Ok(s) = events_of_tokens(xml_tokens(text@)) {
            assert(Seq::<XmlEventView>::empty() + s =~= s);
        }
    }
    loop
        invariant
            reader_tokens(reader).len() > 0,
            text_events(text@) == prefixed(
                event_views(events@),
                events_of_tokens(reader_tokens(reader)),
            ),
        decreases reader_tokens(reader).len(),
    {
        let ghost ts = reader_tokens(reader);
        let ghost before = event_views(events@);
        let token = next_token(&mut reader);
        match token {
            XmlToken::Start { name, full } => {
                let tag_lowercase = ascii_lowercase(name.as_str());
                let ghost ev = event_view(XmlEvent::Start { tag_lowercase, full });
                events.push(XmlEvent::Start { tag_lowercase, full });
                proof {
                    assert(event_views(events@) =~= before + seq![ev]);
                    lemma_prefixed_twice(before, seq![ev], events_of_tokens(reader_tokens(reader)));
                }
            },
            XmlToken::Empty { name, full } => {
                let tag_lowercase = ascii_lowercase(name.as_str());
                let ghost ev = event_view(XmlEvent::Start { tag_lowercase, full });
                events.push(XmlEvent::Start { tag_lowercase, full });
                events.push(XmlEvent::End);
                proof {
                    assert(event_views(events@) =~= before + seq![ev, XmlEventView::End]);
                    lemma_prefixed_twice(
                        before,
                        seq![ev, XmlEventView::End],
                        events_of_tokens(reader_tokens(reader)),
                    );
                }
            },
            XmlToken::End => {
                events.push(XmlEvent::End);
                proof {
                    assert(event_views(events@) =~= before + seq![XmlEventView::End]);
                    lemma_prefixed_twice(
                        before,
                        seq![XmlEventView::End],
                        events_of_tokens(reader_tokens(reader)),
                    );
                }
            },
            XmlToken::Text(raw) => match unescape_text(raw.as_str()) {
                Ok(t) => {
                    let ghost ev = XmlEventView::Text(t@);
                    events.push(XmlEvent::Text(t));
                    proof {
                        assert(event_views(events@) =~= before + seq![ev]);
                        lemma_prefixed_twice(before, seq![ev], events_of_tokens(reader_tokens(reader)));
                    }
                },
                Err(_) => return Err(StationError::XMLError),
            },
            XmlToken::Other => {},
            XmlToken::Eof => {
                assert(before + Seq::<XmlEventView>::empty() =~= before);
                return Ok(events);
            },
            XmlToken::Failure => return Err(StationError::XMLError),
        }
    }
}

impl StationXML {
    /// Reads a StationXML document: the outcome is that of the text's events, or the
    /// error that reading them ends in.
    pub fn from_xml(text: &str) -> (res: Outcome<StationXML>)
        ensures
            document_matches(res, text_outcome(text@)),
    {
        match xml_events(text) {
            Ok(events) => read_events(&events),
            Err(e) => Outcome::Fails(e),
        }
    }
}

} // verus!
