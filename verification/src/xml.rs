//! Reading a text as a sequence of XML tokens.

use vstd::prelude::*;
use quick_xml::events::Event;
use quick_xml::Reader;

verus! {

/// One piece of an XML text, as the tokenizer hands it out.
#[derive(Debug, PartialEq)]
pub enum XmlToken {
    /// A start tag, with the element's name.
    Open(String),
    /// An end tag, with the element's name.
    Close(String),
    /// A tag of an element without content, with the element's name.
    Empty(String),
    /// Character data, with escapes resolved.
    Text(String),
    /// A comment, a declaration, a processing instruction or a document type.
    Other,
}

/// What a token holds, as plain values.
pub enum TokenView {
    Open(Seq<char>),
    Close(Seq<char>),
    Empty(Seq<char>),
    Text(Seq<char>),
    Other,
}

impl View for XmlToken {
    type V = TokenView;

    open spec fn view(&self) -> TokenView {
        match self {
            XmlToken::Open(name) => TokenView::Open(name@),
            XmlToken::Close(name) => TokenView::Close(name@),
            XmlToken::Empty(name) => TokenView::Empty(name@),
            XmlToken::Text(text) => TokenView::Text(text@),
            XmlToken::Other => TokenView::Other,
        }
    }
}

impl DeepView for XmlToken {
    type V = TokenView;

    open spec fn deep_view(&self) -> TokenView {
        self@
    }
}

/// One event of an XML text as the tokenizer reads it: its kind, and the bytes
/// of the name in a tag or of character data.
#[derive(Debug, PartialEq)]
pub enum RawEvent {
    /// A start tag, with the bytes of the element's name.
    Start(Vec<u8>),
    /// An end tag, with the bytes of the element's name.
    End(Vec<u8>),
    /// A tag of an element without content, with the bytes of the element's name.
    Empty(Vec<u8>),
    /// Character data, with its escapes as they are written.
    Text(Vec<u8>),
    /// A character data section.
    CData(Vec<u8>),
    /// A comment, a declaration, a processing instruction or a document type.
    Other,
    /// The end of the text.
    Eof,
}

/// What a raw event holds, as plain values.
pub enum RawEventView {
    Start(Seq<u8>),
    End(Seq<u8>),
    Empty(Seq<u8>),
    Text(Seq<u8>),
    CData(Seq<u8>),
    Other,
    Eof,
}

impl View for RawEvent {
    type V = RawEventView;

    open spec fn view(&self) -> RawEventView {
        match self {
            RawEvent::Start(name) => RawEventView::Start(name@),
            RawEvent::End(name) => RawEventView::End(name@),
            RawEvent::Empty(name) => RawEventView::Empty(name@),
            RawEvent::Text(raw) => RawEventView::Text(raw@),
            RawEvent::CData(raw) => RawEventView::CData(raw@),
            RawEvent::Other => RawEventView::Other,
            RawEvent::Eof => RawEventView::Eof,
        }
    }
}

/// quick-xml's `Reader`, carried through as it is; what it has left to read is
/// named by [`events_left`].
#[verifier::external_type_specification]
#[verifier::external_body]
#[verifier::reject_recursive_types(R)]
pub struct ExReader<R>(quick_xml::Reader<R>);

/// What quick-xml reads from `text`, with text trimming on or off: the outcome
/// of each read in turn, an event or the description of a fault, up to the end
/// of the text.
pub uninterp spec fn xml_events(text: Seq<char>, trim_text: bool) -> Seq<
    Result<RawEventView, Seq<char>>,
>;

/// What a reader has left: the outcome of each read in turn from now on, up to
/// the end of its text.
pub uninterp spec fn events_left(reader: Reader<&[u8]>) -> Seq<Result<RawEventView, Seq<char>>>;

/// The text that the bytes `bytes` spell in UTF-8, as `String::from_utf8_lossy`
/// reads them.
pub uninterp spec fn utf8_text(bytes: Seq<u8>) -> Seq<char>;

/// The text `raw` with its XML escapes resolved, or quick-xml's description of
/// the faulty escape in it.
pub uninterp spec fn unescaped(raw: Seq<char>) -> Result<Seq<char>, Seq<char>>;

/// `Reader::from_str` of quick-xml with `Config::trim_text` set: a reader at the
/// beginning of `text`. What it will read depends on the text and on that
/// setting alone, and is given the name [`xml_events`].
#[verifier::external_body]
fn open_reader<'a>(text: &'a str, trim_text: bool) -> (reader: Reader<&'a [u8]>)
    ensures
        events_left(reader) == xml_events(text@, trim_text),
{
    let mut reader = Reader::from_str(text);
    reader.config_mut().trim_text(trim_text);
    reader
}

/// `Reader::read_event` of quick-xml, with the event written as its kind and its
/// bytes: the first outcome that the reader has left, which it has no longer
/// left afterwards; at the end of the text, and only there, `Eof`. A fault comes
/// as quick-xml's description of it; nothing is said of the reader after a fault.
#[verifier::external_body]
fn read_event(reader: &mut Reader<&[u8]>) -> (outcome: Result<RawEvent, String>)
    ensures
        match outcome {
            Ok(event) => if event@ is Eof {
                events_left(*old(reader)).len() == 0
            } else {
                &&& events_left(*old(reader)).len() > 0
                &&& events_left(*old(reader))[0] == Ok::<RawEventView, Seq<char>>(event@)
                &&& events_left(*final(reader)) == events_left(*old(reader)).drop_first()
            },
            Err(reason) => {
                &&& events_left(*old(reader)).len() > 0
                &&& events_left(*old(reader))[0] == Err::<RawEventView, Seq<char>>(reason@)
            },
        },
{
    match reader.read_event() {
        Err(e) => Err(e.to_string()),
        Ok(Event::Start(e)) => Ok(RawEvent::Start(e.name().0.to_vec())),
        Ok(Event::End(e)) => Ok(RawEvent::End(e.name().0.to_vec())),
        Ok(Event::Empty(e)) => Ok(RawEvent::Empty(e.name().0.to_vec())),
        Ok(Event::Text(e)) => Ok(RawEvent::Text(e.to_vec())),
        Ok(Event::CData(e)) => Ok(RawEvent::CData(e.to_vec())),
        Ok(Event::Eof) => Ok(RawEvent::Eof),
        Ok(_) => Ok(RawEvent::Other),
    }
}

/// `String::from_utf8_lossy` of std: the text that `bytes` spell in UTF-8. It
/// depends on the bytes alone and is given the name [`utf8_text`].
#[verifier::external_body]
fn text_of(bytes: &Vec<u8>) -> (text: String)
    ensures
        text@ == utf8_text(bytes@),
{
    String::from_utf8_lossy(bytes).into_owned()
}

/// `escape::unescape` of quick-xml: `raw` with its escapes resolved, or the
/// description of the faulty escape. It depends on the text alone and is given
/// the name [`unescaped`].
#[verifier::external_body]
fn unescape(raw: &str) -> (text: Result<String, String>)
    ensures
        match text {
            Ok(text) => unescaped(raw@) == Ok::<Seq<char>, Seq<char>>(text@),
            Err(reason) => unescaped(raw@) == Err::<Seq<char>, Seq<char>>(reason@),
        },
{
    match quick_xml::escape::unescape(raw) {
        Ok(text) => Ok(text.into_owned()),
        Err(e) => Err(e.to_string()),
    }
}

/// The token that an event stands for: a tag with its name read as UTF-8,
/// character data with its escapes resolved, a character data section as it is;
/// or the description of a faulty escape. The end of the text counts as `Other`.
pub open spec fn token_for(event: RawEventView) -> Result<TokenView, Seq<char>> {
    match event {
        RawEventView::Start(name) => Ok(TokenView::Open(utf8_text(name))),
        RawEventView::End(name) => Ok(TokenView::Close(utf8_text(name))),
        RawEventView::Empty(name) => Ok(TokenView::Empty(utf8_text(name))),
        RawEventView::Text(raw) => match unescaped(utf8_text(raw)) {
            Ok(text) => Ok(TokenView::Text(text)),
            Err(reason) => Err(reason),
        },
        RawEventView::CData(raw) => Ok(TokenView::Text(utf8_text(raw))),
        RawEventView::Other => Ok(TokenView::Other),
        RawEventView::Eof => Ok(TokenView::Other),
    }
}

/// The outcome of tokenizing, with the tokens and the reason as plain values.
pub open spec fn tokens_view(outcome: Result<Vec<XmlToken>, String>) -> Result<
    Seq<TokenView>,
    Seq<char>,
> {
    match outcome {
        Ok(tokens) => Ok(tokens.deep_view()),
        Err(reason) => Err(reason@),
    }
}

/// Writes an event as a token.
pub fn token_of(event: &RawEvent) -> (token: Result<XmlToken, String>)
    ensures
        match token {
            Ok(token) => token_for(event@) == Ok::<TokenView, Seq<char>>(token@),
            Err(reason) => token_for(event@) == Err::<TokenView, Seq<char>>(reason@),
        },
{
    match event {
        RawEvent::Start(name) => Ok(XmlToken::Open(text_of(name))),
        RawEvent::End(name) => Ok(XmlToken::Close(text_of(name))),
        RawEvent::Empty(name) => Ok(XmlToken::Empty(text_of(name))),
        RawEvent::Text(raw) => match unescape(text_of(raw).as_str()) {
            Ok(text) => Ok(XmlToken::Text(text)),
            Err(reason) => Err(reason),
        },
        RawEvent::CData(raw) => Ok(XmlToken::Text(text_of(raw))),
        RawEvent::Other => Ok(XmlToken::Other),
        RawEvent::Eof => Ok(XmlToken::Other),
    }
}

/// The tokens that a sequence of read outcomes stands for, or the description
/// of the first fault among them: a fault of reading or a faulty escape.
pub open spec fn tokens_of(events: Seq<Result<RawEventView, Seq<char>>>) -> Result<
    Seq<TokenView>,
    Seq<char>,
>
    decreases events.len(),
{
    if events.len() == 0 {
        Ok(Seq::empty())
    } else {
        match events[0] {
            Err(reason) => Err(reason),
            Ok(event) => match token_for(event) {
                Err(reason) => Err(reason),
                Ok(token) => after(seq![token], tokens_of(events.drop_first())),
            },
        }
    }
}

/// The tokens `first` followed by those of `rest`, or the fault of `rest`.
pub open spec fn after(first: Seq<TokenView>, rest: Result<Seq<TokenView>, Seq<char>>) -> Result<
    Seq<TokenView>,
    Seq<char>,
> {
    match rest {
        Ok(tokens) => Ok(first + tokens),
        Err(reason) => Err(reason),
    }
}

/// The tokens of `text`, read as XML with the whitespace around character data
/// stripped, or the description of the first place where it is not XML.
pub open spec fn xml_tokens(text: Seq<char>) -> Result<Seq<TokenView>, Seq<char>> {
    tokens_of(xml_events(text, true))
}

/// The names of the elements that are open after the first `n` tokens, outermost
/// first. An end tag closes the innermost open element.
pub open spec fn open_elements(tokens: Seq<TokenView>, n: int) -> Seq<Seq<char>>
    decreases n,
{
    if n <= 0 {
        Seq::empty()
    } else {
        let before = open_elements(tokens, n - 1);
        match tokens[n - 1] {
            TokenView::Open(name) => before.push(name),
            TokenView::Close(_) => if before.len() > 0 {
                before.drop_last()
            } else {
                before
            },
            _ => before,
        }
    }
}

/// Whether the token at `i`, if it is an end tag, names the innermost element
/// that is open there.
pub open spec fn closes_innermost(tokens: Seq<TokenView>, i: int) -> bool {
    match tokens[i] {
        TokenView::Close(name) => {
            &&& open_elements(tokens, i).len() > 0
            &&& open_elements(tokens, i).last() == name
        },
        _ => true,
    }
}

/// Whether every end tag closes the innermost open element and no element stays
/// open at the end.
pub open spec fn well_nested(tokens: Seq<TokenView>) -> bool {
    &&& forall|i: int| 0 <= i < tokens.len() ==> closes_innermost(tokens, i)
    &&& open_elements(tokens, tokens.len() as int).len() == 0
}

/// Reads `text` as XML from its beginning to its end, with the whitespace
/// around character data stripped: its tokens in order, or the description of
/// the first place where the text is not XML.
pub fn read_tokens(text: &str) -> (result: Result<Vec<XmlToken>, String>)
    ensures
        tokens_view(result) == xml_tokens(text@),
{
    let mut reader = open_reader(text, true);
    let mut tokens: Vec<XmlToken> = Vec::new();
    assert(after(tokens.deep_view(), tokens_of(events_left(reader))) == xml_tokens(text@)) by {
        assert(tokens.deep_view() =~= Seq::<TokenView>::empty());
        match tokens_of(events_left(reader)) {
            Ok(rest) => {
                assert(Seq::<TokenView>::empty() + rest =~= rest);
            },
            Err(_) => {},
        }
    }
    loop
        invariant
            after(tokens.deep_view(), tokens_of(events_left(reader))) == xml_tokens(text@),
        decreases events_left(reader).len(),
    {
        let ghost read = tokens.deep_view();
        let ghost left = events_left(reader);
        let event = match read_event(&mut reader) {
            Ok(event) => event,
            Err(reason) => {
                return Err(reason);
            },
        };
        match event {
            RawEvent::Eof => {
                assert(read + Seq::<TokenView>::empty() =~= read);
                return Ok(tokens);
            },
            _ => {},
        }
        match token_of(&event) {
            Ok(token) => {
                tokens.push(token);
                proof {
                    assert(tokens.deep_view() =~= read.push(token@));
                    match tokens_of(left.drop_first()) {
                        Ok(rest) => {
                            assert(read + (seq![token@] + rest) =~= read.push(token@) + rest);
                        },
                        Err(_) => {},
                    }
                }
            },
            Err(reason) => {
                return Err(reason);
            },
        }
    }
}

} // verus!
