//! The error document that the remote API sends when it reports a fault that the
//! client knows no category for.

use vstd::prelude::*;
use crate::xml::{
    closes_innermost, open_elements, read_tokens, well_nested, xml_tokens, TokenView, XmlToken,
};

verus! {

/// One fault of the error document.
#[derive(Debug, PartialEq)]
pub struct Error {
    pub message: String,
}

/// The faults of the error document, in document order.
#[derive(Debug, PartialEq)]
pub struct Errors {
    errors: Vec<Error>,
}

/// The error document.
#[derive(Debug, PartialEq)]
pub struct UnknownError {
    pub errors: Errors,
}

impl View for Error {
    type V = Seq<char>;

    open spec fn view(&self) -> Seq<char> {
        self.message@
    }
}

impl View for Errors {
    type V = Seq<Seq<char>>;

    closed spec fn view(&self) -> Seq<Seq<char>> {
        Seq::new(self.errors@.len(), |i: int| self.errors@[i].message@)
    }
}

impl View for UnknownError {
    type V = Seq<Seq<char>>;

    open spec fn view(&self) -> Seq<Seq<char>> {
        self.errors@
    }
}

/// The texts `parts` in order, with `separator` between each two neighbours.
pub open spec fn joined(parts: Seq<Seq<char>>, separator: char) -> Seq<char>
    decreases parts.len(),
{
    if parts.len() == 0 {
        Seq::empty()
    } else if parts.len() == 1 {
        parts[0]
    } else {
        joined(parts.drop_last(), separator).push(separator) + parts.last()
    }
}

impl Errors {
    /// The faults `errors`, in that order.
    pub fn new(errors: Vec<Error>) -> (made: Errors)
        ensures
            made@.len() == errors@.len(),
            forall|i: int| 0 <= i < errors@.len() ==> made@[i] == errors@[i]@,
    {
        Errors { errors }
    }

    /// How many faults there are.
    pub fn len(&self) -> (count: usize)
        ensures
            count == self@.len(),
    {
        self.errors.len()
    }

    /// The message of the fault at `index`.
    pub fn message(&self, index: usize) -> (text: &String)
        requires
            index < self@.len(),
        ensures
            text@ == self@[index as int],
    {
        &self.errors[index].message
    }
}

impl UnknownError {
    /// The messages of all faults in document order, one per line.
    pub open spec fn text(&self) -> Seq<char> {
        joined(self@, '\n')
    }

    /// Renders the document for the operator: the messages of its faults, joined
    /// by line feeds.
    pub fn to_text(&self) -> (text: String)
        ensures
            text@ == self.text(),
    {
        let mut text = String::new();
        let count = self.errors.len();
        let mut i: usize = 0;
        assert(self@.take(0) =~= Seq::<Seq<char>>::empty());
        while i < count
            invariant
                i <= count == self@.len(),
                text@ == joined(self@.take(i as int), '\n'),
            decreases count - i,
        {
            proof {
                assert(self@.take(i + 1).drop_last() =~= self@.take(i as int));
                assert(self@.take(i + 1).last() == self@[i as int]);
            }
            if i > 0 {
                text.push('\n');
            }
            text.append(self.errors.message(i).as_str());
            assert(text@ =~= joined(self@.take(i + 1), '\n'));
            i += 1;
        }
        assert(self@.take(count as int) =~= self@);
        text
    }
}

/// Why a text could not be read as an error document.
#[derive(Debug, PartialEq)]
pub enum ParseFailure {
    /// The text is not XML; holds the tokenizer's description.
    Syntax(String),
    /// An end tag does not close the innermost open element, or an element stays open.
    Unbalanced,
    /// The document holds no message at the place where faults keep theirs.
    NoMessage,
}

/// A failure to read an error document, as plain values.
pub enum ParseFailureView {
    Syntax(Seq<char>),
    Unbalanced,
    NoMessage,
}

impl View for ParseFailure {
    type V = ParseFailureView;

    open spec fn view(&self) -> ParseFailureView {
        match self {
            ParseFailure::Syntax(reason) => ParseFailureView::Syntax(reason@),
            ParseFailure::Unbalanced => ParseFailureView::Unbalanced,
            ParseFailure::NoMessage => ParseFailureView::NoMessage,
        }
    }
}

impl ParseFailureView {
    /// The text shown to the operator for this failure.
    pub open spec fn description_text(&self) -> Seq<char> {
        match self {
            ParseFailureView::Syntax(reason) => *reason,
            ParseFailureView::Unbalanced =>
                "the error document's elements are not properly nested"@,
            ParseFailureView::NoMessage => "the error document holds no error message"@,
        }
    }
}

impl ParseFailure {
    /// The text shown to the operator for this failure.
    pub open spec fn description_text(&self) -> Seq<char> {
        self@.description_text()
    }

    /// Renders the failure for the operator.
    pub fn description(&self) -> (text: String)
        ensures
            text@ == self.description_text(),
    {
        match self {
            ParseFailure::Syntax(reason) => reason.clone(),
            ParseFailure::Unbalanced =>
                "the error document's elements are not properly nested".to_string(),
            ParseFailure::NoMessage => "the error document holds no error message".to_string(),
        }
    }
}

/// The elements that enclose a fault's message: `Response`, `Errors`, `Error`.
pub open spec fn error_path() -> Seq<Seq<char>> {
    seq!["Response"@, "Errors"@, "Error"@]
}

/// The name of the element that holds a fault's message.
pub open spec fn message_name() -> Seq<char> {
    "Message"@
}

/// The elements that are open inside a fault's message.
pub open spec fn message_path() -> Seq<Seq<char>> {
    error_path().push(message_name())
}

/// The messages that begin within the first `n` tokens, in document order. A
/// message begins with each `Message` element directly inside
/// `Response/Errors/Error` and is made of the character data directly inside
/// that element.
pub open spec fn messages_in(tokens: Seq<TokenView>, n: int) -> Seq<Seq<char>>
    decreases n,
{
    if n <= 0 {
        Seq::empty()
    } else {
        let before = messages_in(tokens, n - 1);
        let path = open_elements(tokens, n - 1);
        match tokens[n - 1] {
            TokenView::Open(name) => if path == error_path() && name == message_name() {
                before.push(Seq::empty())
            } else {
                before
            },
            TokenView::Empty(name) => if path == error_path() && name == message_name() {
                before.push(Seq::empty())
            } else {
                before
            },
            TokenView::Text(text) => if path == message_path() && before.len() > 0 {
                before.drop_last().push(before.last() + text)
            } else {
                before
            },
            _ => before,
        }
    }
}

/// The messages of the error document that `tokens` spell.
pub open spec fn messages_of(tokens: Seq<TokenView>) -> Seq<Seq<char>> {
    messages_in(tokens, tokens.len() as int)
}

/// What `tokens` spell: the messages of an error document, or why they spell none.
/// Tokens that are not well nested spell none, nor do tokens without a message.
pub open spec fn spelled_document(tokens: Seq<TokenView>) -> Result<Seq<Seq<char>>, ParseFailure> {
    if !well_nested(tokens) {
        Err(ParseFailure::Unbalanced)
    } else if messages_of(tokens).len() == 0 {
        Err(ParseFailure::NoMessage)
    } else {
        Ok(messages_of(tokens))
    }
}

/// The outcome of reading an error document, with the document as its messages.
pub open spec fn outcome_view(outcome: Result<UnknownError, ParseFailure>) -> Result<
    Seq<Seq<char>>,
    ParseFailure,
> {
    match outcome {
        Ok(document) => Ok(document@),
        Err(failure) => Err(failure),
    }
}

/// Whether `name` reads `expected`.
fn is_named(name: &String, expected: &str) -> (same: bool)
    ensures
        same == (name@ == expected@),
{
    let expected = expected.to_string();
    *name == expected
}

/// Whether the open elements are those that enclose a fault's message.
fn at_error_path(path: &Vec<String>) -> (there: bool)
    ensures
        there == (path.deep_view() == error_path()),
{
    let there = path.len() == 3 && is_named(&path[0], "Response") && is_named(&path[1], "Errors")
        && is_named(&path[2], "Error");
    proof {
        assert(error_path().len() == 3);
        assert(path.deep_view().len() == path.len());
        if there {
            assert(path.deep_view() =~= error_path());
        } else if path.len() == 3 {
            assert(error_path()[0] == "Response"@);
            assert(error_path()[1] == "Errors"@);
            assert(error_path()[2] == "Error"@);
            assert(path.deep_view()[0] == path[0]@);
            assert(path.deep_view()[1] == path[1]@);
            assert(path.deep_view()[2] == path[2]@);
        }
    }
    there
}

/// Whether the open elements are those inside a fault's message.
fn at_message_path(path: &Vec<String>) -> (there: bool)
    ensures
        there == (path.deep_view() == message_path()),
{
    let there = path.len() == 4 && is_named(&path[0], "Response") && is_named(&path[1], "Errors")
        && is_named(&path[2], "Error") && is_named(&path[3], "Message");
    proof {
        assert(message_path().len() == 4);
        assert(path.deep_view().len() == path.len());
        if there {
            assert(path.deep_view() =~= message_path());
        } else if path.len() == 4 {
            assert(message_path()[0] == "Response"@);
            assert(message_path()[1] == "Errors"@);
            assert(message_path()[2] == "Error"@);
            assert(message_path()[3] == "Message"@);
            assert(path.deep_view()[0] == path[0]@);
            assert(path.deep_view()[1] == path[1]@);
            assert(path.deep_view()[2] == path[2]@);
            assert(path.deep_view()[3] == path[3]@);
        }
    }
    there
}

/// The messages gathered so far: the finished ones, then the one still open.
spec fn gathered(finished: Seq<Error>, pending: Option<String>) -> Seq<Seq<char>> {
    let done = Seq::new(finished.len(), |i: int| finished[i].message@);
    match pending {
        Some(text) => done.push(text@),
        None => done,
    }
}

/// Begins a new message after those gathered so far.
fn begin_message(finished: &mut Vec<Error>, pending: &mut Option<String>)
    ensures
        gathered(final(finished)@, *final(pending)) == gathered(old(finished)@, *old(pending)).push(
            Seq::empty(),
        ),
        *final(pending) is Some,
{
    let ghost before = gathered(finished@, *pending);
    let mut taken: Option<String> = None;
    core::mem::swap(pending, &mut taken);
    match taken {
        Some(message) => {
            finished.push(Error { message });
        },
        None => {},
    }
    *pending = Some(String::new());
    assert(gathered(finished@, *pending) =~= before.push(Seq::empty()));
}

/// Adds `text` to the message that is still open, if there is one.
fn extend_message(finished: &Vec<Error>, pending: &mut Option<String>, text: &String)
    ensures
        gathered(finished@, *final(pending)) == if gathered(finished@, *old(pending)).len() > 0
            && *old(pending) is Some {
            gathered(finished@, *old(pending)).drop_last().push(
                gathered(finished@, *old(pending)).last() + text@,
            )
        } else {
            gathered(finished@, *old(pending))
        },
        *old(pending) is Some <==> *final(pending) is Some,
{
    let ghost before = gathered(finished@, *pending);
    let mut taken: Option<String> = None;
    core::mem::swap(pending, &mut taken);
    match taken {
        Some(mut message) => {
            message.append(text.as_str());
            *pending = Some(message);
            assert(gathered(finished@, *pending) =~= before.drop_last().push(before.last() + text@));
        },
        None => {},
    }
}

/// Reads the error document that `tokens` spell: its messages in document
/// order. Tokens that are not well nested, or that hold no message, are refused.
pub fn unknown_error_from_tokens(tokens: &Vec<XmlToken>) -> (result: Result<
    UnknownError,
    ParseFailure,
>)
    ensures
        outcome_view(result) == spelled_document(tokens.deep_view()),
{
    let ghost spelled = tokens.deep_view();
    let mut path: Vec<String> = Vec::new();
    let mut finished: Vec<Error> = Vec::new();
    let mut pending: Option<String> = None;
    let mut i: usize = 0;
    assert(path.deep_view() =~= open_elements(spelled, 0));
    assert(gathered(finished@, pending) =~= messages_in(spelled, 0));
    while i < tokens.len()
        invariant
            i <= tokens.len(),
            spelled == tokens.deep_view(),
            path.deep_view() == open_elements(spelled, i as int),
            gathered(finished@, pending) == messages_in(spelled, i as int),
            pending is None ==> finished@.len() == 0,
            forall|j: int| 0 <= j < i ==> closes_innermost(spelled, j),
        decreases tokens.len() - i,
    {
        assert(spelled[i as int] == tokens[i as int]@);
        match &tokens[i] {
            XmlToken::Open(name) => {
                if at_error_path(&path) && is_named(name, "Message") {
                    begin_message(&mut finished, &mut pending);
                }
                let ghost before = path.deep_view();
                path.push(name.clone());
                assert(path.deep_view() =~= before.push(name@));
            },
            XmlToken::Empty(name) => {
                if at_error_path(&path) && is_named(name, "Message") {
                    begin_message(&mut finished, &mut pending);
                }
            },
            XmlToken::Close(name) => {
                let ghost before = path.deep_view();
                match path.pop() {
                    Some(innermost) => {
                        assert(innermost@ == before.last());
                        assert(path.deep_view() =~= before.drop_last());
                        if !(innermost == *name) {
                            assert(!closes_innermost(spelled, i as int));
                            return Err(ParseFailure::Unbalanced);
                        }
                    },
                    None => {
                        assert(!closes_innermost(spelled, i as int));
                        return Err(ParseFailure::Unbalanced);
                    },
                }
            },
            XmlToken::Text(text) => {
                if at_message_path(&path) {
                    extend_message(&finished, &mut pending, text);
                }
            },
            XmlToken::Other => {},
        }
        i += 1;
    }
    if path.len() > 0 {
        return Err(ParseFailure::Unbalanced);
    }
    match pending {
        Some(message) => {
            finished.push(Error { message });
            let document = UnknownError { errors: Errors { errors: finished } };
            assert(document@ =~= messages_of(spelled));
            Ok(document)
        },
        None => Err(ParseFailure::NoMessage),
    }
}

/// What reading `payload` as an error document gives: what its tokens spell, or
/// the tokenizer's description of the first place where it is not XML.
pub open spec fn parsed_document(payload: Seq<char>) -> Result<Seq<Seq<char>>, ParseFailureView> {
    match xml_tokens(payload) {
        Ok(tokens) => match spelled_document(tokens) {
            Ok(messages) => Ok(messages),
            Err(failure) => Err(failure@),
        },
        Err(reason) => Err(ParseFailureView::Syntax(reason)),
    }
}

/// Reads `payload` as an error document: tokenizes it and reads the document
/// that the tokens spell. A text that is not XML is refused with the
/// tokenizer's description.
pub fn parse_unknown_error(payload: &str) -> (result: Result<UnknownError, ParseFailure>)
    ensures
        match xml_tokens(payload@) {
            Ok(tokens) => outcome_view(result) == spelled_document(tokens),
            Err(reason) => {
                &&& result is Err
                &&& result->Err_0 is Syntax
                &&& result->Err_0->Syntax_0@ == reason
            },
        },
        match result {
            Ok(document) => parsed_document(payload@) == Ok::<Seq<Seq<char>>, ParseFailureView>(
                document@,
            ),
            Err(failure) => parsed_document(payload@) == Err::<Seq<Seq<char>>, ParseFailureView>(
                failure@,
            ),
        },
{
    match read_tokens(payload) {
        Ok(tokens) => unknown_error_from_tokens(&tokens),
        Err(reason) => Err(ParseFailure::Syntax(reason)),
    }
}

} // verus!
