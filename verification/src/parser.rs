//! The interface that all record parsers share, and the way a container
//! drives a sub-parser.
use crate::token::{Tag, Token};
use crate::util::{alike_tokens, lemma_empty_attribute_is_absent, push_back};
use vstd::prelude::*;

verus! {

/// Why a text or an attribute value could not be read. Places are byte
/// offsets into the raw value.
#[derive(Clone, Copy, Debug, PartialEq, Eq)]
pub enum XmlFault {
    /// The bytes are not UTF-8.
    Encoding,
    /// A reference names an entity that is not predefined. The name stands
    /// from the first offset up to the second.
    UnrecognizedEntity(usize, usize),
    /// An `&` is not followed by a `;`. The `&` stands at the first offset,
    /// the value ends at the second.
    UnterminatedEntity(usize, usize),
    /// A character reference does not give a character that XML allows.
    InvalidCharRef,
    /// Any other failure of the XML library.
    Other,
}

impl XmlFault {
    /// The sentence for the fault.
    pub open spec fn sentence(self) -> Seq<char> {
        match self {
            XmlFault::Encoding => "text is not UTF-8"@,
            XmlFault::UnrecognizedEntity(_, _) => "unrecognized entity"@,
            XmlFault::UnterminatedEntity(_, _) => "cannot find `;` after `&`"@,
            XmlFault::InvalidCharRef => "invalid character reference"@,
            XmlFault::Other => "malformed text or attribute value"@,
        }
    }

    /// A sentence for the user.
    pub fn message(&self) -> (text: String)
        ensures
            text@ == self.sentence(),
    {
        match self {
            XmlFault::Encoding => "text is not UTF-8".to_owned(),
            XmlFault::UnrecognizedEntity(_, _) => "unrecognized entity".to_owned(),
            XmlFault::UnterminatedEntity(_, _) => "cannot find `;` after `&`".to_owned(),
            XmlFault::InvalidCharRef => "invalid character reference".to_owned(),
            XmlFault::Other => "malformed text or attribute value".to_owned(),
        }
    }
}

/// Why a parser gave up on a record.
#[derive(Clone, Copy, Debug, PartialEq, Eq)]
pub enum ParserError {
    /// A text or an attribute value could not be read, and why.
    QuickXml(XmlFault),
    /// A numeric field does not hold a base-10 integer of its type.
    ParseInt,
    /// A boolean field holds neither `true` nor `false`.
    ParseBool,
    /// A tag lacks the named attribute, which its record cannot do without.
    MissingAttr(&'static str),
    /// Text arrived for the named entry before the entry itself was opened.
    MissingData(&'static str),
}

impl ParserError {
    /// A sentence for the user.
    pub fn message(&self) -> (text: String)
        ensures
            text@ == match *self {
                ParserError::QuickXml(fault) => fault.sentence(),
                ParserError::ParseInt => "invalid digit found in string or number out of range"@,
                ParserError::ParseBool => "provided string was not `true` or `false`"@,
                ParserError::MissingAttr(_) => "missing an expected XML attribute"@,
                ParserError::MissingData(_) => "missing data that should have already been parsed"@,
            },
    {
        match self {
            ParserError::QuickXml(fault) => fault.message(),
            ParserError::ParseInt => {
                "invalid digit found in string or number out of range".to_owned()
            },
            ParserError::ParseBool => "provided string was not `true` or `false`".to_owned(),
            ParserError::MissingAttr(_) => "missing an expected XML attribute".to_owned(),
            ParserError::MissingData(_) => {
                "missing data that should have already been parsed".to_owned()
            },
        }
    }
}

/// What `result` must be, given the model `expected` of the outcome: the same
/// error, or a value whose deep view is the expected one.
pub open spec fn yields<T: DeepView>(
    result: Result<T, ParserError>,
    expected: Result<T::V, ParserError>,
) -> bool {
    match expected {
        Ok(value) => result is Ok && result->Ok_0.deep_view() == value,
        Err(error) => result is Err && result->Err_0 == error,
    }
}

/// A state machine that builds one record at a time from a run of tokens.
///
/// The view of a parser is its whole state: where it stands in the record,
/// the record built so far, and whether that record is complete. `step` is
/// the transition function over that view; `process` follows it.
pub trait Parser: View + Sized {
    /// The record that the parser builds.
    type Item: DeepView;

    /// The state before the first token: no field set, nothing complete.
    spec fn fresh() -> Self::V;

    /// The state after `token`, or the error that the token raises.
    spec fn step(model: Self::V, token: &Token) -> Result<Self::V, ParserError>;

    /// Whether the closing tag of the record has been seen.
    spec fn ready(model: Self::V) -> bool;

    /// The record built so far.
    spec fn item(model: Self::V) -> <Self::Item as DeepView>::V;

    /// The state once the record has been handed out: an empty record in
    /// its place, nothing complete, all else as before.
    spec fn emptied(model: Self::V) -> Self::V;

    /// Handing a record out leaves nothing of it behind: the slot then
    /// holds what a fresh parser holds, and nothing is complete.
    proof fn lemma_emptied_slot(model: Self::V)
        ensures
            !Self::ready(Self::emptied(model)),
            Self::item(Self::emptied(model)) == Self::item(Self::fresh()),
            Self::emptied(Self::emptied(model)) == Self::emptied(model),
    ;

    /// A parser reads a tag through its name and through the values of its
    /// optional attributes only, so it cannot tell apart two tokens that
    /// are alike: an attribute that is there with an empty value is read as
    /// one that is absent, whatever field it stands for.
    proof fn lemma_step_alike(model: Self::V, a: &Token, b: &Token)
        requires
            alike_tokens(a, b),
        ensures
            Self::step(model, a) == Self::step(model, b),
    ;

    /// A fresh parser has nothing complete.
    proof fn lemma_fresh_not_ready()
        ensures
            !Self::ready(Self::fresh()),
            Self::emptied(Self::fresh()) == Self::fresh(),
    ;

    fn new() -> (parser: Self)
        ensures
            parser@ == Self::fresh(),
    ;

    fn item_ready(&self) -> (ready: bool)
        ensures
            ready == Self::ready(self@),
    ;

    /// Moves the record out and leaves an empty one in its place.
    fn take(&mut self) -> (item: Self::Item)
        ensures
            item.deep_view() == Self::item(old(self)@),
            final(self)@ == Self::emptied(old(self)@),
    ;

    /// Consumes one token. On an error the parser is left as it was.
    fn process(&mut self, token: &Token) -> (result: Result<(), ParserError>)
        ensures
            match Self::step(old(self)@, token) {
                Ok(next) => result is Ok && final(self)@ == next,
                Err(error) => result == Err::<(), ParserError>(error)
                    && final(self)@ == old(self)@,
            },
    ;
}

/// One token given to a parser whose records are harvested at once: the
/// state after the token, with the record that the token completed, if any,
/// taken out of it.
pub open spec fn fed<P: Parser>(model: P::V, token: &Token) -> Result<
    (P::V, Option<<P::Item as DeepView>::V>),
    ParserError,
> {
    match P::step(model, token) {
        Err(error) => Err(error),
        Ok(next) => if P::ready(next) {
            Ok((P::emptied(next), Some(P::item(next))))
        } else {
            Ok((next, None))
        },
    }
}

/// Forwards `token` to `parser` and harvests the record if the token
/// completed one. This is how a container drives the parser of a nested
/// group, and how a reader drives the parser of its records.
pub fn feed<P: Parser>(parser: &mut P, token: &Token) -> (result: Result<
    Option<P::Item>,
    ParserError,
>)
    ensures
        match fed::<P>(old(parser)@, token) {
            Err(error) => result == Err::<Option<P::Item>, ParserError>(error)
                && final(parser)@ == old(parser)@,
            Ok((next, None)) => result == Ok::<Option<P::Item>, ParserError>(None)
                && final(parser)@ == next,
            Ok((next, Some(item))) => final(parser)@ == next && (result matches Ok(Some(got))
                && got.deep_view() == item),
        },
{
    match parser.process(token) {
        Err(error) => Err(error),
        Ok(()) => {
            if parser.item_ready() {
                Ok(Some(parser.take()))
            } else {
                Ok(None)
            }
        },
    }
}

/// One token given to the parser of a nested group whose records are
/// collected in `list`: the state of that parser after the token, and the
/// list with the record that the token completed, if any, at its end.
pub open spec fn harvested<P: Parser>(
    model: P::V,
    list: Seq<<P::Item as DeepView>::V>,
    token: &Token,
) -> Result<(P::V, Seq<<P::Item as DeepView>::V>), ParserError> {
    match fed::<P>(model, token) {
        Err(error) => Err(error),
        Ok((next, None)) => Ok((next, list)),
        Ok((next, Some(item))) => Ok((next, list.push(item))),
    }
}

/// Forwards `token` to the parser of a nested group and, if the token
/// completed a record, moves that record to the end of `list`.
pub fn harvest<P: Parser>(parser: &mut P, list: &mut Vec<P::Item>, token: &Token) -> (result:
    Result<(), ParserError>)
    ensures
        match harvested::<P>(old(parser)@, old(list).deep_view(), token) {
            Ok((next, items)) => result is Ok && final(parser)@ == next
                && final(list).deep_view() == items,
            Err(error) => result == Err::<(), ParserError>(error)
                && final(parser)@ == old(parser)@
                && final(list).deep_view() == old(list).deep_view(),
        },
{
    match feed(parser, token) {
        Err(error) => Err(error),
        Ok(None) => Ok(()),
        Ok(Some(item)) => {
            push_back(list, item);
            Ok(())
        },
    }
}

/// The state of a parser after a run of tokens during which no record is
/// taken out of it; or the first error.
pub open spec fn run<P: Parser>(model: P::V, tokens: Seq<Token>) -> Result<P::V, ParserError>
    decreases tokens.len(),
{
    if tokens.len() == 0 {
        Ok(model)
    } else {
        match P::step(model, &tokens.first()) {
            Ok(next) => run::<P>(next, tokens.drop_first()),
            Err(error) => Err(error),
        }
    }
}

/// A run of two tokens is two steps.
pub proof fn lemma_run_two<P: Parser>(model: P::V, a: Token, b: Token)
    ensures
        run::<P>(model, seq![a, b]) == match P::step(model, &a) {
            Ok(next) => P::step(next, &b),
            Err(error) => Err(error),
        },
{
    let tokens = seq![a, b];
    assert(tokens.first() == a);
    assert(tokens.drop_first() =~= seq![b]);
    assert(seq![b].first() == b);
    assert(seq![b].drop_first() =~= Seq::<Token>::empty());
    reveal_with_fuel(run, 3);
}

/// A run of three tokens is three steps.
pub proof fn lemma_run_three<P: Parser>(model: P::V, a: Token, b: Token, c: Token)
    ensures
        run::<P>(model, seq![a, b, c]) == match P::step(model, &a) {
            Ok(next) => match P::step(next, &b) {
                Ok(after) => P::step(after, &c),
                Err(error) => Err(error),
            },
            Err(error) => Err(error),
        },
{
    let tokens = seq![a, b, c];
    assert(tokens.first() == a);
    assert(tokens.drop_first() =~= seq![b, c]);
    match P::step(model, &a) {
        Ok(next) => {
            lemma_run_two::<P>(next, b, c);
        },
        Err(_) => {},
    }
}

/// An element as three tokens: its start tag, its text, its end tag.
pub open spec fn element(open: Tag, text: Vec<u8>, close: Vec<u8>) -> Seq<Token> {
    seq![Token::Start(open), Token::Text(text), Token::End(close)]
}

/// An element without text as two tokens: its start tag, its end tag.
pub open spec fn bare_element(open: Tag, close: Vec<u8>) -> Seq<Token> {
    seq![Token::Start(open), Token::End(close)]
}

/// `element` and `bare_element`, step by step.
pub proof fn lemma_run_element<P: Parser>(model: P::V, open: Tag, text: Vec<u8>, close: Vec<u8>)
    ensures
        run::<P>(model, element(open, text, close)) == match P::step(
            model,
            &Token::Start(open),
        ) {
            Ok(next) => match P::step(next, &Token::Text(text)) {
                Ok(after) => P::step(after, &Token::End(close)),
                Err(error) => Err(error),
            },
            Err(error) => Err(error),
        },
        run::<P>(model, bare_element(open, close)) == match P::step(model, &Token::Start(open)) {
            Ok(next) => P::step(next, &Token::End(close)),
            Err(error) => Err(error),
        },
        run::<P>(model, seq![Token::Empty(open)]) == P::step(model, &Token::Empty(open)),
{
    lemma_run_two::<P>(model, Token::Start(open), Token::End(close));
    lemma_run_three::<P>(model, Token::Start(open), Token::Text(text), Token::End(close));
    let single = seq![Token::Empty(open)];
    assert(single.first() == Token::Empty(open));
    assert(single.drop_first() =~= Seq::<Token>::empty());
    reveal_with_fuel(run, 2);
}

/// An attribute that is there with an empty value decodes as one that is
/// absent, in every parser, in every state and for every field: the tag
/// with the empty attribute and the tag without it lead to the same state or
/// to the same error.
pub proof fn lemma_empty_attribute_decodes_as_absent<P: Parser>(
    model: P::V,
    with: Tag,
    without: Tag,
    at: int,
)
    requires
        with.name@ == without.name@,
        0 <= at < with.attributes@.len(),
        with.attributes@[at].value@.len() == 0,
        forall|j: int|
            at < j < with.attributes@.len() ==> (#[trigger] with.attributes@[j]).key@
                != with.attributes@[at].key@,
        without.attributes@ == with.attributes@.remove(at),
    ensures
        P::step(model, &Token::Start(with)) == P::step(model, &Token::Start(without)),
        P::step(model, &Token::Empty(with)) == P::step(model, &Token::Empty(without)),
{
    lemma_empty_attribute_is_absent(&with, &without, at);
    P::lemma_step_alike(model, &Token::Start(with), &Token::Start(without));
    P::lemma_step_alike(model, &Token::Empty(with), &Token::Empty(without));
}

/// The list of a nested group only grows, and at its end: a record that is
/// completed joins the list behind all that were completed before it.
pub proof fn lemma_harvested_grows<P: Parser>(
    model: P::V,
    list: Seq<<P::Item as DeepView>::V>,
    token: &Token,
)
    ensures
        harvested::<P>(model, list, token) matches Ok((_, after)) ==> list.is_prefix_of(after),
{
    match harvested::<P>(model, list, token) {
        Ok((_, after)) => {
            assert(list =~= after.subrange(0, list.len() as int));
        },
        Err(_) => {},
    }
}

} // verus!
