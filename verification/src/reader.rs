//! Readers: a parser driven over a run of tokens, one record at a pull, and
//! the choice of the reader that fits a dump.
use crate::artist::{lemma_artist_rests, ArtistParser};
use crate::label::LabelParser;
use crate::master::MasterParser;
use crate::parser::{bare_element, element, fed, feed, Parser, ParserError};
use crate::release::ReleaseParser;
use crate::token::{bytes_eq, Tag, Token};
use crate::util::{alike_tokens, push_back};
use vstd::prelude::*;
use vstd::slice::slice_to_vec;
use vstd::string::*;

verus! {

/// Why no reader could be chosen for a dump.
#[derive(Clone, Debug, PartialEq, Eq)]
pub enum ReaderError {
    /// The dump ends before any start tag.
    NoStartTag,
    /// The first start tag, whose qualified name this is, opens none of
    /// the four kinds of dump.
    InvalidStartTag(Vec<u8>),
}

impl ReaderError {
    /// A sentence for the user, without the name of the tag.
    pub fn message(&self) -> (text: String)
        ensures
            text@ == match *self {
                ReaderError::NoStartTag => "No start tag present in file"@,
                ReaderError::InvalidStartTag(_) => "Invalid start tag present in file"@,
            },
    {
        match self {
            ReaderError::NoStartTag => "No start tag present in file".to_owned(),
            ReaderError::InvalidStartTag(_) => "Invalid start tag present in file".to_owned(),
        }
    }
}

/// The four kinds of dump.
#[derive(Clone, Copy, Debug, PartialEq, Eq)]
pub enum DumpKind {
    Artists,
    Labels,
    Masters,
    Releases,
}

impl DumpKind {
    /// The kind of dump that a first start tag with the qualified name
    /// `name` opens: the tag of the collection, or, as in older dumps, the
    /// tag of one record.
    pub open spec fn of(name: Seq<u8>) -> Option<DumpKind> {
        if name == "artists".spec_bytes() || name == "artist".spec_bytes() {
            Some(DumpKind::Artists)
        } else if name == "labels".spec_bytes() || name == "label".spec_bytes() {
            Some(DumpKind::Labels)
        } else if name == "masters".spec_bytes() || name == "master".spec_bytes() {
            Some(DumpKind::Masters)
        } else if name == "releases".spec_bytes() || name == "release".spec_bytes() {
            Some(DumpKind::Releases)
        } else {
            None
        }
    }

    /// The kind of dump that a first start tag with the qualified name
    /// `name` opens.
    pub fn from_start_tag(name: &[u8]) -> (kind: Option<DumpKind>)
        ensures
            kind == DumpKind::of(name@),
    {
        if bytes_eq(name, "artists".as_bytes()) || bytes_eq(name, "artist".as_bytes()) {
            Some(DumpKind::Artists)
        } else if bytes_eq(name, "labels".as_bytes()) || bytes_eq(name, "label".as_bytes()) {
            Some(DumpKind::Labels)
        } else if bytes_eq(name, "masters".as_bytes()) || bytes_eq(name, "master".as_bytes()) {
            Some(DumpKind::Masters)
        } else if bytes_eq(name, "releases".as_bytes()) || bytes_eq(name, "release".as_bytes()) {
            Some(DumpKind::Releases)
        } else {
            None
        }
    }

    /// The word for the kind: the name of its collection.
    pub fn name(&self) -> (word: String)
        ensures
            word@ == match *self {
                DumpKind::Artists => "artists"@,
                DumpKind::Labels => "labels"@,
                DumpKind::Masters => "masters"@,
                DumpKind::Releases => "releases"@,
            },
    {
        match self {
            DumpKind::Artists => "artists".to_owned(),
            DumpKind::Labels => "labels".to_owned(),
            DumpKind::Masters => "masters".to_owned(),
            DumpKind::Releases => "releases".to_owned(),
        }
    }
}

/// What one token means to the search for the first start tag.
#[derive(Clone, Copy, Debug, PartialEq, Eq)]
pub enum Scan {
    /// The token is a start tag: the search ends here.
    Found,
    /// The token ends the document: there is no start tag.
    Ended,
    /// Any other token: the search goes on.
    Skip,
}

/// What `token` means to the search for the first start tag.
pub open spec fn scanned(token: &Token) -> Scan {
    match token {
        Token::Start(_) => Scan::Found,
        Token::Eof => Scan::Ended,
        _ => Scan::Skip,
    }
}

/// What `token` means to the search for the first start tag.
pub fn scan(token: &Token) -> (meaning: Scan)
    ensures
        meaning == scanned(token),
{
    match token {
        Token::Start(_) => Scan::Found,
        Token::Eof => Scan::Ended,
        _ => Scan::Skip,
    }
}

/// The index of the first start tag of `tokens` at or after `from`; none
/// where the document ends or the tokens run out before one.
pub open spec fn first_start(tokens: Seq<Token>, from: int) -> Option<int>
    decreases tokens.len() - from,
{
    if from < 0 || from >= tokens.len() {
        None
    } else {
        match scanned(&tokens[from]) {
            Scan::Found => Some(from),
            Scan::Ended => None,
            Scan::Skip => first_start(tokens, from + 1),
        }
    }
}

/// Looks for the first start tag of `tokens`.
pub fn read_start_tag(tokens: &Vec<Token>) -> (result: Result<usize, ReaderError>)
    ensures
        match first_start(tokens@, 0) {
            Some(index) => result == Ok::<usize, ReaderError>(index as usize)
                && 0 <= index < tokens.len() && tokens[index] is Start,
            None => result == Err::<usize, ReaderError>(ReaderError::NoStartTag),
        },
{
    let mut i: usize = 0;
    while i < tokens.len()
        invariant
            i <= tokens.len(),
            first_start(tokens@, 0) == first_start(tokens@, i as int),
        decreases tokens.len() - i,
    {
        match scan(&tokens[i]) {
            Scan::Found => return Ok(i),
            Scan::Ended => return Err(ReaderError::NoStartTag),
            Scan::Skip => {},
        }
        i += 1;
    }
    Err(ReaderError::NoStartTag)
}

/// What a reader does after one token.
#[derive(Debug)]
pub enum Step<T> {
    /// The token completed this record: hand it out.
    Record(T),
    /// Go on with the next token.
    More,
    /// The document has ended: there is no further record.
    End,
}

/// One token given to a reader whose parser is in the state `model`: the
/// state of the parser afterwards, and what the reader does. The end of the
/// document is not given to the parser.
pub open spec fn advanced<P: Parser>(model: P::V, token: &Token) -> Result<
    (P::V, Step<<P::Item as DeepView>::V>),
    ParserError,
> {
    if token is Eof {
        Ok((model, Step::End))
    } else {
        match fed::<P>(model, token) {
            Err(error) => Err(error),
            Ok((next, Some(item))) => Ok((next, Step::Record(item))),
            Ok((next, None)) => Ok((next, Step::More)),
        }
    }
}

/// Gives one token to the parser of a reader and says what the reader
/// does next. A reader over any source of tokens is a loop around this
/// function.
pub fn advance<P: Parser>(parser: &mut P, token: &Token) -> (result: Result<
    Step<P::Item>,
    ParserError,
>)
    ensures
        match advanced::<P>(old(parser)@, token) {
            Err(error) => result == Err::<Step<P::Item>, ParserError>(error)
                && final(parser)@ == old(parser)@,
            Ok((next, Step::Record(item))) => final(parser)@ == next && (result matches Ok(
                Step::Record(got),
            ) && got.deep_view() == item),
            Ok((next, Step::More)) => final(parser)@ == next && result matches Ok(Step::More),
            Ok((next, Step::End)) => final(parser)@ == next && result matches Ok(Step::End),
        },
{
    match token {
        Token::Eof => Ok(Step::End),
        _ => match feed(parser, token) {
            Err(error) => Err(error),
            Ok(Some(item)) => Ok(Step::Record(item)),
            Ok(None) => Ok(Step::More),
        },
    }
}

/// One pull on a reader whose parser is in the state `model` and which
/// stands at `position` in `tokens`. Tokens go to the parser one by one
/// until one of them completes a record, which is the outcome. Where the
/// document ends or the tokens run out first, the outcome is none, now and
/// at every later pull. Where a token raises an error, the error is the
/// outcome and the reader is at the end of its tokens: the sequence is over.
/// The result is the state of the parser, the position and the outcome.
pub open spec fn pulled<P: Parser>(model: P::V, tokens: Seq<Token>, position: int) -> (
    P::V,
    int,
    Result<Option<<P::Item as DeepView>::V>, ParserError>,
)
    decreases tokens.len() - position,
{
    if position < 0 || position >= tokens.len() {
        (model, position, Ok(None))
    } else {
        match advanced::<P>(model, &tokens[position]) {
            Err(error) => (model, tokens.len() as int, Err(error)),
            Ok((next, Step::End)) => (next, position, Ok(None)),
            Ok((next, Step::Record(item))) => (next, position + 1, Ok(Some(item))),
            Ok((next, Step::More)) => pulled::<P>(next, tokens, position + 1),
        }
    }
}

/// All the records that a parser in the state `model` builds from
/// `tokens`, in their order, with the state that it ends in; or the first
/// error. The end of the document ends the run.
pub open spec fn records<P: Parser>(model: P::V, tokens: Seq<Token>) -> Result<
    (P::V, Seq<<P::Item as DeepView>::V>),
    ParserError,
>
    decreases tokens.len(),
{
    if tokens.len() == 0 || tokens.first() is Eof {
        Ok((model, Seq::empty()))
    } else {
        match fed::<P>(model, &tokens.first()) {
            Err(error) => Err(error),
            Ok((next, item)) => match records::<P>(next, tokens.drop_first()) {
                Err(error) => Err(error),
                Ok((last, rest)) => Ok(
                    (
                        last,
                        match item {
                            Some(item) => seq![item] + rest,
                            None => rest,
                        },
                    ),
                ),
            },
        }
    }
}

/// Where reading stops for good: the index of the first end of the
/// document at or after `from`, or the number of tokens where there is none.
pub open spec fn end_from(tokens: Seq<Token>, from: int) -> int
    decreases tokens.len() - from,
{
    if from < 0 || from >= tokens.len() {
        tokens.len() as int
    } else if tokens[from] is Eof {
        from
    } else {
        end_from(tokens, from + 1)
    }
}

/// A parser that is driven over a run of tokens and gives its records one
/// at a pull, in document order.
pub struct RecordReader<P: Parser> {
    tokens: Vec<Token>,
    position: usize,
    parser: P,
}

impl<P: Parser> RecordReader<P> {
    /// The tokens that the reader was made over.
    pub closed spec fn tokens(&self) -> Seq<Token> {
        self.tokens@
    }

    /// How many of the tokens the reader has left behind.
    pub closed spec fn position(&self) -> int {
        self.position as int
    }

    /// The state of the parser.
    pub closed spec fn parser(&self) -> P::V {
        self.parser@
    }

    /// What holds of every reader: it stands inside its tokens or at their
    /// end.
    pub closed spec fn well_formed(&self) -> bool {
        self.position <= self.tokens.len()
    }

    /// A reader over `tokens`, with a fresh parser, at the first token.
    pub fn new(tokens: Vec<Token>) -> (reader: Self)
        ensures
            reader.well_formed(),
            reader.tokens() == tokens@,
            reader.position() == 0,
            reader.parser() == P::fresh(),
    {
        RecordReader { tokens, position: 0, parser: P::new() }
    }

    /// A reader over `tokens`, with a fresh parser, at the token with the
    /// index `position`.
    pub fn starting_at(tokens: Vec<Token>, position: usize) -> (reader: Self)
        requires
            position <= tokens.len(),
        ensures
            reader.well_formed(),
            reader.tokens() == tokens@,
            reader.position() == position,
            reader.parser() == P::fresh(),
    {
        RecordReader { tokens, position, parser: P::new() }
    }

    /// Reads on to the end of the next record and hands that record out;
    /// none where the dump has no further record. After an error the
    /// sequence is over.
    pub fn next(&mut self) -> (result: Result<Option<P::Item>, ParserError>)
        requires
            old(self).well_formed(),
        ensures
            final(self).well_formed(),
            final(self).tokens() == old(self).tokens(),
            ({
                let (parser, position, outcome) = pulled::<P>(
                    old(self).parser(),
                    old(self).tokens(),
                    old(self).position(),
                );
                &&& final(self).parser() == parser
                &&& final(self).position() == position
                &&& match outcome {
                    Err(error) => result == Err::<Option<P::Item>, ParserError>(error),
                    Ok(None) => result == Ok::<Option<P::Item>, ParserError>(None),
                    Ok(Some(item)) => result matches Ok(Some(got)) && got.deep_view() == item,
                }
            }),
    {
        while self.position < self.tokens.len()
            invariant
                self.position <= self.tokens.len(),
                self.tokens@ == old(self).tokens@,
                pulled::<P>(old(self).parser@, old(self).tokens@, old(self).position as int)
                    == pulled::<P>(self.parser@, self.tokens@, self.position as int),
            decreases self.tokens.len() - self.position,
        {
            match advance(&mut self.parser, &self.tokens[self.position]) {
                Err(error) => {
                    self.position = self.tokens.len();
                    return Err(error);
                },
                Ok(Step::End) => {
                    return Ok(None);
                },
                Ok(Step::Record(item)) => {
                    self.position = self.position + 1;
                    return Ok(Some(item));
                },
                Ok(Step::More) => {
                    self.position = self.position + 1;
                },
            }
        }
        Ok(None)
    }

    /// Reads all the records that are left, in their order.
    pub fn read_all(&mut self) -> (result: Result<Vec<P::Item>, ParserError>)
        requires
            old(self).well_formed(),
        ensures
            final(self).well_formed(),
            final(self).tokens() == old(self).tokens(),
            match records::<P>(old(self).parser(), old(self).tokens().skip(old(self).position())) {
                Err(error) => result == Err::<Vec<P::Item>, ParserError>(error)
                    && final(self).position() == final(self).tokens().len(),
                Ok((parser, items)) => final(self).parser() == parser && result is Ok
                    && result->Ok_0.deep_view() == items && final(self).position() == end_from(
                    old(self).tokens(),
                    old(self).position(),
                ),
            },
    {
        let mut items: Vec<P::Item> = Vec::new();
        assert(items.deep_view() =~= Seq::empty());
        loop
            invariant
                self.well_formed(),
                self.tokens() == old(self).tokens(),
                records::<P>(old(self).parser(), old(self).tokens().skip(old(self).position()))
                    == match records::<P>(self.parser(), self.tokens().skip(self.position())) {
                    Err(error) => Err(error),
                    Ok((last, rest)) => Ok((last, items.deep_view() + rest)),
                },
                end_from(self.tokens(), self.position()) == end_from(
                    old(self).tokens(),
                    old(self).position(),
                ),
            decreases self.tokens().len() - self.position(),
        {
            proof {
                lemma_pull_then_rest::<P>(self.parser(), self.tokens(), self.position());
                match records::<P>(self.parser(), self.tokens().skip(self.position())) {
                    Ok((last, rest)) => {
                        assert(items.deep_view() + Seq::empty() =~= items.deep_view());
                    },
                    Err(_) => {},
                }
            }
            let ghost before = items.deep_view();
            match self.next() {
                Err(error) => return Err(error),
                Ok(None) => return Ok(items),
                Ok(Some(item)) => {
                    push_back(&mut items, item);
                    proof {
                        match records::<P>(self.parser(), self.tokens().skip(self.position())) {
                            Ok((last, rest)) => {
                                assert(before + (seq![item.deep_view()] + rest) =~= before.push(
                                    item.deep_view(),
                                ) + rest);
                            },
                            Err(_) => {},
                        }
                    }
                },
            }
        }
    }
}

/// A reader of artists.
pub type ArtistsReader = RecordReader<ArtistParser>;

/// A reader of labels.
pub type LabelsReader = RecordReader<LabelParser>;

/// A reader of masters.
pub type MastersReader = RecordReader<MasterParser>;

/// A reader of releases.
pub type ReleasesReader = RecordReader<ReleaseParser>;

/// The reader that fits a dump.
pub enum DiscogsReader {
    Artists(Box<ArtistsReader>),
    Labels(Box<LabelsReader>),
    Masters(Box<MastersReader>),
    Releases(Box<ReleasesReader>),
}

impl DiscogsReader {
    /// The kind of dump that the reader is for.
    pub open spec fn kind_of(&self) -> DumpKind {
        match self {
            DiscogsReader::Artists(_) => DumpKind::Artists,
            DiscogsReader::Labels(_) => DumpKind::Labels,
            DiscogsReader::Masters(_) => DumpKind::Masters,
            DiscogsReader::Releases(_) => DumpKind::Releases,
        }
    }

    /// Whether the reader is over `tokens`, with a fresh parser, at the
    /// token with the index `position`.
    pub open spec fn starts_at(&self, tokens: Seq<Token>, position: int) -> bool {
        match self {
            DiscogsReader::Artists(reader) => reader.well_formed() && reader.tokens() == tokens
                && reader.position() == position && reader.parser() == ArtistParser::fresh(),
            DiscogsReader::Labels(reader) => reader.well_formed() && reader.tokens() == tokens
                && reader.position() == position && reader.parser() == LabelParser::fresh(),
            DiscogsReader::Masters(reader) => reader.well_formed() && reader.tokens() == tokens
                && reader.position() == position && reader.parser() == MasterParser::fresh(),
            DiscogsReader::Releases(reader) => reader.well_formed() && reader.tokens() == tokens
                && reader.position() == position && reader.parser() == ReleaseParser::fresh(),
        }
    }

    /// The qualified name of the tag at `index`, where that is a start
    /// tag.
    pub open spec fn start_name(tokens: Seq<Token>, index: int) -> Seq<u8> {
        match tokens[index] {
            Token::Start(tag) => tag.name@,
            _ => Seq::empty(),
        }
    }

    /// Chooses the reader for the dump that `tokens` hold: what comes
    /// before the first start tag is left behind, the name of that tag
    /// decides the kind, and the reader stands at that tag.
    pub fn from_tokens(tokens: Vec<Token>) -> (result: Result<DiscogsReader, ReaderError>)
        ensures
            match first_start(tokens@, 0) {
                None => result == Err::<DiscogsReader, ReaderError>(ReaderError::NoStartTag),
                Some(index) => match DumpKind::of(Self::start_name(tokens@, index)) {
                    None => result matches Err(ReaderError::InvalidStartTag(name)) && name@
                        == Self::start_name(tokens@, index),
                    Some(kind) => result matches Ok(reader) && reader.kind_of() == kind
                        && reader.starts_at(tokens@, index),
                },
            },
    {
        let index = match read_start_tag(&tokens) {
            Ok(index) => index,
            Err(error) => return Err(error),
        };
        let kind = match &tokens[index] {
            Token::Start(tag) => match DumpKind::from_start_tag(tag.name.as_slice()) {
                Some(kind) => kind,
                None => return Err(ReaderError::InvalidStartTag(slice_to_vec(tag.name.as_slice()))),
            },
            _ => return Err(ReaderError::NoStartTag),
        };
        Ok(
            match kind {
                DumpKind::Artists => DiscogsReader::Artists(
                    Box::new(RecordReader::starting_at(tokens, index)),
                ),
                DumpKind::Labels => DiscogsReader::Labels(
                    Box::new(RecordReader::starting_at(tokens, index)),
                ),
                DumpKind::Masters => DiscogsReader::Masters(
                    Box::new(RecordReader::starting_at(tokens, index)),
                ),
                DumpKind::Releases => DiscogsReader::Releases(
                    Box::new(RecordReader::starting_at(tokens, index)),
                ),
            },
        )
    }

    /// The kind of dump that the reader is for.
    pub fn kind(&self) -> (kind: DumpKind)
        ensures
            kind == self.kind_of(),
    {
        match self {
            DiscogsReader::Artists(_) => DumpKind::Artists,
            DiscogsReader::Labels(_) => DumpKind::Labels,
            DiscogsReader::Masters(_) => DumpKind::Masters,
            DiscogsReader::Releases(_) => DumpKind::Releases,
        }
    }

    /// The word for the kind of the reader.
    pub fn display(&self) -> (word: String)
        ensures
            word@ == match self.kind_of() {
                DumpKind::Artists => "artists"@,
                DumpKind::Labels => "labels"@,
                DumpKind::Masters => "masters"@,
                DumpKind::Releases => "releases"@,
            },
    {
        self.kind().name()
    }
}

/// Whether none of `tokens` is the end of the document.
pub open spec fn unended(tokens: Seq<Token>) -> bool {
    forall|i: int| 0 <= i < tokens.len() ==> !(#[trigger] tokens[i] is Eof)
}

/// The records of `first` and then of `second`, read by one parser that
/// goes from the one run to the other as it is.
pub open spec fn chained<P: Parser>(model: P::V, first: Seq<Token>, second: Seq<Token>) -> Result<
    (P::V, Seq<<P::Item as DeepView>::V>),
    ParserError,
> {
    match records::<P>(model, first) {
        Err(error) => Err(error),
        Ok((middle, head)) => match records::<P>(middle, second) {
            Err(error) => Err(error),
            Ok((last, tail)) => Ok((last, head + tail)),
        },
    }
}

/// Reading is sequential: the records of two runs of tokens put end to end
/// are the records of the first run followed by those that the parser, in
/// the state in which the first run left it, builds from the second.
pub proof fn lemma_records_concat<P: Parser>(model: P::V, first: Seq<Token>, second: Seq<Token>)
    requires
        unended(first),
    ensures
        records::<P>(model, first + second) == chained::<P>(model, first, second),
    decreases first.len(),
{
    if first.len() == 0 {
        assert(first + second =~= second);
        match records::<P>(model, second) {
            Ok((last, tail)) => {
                assert(Seq::<<P::Item as DeepView>::V>::empty() + tail =~= tail);
            },
            Err(_) => {},
        }
    } else {
        let whole = first + second;
        assert(whole.first() == first.first());
        assert(!(first[0] is Eof));
        assert(whole.drop_first() =~= first.drop_first() + second);
        match fed::<P>(model, &first.first()) {
            Err(_) => {},
            Ok((next, item)) => {
                assert(unended(first.drop_first())) by {
                    assert forall|i: int| 0 <= i < first.drop_first().len() implies !(
                    #[trigger] first.drop_first()[i] is Eof) by {
                        assert(first.drop_first()[i] == first[i + 1]);
                    }
                }
                lemma_records_concat::<P>(next, first.drop_first(), second);
                match records::<P>(next, first.drop_first()) {
                    Err(_) => {},
                    Ok((middle, head)) => match records::<P>(middle, second) {
                        Err(_) => {},
                        Ok((last, tail)) => {
                            match item {
                                Some(item) => {
                                    assert(seq![item] + (head + tail) =~= (seq![item] + head)
                                        + tail);
                                },
                                None => {},
                            }
                        },
                    },
                }
            },
        }
    }
}

/// Records do not leak into one another: where a run of tokens leaves the
/// parser as a fresh one, whatever follows is read as if nothing had come
/// before. So a dump that is made of such runs, put end to end, gives the
/// records of each run in turn, as many as the runs give one by one.
pub proof fn lemma_records_independent<P: Parser>(first: Seq<Token>, second: Seq<Token>)
    requires
        unended(first),
        records::<P>(P::fresh(), first) is Ok,
        records::<P>(P::fresh(), first)->Ok_0.0 == P::fresh(),
    ensures
        records::<P>(P::fresh(), first + second) == match records::<P>(P::fresh(), second) {
            Err(error) => Err(error),
            Ok((last, tail)) => Ok((last, records::<P>(P::fresh(), first)->Ok_0.1 + tail)),
        },
{
    lemma_records_concat::<P>(P::fresh(), first, second);
}

/// Between two pulls nothing is complete: a parser that starts with
/// nothing complete ends a run of tokens with nothing complete.
pub proof fn lemma_records_unready<P: Parser>(model: P::V, tokens: Seq<Token>)
    requires
        !P::ready(model),
    ensures
        records::<P>(model, tokens) matches Ok((last, _)) ==> !P::ready(last),
    decreases tokens.len(),
{
    if tokens.len() > 0 && !(tokens.first() is Eof) {
        match fed::<P>(model, &tokens.first()) {
            Err(_) => {},
            Ok((next, item)) => {
                match P::step(model, &tokens.first()) {
                    Ok(stepped) => {
                        P::lemma_emptied_slot(stepped);
                    },
                    Err(_) => {},
                }
                lemma_records_unready::<P>(next, tokens.drop_first());
            },
        }
    }
}

/// The runs of tokens put end to end.
pub open spec fn joined(runs: Seq<Seq<Token>>) -> Seq<Token>
    decreases runs.len(),
{
    if runs.len() == 0 {
        Seq::empty()
    } else {
        runs.first() + joined(runs.drop_first())
    }
}

/// Whether a fresh parser reads the run without error and is as a fresh
/// one again at its end.
pub open spec fn self_contained<P: Parser>(tokens: Seq<Token>) -> bool {
    &&& unended(tokens)
    &&& records::<P>(P::fresh(), tokens) matches Ok((last, _)) && last == P::fresh()
}

/// The records of each run, read alone by a fresh parser, one run after
/// the other.
pub open spec fn each_alone<P: Parser>(runs: Seq<Seq<Token>>) -> Seq<<P::Item as DeepView>::V>
    decreases runs.len(),
{
    if runs.len() == 0 {
        Seq::empty()
    } else {
        records::<P>(P::fresh(), runs.first())->Ok_0.1 + each_alone::<P>(runs.drop_first())
    }
}

/// A dump made of any number of self-contained runs gives the records of
/// each run as a fresh parser reads them from that run alone, in the order
/// of the runs: nothing of one run is seen in the records of another.
pub proof fn lemma_records_of_runs<P: Parser>(runs: Seq<Seq<Token>>)
    requires
        forall|i: int| 0 <= i < runs.len() ==> self_contained::<P>(#[trigger] runs[i]),
    ensures
        records::<P>(P::fresh(), joined(runs)) == Ok::<
            (P::V, Seq<<P::Item as DeepView>::V>),
            ParserError,
        >((P::fresh(), each_alone::<P>(runs))),
    decreases runs.len(),
{
    if runs.len() > 0 {
        assert(self_contained::<P>(runs[0]));
        assert forall|i: int| 0 <= i < runs.drop_first().len() implies self_contained::<P>(
            #[trigger] runs.drop_first()[i],
        ) by {
            assert(runs.drop_first()[i] == runs[i + 1]);
        }
        lemma_records_of_runs::<P>(runs.drop_first());
        lemma_records_concat::<P>(P::fresh(), runs.first(), joined(runs.drop_first()));
    }
}

/// A dump made of N self-contained runs of one record each gives N
/// records.
pub proof fn lemma_one_record_each<P: Parser>(runs: Seq<Seq<Token>>)
    requires
        forall|i: int|
            0 <= i < runs.len() ==> self_contained::<P>(#[trigger] runs[i]) && records::<P>(
                P::fresh(),
                runs[i],
            )->Ok_0.1.len() == 1,
    ensures
        records::<P>(P::fresh(), joined(runs)) is Ok,
        records::<P>(P::fresh(), joined(runs))->Ok_0.1.len() == runs.len(),
        forall|i: int|
            0 <= i < runs.len() ==> records::<P>(P::fresh(), joined(runs))->Ok_0.1[i]
                == records::<P>(P::fresh(), #[trigger] runs[i])->Ok_0.1[0],
{
    lemma_records_of_runs::<P>(runs);
    lemma_each_alone_one::<P>(runs);
}

/// Where each run gives one record, `each_alone` gives one record for
/// each run, at the place of the run.
pub proof fn lemma_each_alone_one<P: Parser>(runs: Seq<Seq<Token>>)
    requires
        forall|i: int|
            0 <= i < runs.len() ==> records::<P>(P::fresh(), #[trigger] runs[i])->Ok_0.1.len()
                == 1,
    ensures
        each_alone::<P>(runs).len() == runs.len(),
        forall|i: int|
            0 <= i < runs.len() ==> each_alone::<P>(runs)[i] == records::<P>(
                P::fresh(),
                #[trigger] runs[i],
            )->Ok_0.1[0],
    decreases runs.len(),
{
    if runs.len() > 0 {
        assert(records::<P>(P::fresh(), runs[0])->Ok_0.1.len() == 1);
        assert forall|i: int| 0 <= i < runs.drop_first().len() implies records::<P>(
            P::fresh(),
            #[trigger] runs.drop_first()[i],
        )->Ok_0.1.len() == 1 by {
            assert(runs.drop_first()[i] == runs[i + 1]);
        }
        lemma_each_alone_one::<P>(runs.drop_first());
        assert forall|i: int| 0 <= i < runs.len() implies each_alone::<P>(runs)[i] == records::<
            P,
        >(P::fresh(), #[trigger] runs[i])->Ok_0.1[0] by {
            if i > 0 {
                assert(runs.drop_first()[i - 1] == runs[i]);
            }
        }
    }
}

/// The records of a run of tokens are the records of all its tokens but
/// the last, and after them the record that the last token completes, if
/// it completes one.
pub proof fn lemma_records_last<P: Parser>(model: P::V, tokens: Seq<Token>)
    requires
        tokens.len() > 0,
        unended(tokens),
    ensures
        records::<P>(model, tokens) == match records::<P>(model, tokens.drop_last()) {
            Err(error) => Err(error),
            Ok((middle, head)) => match fed::<P>(middle, &tokens.last()) {
                Err(error) => Err(error),
                Ok((last, Some(item))) => Ok((last, head.push(item))),
                Ok((last, None)) => Ok((last, head)),
            },
        },
{
    let first = tokens.drop_last();
    let second = seq![tokens.last()];
    assert(tokens =~= first + second);
    assert(unended(first)) by {
        assert forall|i: int| 0 <= i < first.len() implies !(#[trigger] first[i] is Eof) by {
            assert(first[i] == tokens[i]);
        }
    }
    lemma_records_concat::<P>(model, first, second);
    assert(second.first() == tokens.last());
    assert(!(tokens[tokens.len() - 1] is Eof));
    assert(second.drop_first() =~= Seq::<Token>::empty());
    match records::<P>(model, first) {
        Err(_) => {},
        Ok((middle, head)) => {
            reveal_with_fuel(records, 2);
            match fed::<P>(middle, &tokens.last()) {
                Err(_) => {},
                Ok((last, Some(item))) => {
                    assert(seq![item] + Seq::<<P::Item as DeepView>::V>::empty() =~= seq![item]);
                    assert(head + seq![item] =~= head.push(item));
                },
                Ok((last, None)) => {
                    assert(head + Seq::<<P::Item as DeepView>::V>::empty() =~= head);
                },
            }
        },
    }
}

/// A run of tokens that ends where an artist ends is self-contained:
/// whatever the run holds, the artists that follow it are read as if
/// nothing had come before.
pub proof fn lemma_artist_run_rests(tokens: Seq<Token>)
    requires
        tokens.len() > 0,
        unended(tokens),
        records::<ArtistParser>(ArtistParser::fresh(), tokens.drop_last()) matches Ok(
            (middle, _),
        ) && fed::<ArtistParser>(middle, &tokens.last()) matches Ok((_, Some(_))),
    ensures
        self_contained::<ArtistParser>(tokens),
{
    lemma_records_last::<ArtistParser>(ArtistParser::fresh(), tokens);
    lemma_records_unready::<ArtistParser>(ArtistParser::fresh(), tokens.drop_last());
    let middle = records::<ArtistParser>(ArtistParser::fresh(), tokens.drop_last())->Ok_0.0;
    lemma_artist_rests(middle, &tokens.last());
}

/// Whether a parser reads the run of tokens without completing a record
/// and is afterwards as it was before: the run is passed over.
pub open spec fn passes_over<P: Parser>(model: P::V, tokens: Seq<Token>) -> bool {
    records::<P>(model, tokens) == Ok::<(P::V, Seq<<P::Item as DeepView>::V>), ParserError>(
        (model, Seq::empty()),
    )
}

/// An element is passed over where its tokens, one after the other, lead
/// back to the state before it and complete nothing on the way.
pub proof fn lemma_quiet_element<P: Parser>(model: P::V, open: Tag, text: Vec<u8>, close: Vec<u8>)
    requires
        !P::ready(model),
    ensures
        (P::step(model, &Token::Start(open)) matches Ok(a) && !P::ready(a) && (P::step(
            a,
            &Token::Text(text),
        ) matches Ok(b) && !P::ready(b) && P::step(b, &Token::End(close)) == Ok::<
            P::V,
            ParserError,
        >(model))) ==> passes_over::<P>(model, element(open, text, close)),
        (P::step(model, &Token::Start(open)) matches Ok(a) && !P::ready(a) && P::step(
            a,
            &Token::End(close),
        ) == Ok::<P::V, ParserError>(model)) ==> passes_over::<P>(
            model,
            bare_element(open, close),
        ),
        P::step(model, &Token::Empty(open)) == Ok::<P::V, ParserError>(model) ==> passes_over::<
            P,
        >(model, seq![Token::Empty(open)]),
{
    let none = Seq::<<P::Item as DeepView>::V>::empty();
    assert(none + none =~= none);
    let three = element(open, text, close);
    assert(three.first() == Token::Start(open));
    assert(three.drop_first() =~= seq![Token::Text(text), Token::End(close)]);
    let two = bare_element(open, close);
    assert(two.first() == Token::Start(open));
    assert(two.drop_first() =~= seq![Token::End(close)]);
    let after_text = seq![Token::Text(text), Token::End(close)];
    assert(after_text.first() == Token::Text(text));
    assert(after_text.drop_first() =~= seq![Token::End(close)]);
    let last = seq![Token::End(close)];
    assert(last.first() == Token::End(close));
    assert(last.drop_first() =~= Seq::<Token>::empty());
    let single = seq![Token::Empty(open)];
    assert(single.first() == Token::Empty(open));
    assert(single.drop_first() =~= Seq::<Token>::empty());
    reveal_with_fuel(records, 4);
}

/// What is passed over may stand anywhere: a run of tokens that is passed
/// over in the state that the tokens before it lead to can be left out, and
/// the records of the dump are the same.
pub proof fn lemma_passed_over_anywhere<P: Parser>(
    model: P::V,
    before: Seq<Token>,
    middle: Seq<Token>,
    after: Seq<Token>,
)
    requires
        unended(before),
        unended(middle),
        records::<P>(model, before) matches Ok((reached, _)) && passes_over::<P>(reached, middle),
    ensures
        records::<P>(model, before + middle + after) == records::<P>(model, before + after),
{
    let reached = records::<P>(model, before)->Ok_0.0;
    let head = records::<P>(model, before)->Ok_0.1;
    assert(before + middle + after =~= before + (middle + after));
    lemma_records_concat::<P>(model, before, middle + after);
    lemma_records_concat::<P>(reached, middle, after);
    lemma_records_concat::<P>(model, before, after);
    match records::<P>(reached, after) {
        Ok((last, tail)) => {
            assert(Seq::<<P::Item as DeepView>::V>::empty() + tail =~= tail);
        },
        Err(_) => {},
    }
}

/// Runs of tokens that are alike, token by token, give the same records:
/// a dump in which attributes are empty decodes as the dump in which they
/// are absent.
pub proof fn lemma_alike_runs<P: Parser>(model: P::V, a: Seq<Token>, b: Seq<Token>)
    requires
        a.len() == b.len(),
        forall|i: int| 0 <= i < a.len() ==> alike_tokens(&#[trigger] a[i], &b[i]),
    ensures
        records::<P>(model, a) == records::<P>(model, b),
    decreases a.len(),
{
    if a.len() > 0 {
        assert(alike_tokens(&a[0], &b[0]));
        P::lemma_step_alike(model, &a.first(), &b.first());
        assert forall|i: int| 0 <= i < a.drop_first().len() implies alike_tokens(
            &#[trigger] a.drop_first()[i],
            &b.drop_first()[i],
        ) by {
            assert(alike_tokens(&a[i + 1], &b[i + 1]));
        }
        match fed::<P>(model, &a.first()) {
            Ok((next, _)) => {
                lemma_alike_runs::<P>(next, a.drop_first(), b.drop_first());
            },
            Err(_) => {},
        }
    }
}

/// One pull is the first step of reading everything: the records of the
/// tokens from `position` on are the record that the pull gives, followed
/// by the records of what the pull left. A pull that gives no record leaves
/// the reader where reading stops for good.
pub proof fn lemma_pull_then_rest<P: Parser>(model: P::V, tokens: Seq<Token>, position: int)
    requires
        0 <= position <= tokens.len(),
    ensures
        ({
            let (next, after, outcome) = pulled::<P>(model, tokens, position);
            &&& position <= after <= tokens.len()
            &&& match outcome {
                Err(error) => after == tokens.len() && records::<P>(model, tokens.skip(position))
                    == Err::<(P::V, Seq<<P::Item as DeepView>::V>), ParserError>(error),
                Ok(None) => after == end_from(tokens, position) && records::<P>(
                    model,
                    tokens.skip(position),
                ) == Ok::<(P::V, Seq<<P::Item as DeepView>::V>), ParserError>(
                    (next, Seq::empty()),
                ) && records::<P>(next, tokens.skip(after)) == Ok::<
                    (P::V, Seq<<P::Item as DeepView>::V>),
                    ParserError,
                >((next, Seq::empty())),
                Ok(Some(item)) => position < after && end_from(tokens, after) == end_from(
                    tokens,
                    position,
                ) && records::<P>(model, tokens.skip(position)) == match records::<P>(
                    next,
                    tokens.skip(after),
                ) {
                    Err(error) => Err(error),
                    Ok((last, rest)) => Ok((last, seq![item] + rest)),
                },
            }
        }),
    decreases tokens.len() - position,
{
    let rest = tokens.skip(position);
    if position >= tokens.len() || tokens[position] is Eof {
        if position < tokens.len() {
            assert(rest.first() == tokens[position]);
        }
    } else {
        assert(rest.first() == tokens[position]);
        assert(rest.drop_first() =~= tokens.skip(position + 1));
        match fed::<P>(model, &tokens[position]) {
            Err(_) => {},
            Ok((next, Some(item))) => {},
            Ok((next, None)) => {
                lemma_pull_then_rest::<P>(next, tokens, position + 1);
            },
        }
    }
}

} // verus!
