//! The tracks of a release.
use crate::artist_credit::{
    ArtistCredit, ArtistCreditParser, ArtistCreditParserView, ArtistCreditView,
};
use crate::parser::{
    bare_element, element, fed, harvest, harvested, lemma_harvested_grows, Parser, ParserError,
};
use crate::reader::{lemma_quiet_element, passes_over};
use crate::token::{Tag, Token, closes, is_named, is_word, lemma_words_differ, local_name, named};
use crate::util::{empty_list, maybe_text, optional_text_of, text, text_of};
use vstd::prelude::*;
use vstd::string::*;

verus! {

/// One track.
#[derive(Clone, Debug, PartialEq, Eq)]
pub struct Track {
    /// Where the track stands on the release, as the release writes it.
    pub position: String,
    pub title: String,
    /// As the release writes it, most often minutes and seconds.
    pub duration: Option<String>,
    pub artists: Vec<ArtistCredit>,
    pub extraartists: Vec<ArtistCredit>,
}

/// The value of a [`Track`].
pub struct TrackView {
    pub position: Seq<char>,
    pub title: Seq<char>,
    pub duration: Option<Seq<char>>,
    pub artists: Seq<ArtistCreditView>,
    pub extraartists: Seq<ArtistCreditView>,
}

impl View for Track {
    type V = TrackView;

    open spec fn view(&self) -> TrackView {
        TrackView {
            position: self.position@,
            title: self.title@,
            duration: self.duration.deep_view(),
            artists: self.artists.deep_view(),
            extraartists: self.extraartists.deep_view(),
        }
    }
}

impl DeepView for Track {
    type V = TrackView;

    open spec fn deep_view(&self) -> TrackView {
        self@
    }
}

impl TrackView {
    /// The track with no field set.
    pub open spec fn empty() -> TrackView {
        TrackView {
            position: Seq::empty(),
            title: Seq::empty(),
            duration: None,
            artists: Seq::empty(),
            extraartists: Seq::empty(),
        }
    }
}

impl Default for Track {
    fn default() -> (track: Track)
        ensures
            track@ == TrackView::empty(),
    {
        Track {
            position: String::new(),
            title: String::new(),
            duration: None,
            artists: empty_list(),
            extraartists: empty_list(),
        }
    }
}

/// Where a track parser stands in the track.
#[derive(Clone, Copy, Debug, PartialEq, Eq)]
pub enum ParserState {
    /// Between the fields of the track, or between tracks.
    Track,
    Position,
    Title,
    Duration,
    Artists,
    ExtraArtists,
}

/// The state machine that builds tracks. It owns the parser of the credits
/// of its tracks.
#[derive(Debug)]
pub struct TrackParser {
    state: ParserState,
    current_item: Track,
    artist_parser: ArtistCreditParser,
    item_ready: bool,
}

/// The state of a [`TrackParser`].
pub struct TrackParserView {
    pub state: ParserState,
    pub item: TrackView,
    /// The state of the parser of the credits.
    pub credits: ArtistCreditParserView,
    pub ready: bool,
}

impl View for TrackParser {
    type V = TrackParserView;

    closed spec fn view(&self) -> TrackParserView {
        TrackParserView {
            state: self.state,
            item: self.current_item@,
            credits: self.artist_parser@,
            ready: self.item_ready,
        }
    }
}

impl TrackParserView {
    /// The state that a start tag leads to from between the fields.
    pub open spec fn opened(tag: &Tag) -> ParserState {
        if tag.is("track") {
            ParserState::Track
        } else if tag.is("position") {
            ParserState::Position
        } else if tag.is("title") {
            ParserState::Title
        } else if tag.is("duration") {
            ParserState::Duration
        } else if tag.is("artists") {
            ParserState::Artists
        } else if tag.is("extraartists") {
            ParserState::ExtraArtists
        } else {
            ParserState::Track
        }
    }

    /// The parser between the fields again, with `item` as its track.
    pub open spec fn back(self, item: TrackView) -> TrackParserView {
        TrackParserView { state: ParserState::Track, item, ..self }
    }

    /// The transition function of the track parser. Inside a list of
    /// credits every token but the end tag of the list goes to the parser of
    /// the credits, and a credit that the token completes joins the list.
    pub open spec fn step(self, token: &Token) -> Result<TrackParserView, ParserError> {
        match self.state {
            ParserState::Track => match token {
                Token::Start(tag) => Ok(TrackParserView { state: Self::opened(tag), ..self }),
                Token::End(name) => if named(name@, "track") {
                    Ok(TrackParserView { ready: true, ..self })
                } else {
                    Ok(self)
                },
                _ => Ok(self),
            },
            ParserState::Position => match token {
                Token::Text(raw) => match text_of(raw@) {
                    Ok(position) => Ok(self.back(TrackView { position, ..self.item })),
                    Err(error) => Err(error),
                },
                _ => Ok(self.back(self.item)),
            },
            ParserState::Title => match token {
                Token::Text(raw) => match text_of(raw@) {
                    Ok(title) => Ok(self.back(TrackView { title, ..self.item })),
                    Err(error) => Err(error),
                },
                _ => Ok(self.back(self.item)),
            },
            ParserState::Duration => match token {
                Token::Text(raw) => match optional_text_of(raw@) {
                    Ok(duration) => Ok(self.back(TrackView { duration, ..self.item })),
                    Err(error) => Err(error),
                },
                _ => Ok(self.back(self.item)),
            },
            ParserState::Artists => if token matches Token::End(name) && named(name@, "artists") {
                Ok(self.back(self.item))
            } else {
                match harvested::<ArtistCreditParser>(self.credits, self.item.artists, token) {
                    Ok((credits, artists)) => Ok(
                        TrackParserView {
                            credits,
                            item: TrackView { artists, ..self.item },
                            ..self
                        },
                    ),
                    Err(error) => Err(error),
                }
            },
            ParserState::ExtraArtists => if token matches Token::End(name) && named(
                name@,
                "extraartists",
            ) {
                Ok(self.back(self.item))
            } else {
                match harvested::<ArtistCreditParser>(
                    self.credits,
                    self.item.extraartists,
                    token,
                ) {
                    Ok((credits, extraartists)) => Ok(
                        TrackParserView {
                            credits,
                            item: TrackView { extraartists, ..self.item },
                            ..self
                        },
                    ),
                    Err(error) => Err(error),
                }
            },
        }
    }
}

impl TrackParser {
    fn opened(tag: &Tag) -> (state: ParserState)
        ensures
            state == TrackParserView::opened(tag),
    {
        let name = local_name(tag.name.as_slice());
        if is_word(name, "track") {
            ParserState::Track
        } else if is_word(name, "position") {
            ParserState::Position
        } else if is_word(name, "title") {
            ParserState::Title
        } else if is_word(name, "duration") {
            ParserState::Duration
        } else if is_word(name, "artists") {
            ParserState::Artists
        } else if is_word(name, "extraartists") {
            ParserState::ExtraArtists
        } else {
            ParserState::Track
        }
    }
}

impl Parser for TrackParser {
    type Item = Track;

    open spec fn fresh() -> TrackParserView {
        TrackParserView {
            state: ParserState::Track,
            item: TrackView::empty(),
            credits: ArtistCreditParser::fresh(),
            ready: false,
        }
    }

    open spec fn step(model: TrackParserView, token: &Token) -> Result<
        TrackParserView,
        ParserError,
    > {
        model.step(token)
    }

    open spec fn ready(model: TrackParserView) -> bool {
        model.ready
    }

    open spec fn item(model: TrackParserView) -> TrackView {
        model.item
    }

    open spec fn emptied(model: TrackParserView) -> TrackParserView {
        TrackParserView { item: TrackView::empty(), ready: false, ..model }
    }

    proof fn lemma_emptied_slot(model: TrackParserView) {
    }

    proof fn lemma_step_alike(model: TrackParserView, a: &Token, b: &Token) {
        ArtistCreditParser::lemma_step_alike(model.credits, a, b);
    }

    proof fn lemma_fresh_not_ready() {
    }

    fn new() -> (parser: Self) {
        TrackParser {
            state: ParserState::Track,
            current_item: Track::default(),
            artist_parser: ArtistCreditParser::new(),
            item_ready: false,
        }
    }

    fn item_ready(&self) -> (ready: bool) {
        self.item_ready
    }

    fn take(&mut self) -> (item: Track) {
        self.item_ready = false;
        let mut item = Track::default();
        std::mem::swap(&mut self.current_item, &mut item);
        item
    }

    fn process(&mut self, token: &Token) -> (result: Result<(), ParserError>) {
        match self.state {
            ParserState::Track => match token {
                Token::Start(tag) => {
                    self.state = Self::opened(tag);
                },
                Token::End(name) => {
                    if is_named(name.as_slice(), "track") {
                        self.item_ready = true;
                    }
                },
                _ => {},
            },
            ParserState::Position => {
                match token {
                    Token::Text(raw) => match text(raw.as_slice()) {
                        Ok(position) => {
                            self.current_item.position = position;
                        },
                        Err(error) => return Err(error),
                    },
                    _ => {},
                }
                self.state = ParserState::Track;
            },
            ParserState::Title => {
                match token {
                    Token::Text(raw) => match text(raw.as_slice()) {
                        Ok(title) => {
                            self.current_item.title = title;
                        },
                        Err(error) => return Err(error),
                    },
                    _ => {},
                }
                self.state = ParserState::Track;
            },
            ParserState::Duration => {
                match token {
                    Token::Text(raw) => match maybe_text(raw.as_slice()) {
                        Ok(duration) => {
                            self.current_item.duration = duration;
                        },
                        Err(error) => return Err(error),
                    },
                    _ => {},
                }
                self.state = ParserState::Track;
            },
            ParserState::Artists => {
                if closes(token, "artists") {
                    self.state = ParserState::Track;
                } else {
                    return harvest(&mut self.artist_parser, &mut self.current_item.artists, token);
                }
            },
            ParserState::ExtraArtists => {
                if closes(token, "extraartists") {
                    self.state = ParserState::Track;
                } else {
                    return harvest(
                        &mut self.artist_parser,
                        &mut self.current_item.extraartists,
                        token,
                    );
                }
            },
        }
        Ok(())
    }
}

/// The start tags that a track knows, each with the state that it leads to
/// from between the fields.
pub proof fn lemma_track_fields(tag: &Tag)
    ensures
        tag.is("track") ==> TrackParserView::opened(tag) == ParserState::Track,
        tag.is("position") ==> TrackParserView::opened(tag) == ParserState::Position,
        tag.is("title") ==> TrackParserView::opened(tag) == ParserState::Title,
        tag.is("duration") ==> TrackParserView::opened(tag) == ParserState::Duration,
        tag.is("artists") ==> TrackParserView::opened(tag) == ParserState::Artists,
        tag.is("extraartists") ==> TrackParserView::opened(tag) == ParserState::ExtraArtists,
{
    lemma_words_differ();
    reveal_strlit("track");
    reveal_strlit("position");
    reveal_strlit("title");
    reveal_strlit("duration");
    reveal_strlit("artists");
    reveal_strlit("extraartists");
    assert("track"@[1] != "title"@[1]);
}

/// A track does not leak into the next: the token that completes a track
/// leaves the parser, whose parser of credits is at rest, as a fresh one,
/// and the track that is handed out is the one that was being built.
pub proof fn lemma_track_rests(model: TrackParserView, token: &Token)
    requires
        !model.ready,
        model.credits == ArtistCreditParser::fresh(),
    ensures
        fed::<TrackParser>(model, token) matches Ok((next, Some(item))) ==> next
            == TrackParser::fresh() && item == model.item,
{
}

/// Between two tokens a track parser has nothing complete, and neither
/// has its parser of credits.
pub proof fn lemma_track_unready(model: TrackParserView, token: &Token)
    requires
        !model.ready,
        !model.credits.ready,
    ensures
        fed::<TrackParser>(model, token) matches Ok((next, _)) ==> !next.ready
            && !next.credits.ready,
{
    ArtistCreditParser::lemma_emptied_slot(model.credits);
}

/// A duration that is there with nothing in it, or with white space only,
/// leaves the track as it is, as if the element were absent.
pub proof fn lemma_track_blank_is_absent(
    model: TrackParserView,
    open: Tag,
    text: Vec<u8>,
    close: Vec<u8>,
)
    requires
        !model.ready,
        model.state == ParserState::Track,
        open.is("duration"),
        model.item.duration is None,
        optional_text_of(text@) == Ok::<Option<Seq<char>>, ParserError>(None),
        !named(close@, "track"),
    ensures
        passes_over::<TrackParser>(model, bare_element(open, close)),
        passes_over::<TrackParser>(model, element(open, text, close)),
        passes_over::<TrackParser>(model, seq![Token::Empty(open)]),
{
    lemma_track_fields(&open);
    lemma_quiet_element::<TrackParser>(model, open, text, close);
}

/// The lists of a track keep document order: a token never takes a credit
/// away, never changes one and never puts one before another.
pub proof fn lemma_track_lists_grow(model: TrackParserView, token: &Token)
    ensures
        model.step(token) matches Ok(next) ==> {
            &&& model.item.artists.is_prefix_of(next.item.artists)
            &&& model.item.extraartists.is_prefix_of(next.item.extraartists)
        },
{
    lemma_harvested_grows::<ArtistCreditParser>(model.credits, model.item.artists, token);
    lemma_harvested_grows::<ArtistCreditParser>(model.credits, model.item.extraartists, token);
    match model.step(token) {
        Ok(next) => {
            assert(model.item.artists =~= model.item.artists.subrange(
                0,
                model.item.artists.len() as int,
            ));
            assert(model.item.extraartists =~= model.item.extraartists.subrange(
                0,
                model.item.extraartists.len() as int,
            ));
        },
        Err(_) => {},
    }
}

} // verus!
