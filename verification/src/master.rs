//! Masters: the record, its parser and its builder.
use crate::artist_credit::{
    ArtistCredit, ArtistCreditBuilder, ArtistCreditParser, ArtistCreditParserView,
    ArtistCreditView, credit_string, get_credit_string,
};
use crate::parser::{
    bare_element, element, fed, harvest, harvested, lemma_harvested_grows, Parser, ParserError,
};
use crate::reader::{lemma_quiet_element, passes_over};
use crate::shared::{
    Image, ImageView, lemma_pictures_alike, lemma_pictures_grow, lemma_texts_grow, pictures,
    read_pictures, read_texts, texts,
};
use crate::token::{Tag, Token, closes, is_named, is_word, lemma_words_differ, local_name, named};
use crate::util::{
    attr_u32, empty_list, maybe_text, optional_attribute, optional_text_of, push_back, text,
    text_of, text_u16, text_u32, u16_text, u32_attribute, u32_text,
};
use crate::video::{Video, VideoParser, VideoParserView, VideoView};
use vstd::prelude::*;
use vstd::string::*;

verus! {

/// One master of the catalog: what the releases of one work have in
/// common.
#[derive(Clone, Debug, PartialEq, Eq)]
pub struct Master {
    pub id: u32,
    pub title: String,
    /// The id of the release that stands for the master.
    pub main_release: u32,
    pub year: u16,
    pub notes: Option<String>,
    pub genres: Vec<String>,
    pub styles: Vec<String>,
    pub data_quality: String,
    pub artists: Vec<ArtistCredit>,
    pub images: Vec<Image>,
    pub videos: Vec<Video>,
}

/// The value of a [`Master`]. Every list is in document order.
pub struct MasterView {
    pub id: u32,
    pub title: Seq<char>,
    pub main_release: u32,
    pub year: u16,
    pub notes: Option<Seq<char>>,
    pub genres: Seq<Seq<char>>,
    pub styles: Seq<Seq<char>>,
    pub data_quality: Seq<char>,
    pub artists: Seq<ArtistCreditView>,
    pub images: Seq<ImageView>,
    pub videos: Seq<VideoView>,
}

impl View for Master {
    type V = MasterView;

    open spec fn view(&self) -> MasterView {
        MasterView {
            id: self.id,
            title: self.title@,
            main_release: self.main_release,
            year: self.year,
            notes: self.notes.deep_view(),
            genres: self.genres.deep_view(),
            styles: self.styles.deep_view(),
            data_quality: self.data_quality@,
            artists: self.artists.deep_view(),
            images: self.images.deep_view(),
            videos: self.videos.deep_view(),
        }
    }
}

impl DeepView for Master {
    type V = MasterView;

    open spec fn deep_view(&self) -> MasterView {
        self@
    }
}

impl MasterView {
    /// The master with no field set.
    pub open spec fn empty() -> MasterView {
        MasterView {
            id: 0,
            title: Seq::empty(),
            main_release: 0,
            year: 0,
            notes: None,
            genres: Seq::empty(),
            styles: Seq::empty(),
            data_quality: Seq::empty(),
            artists: Seq::empty(),
            images: Seq::empty(),
            videos: Seq::empty(),
        }
    }

    /// The line that stands for the master in a listing: its artists, a
    /// dash, its title.
    pub open spec fn line(self) -> Seq<char> {
        credit_string(self.artists) + " - "@ + self.title
    }
}

impl Default for Master {
    fn default() -> (master: Master)
        ensures
            master@ == MasterView::empty(),
    {
        Master {
            id: 0,
            title: String::new(),
            main_release: 0,
            year: 0,
            notes: None,
            genres: empty_list(),
            styles: empty_list(),
            data_quality: String::new(),
            artists: empty_list(),
            images: empty_list(),
            videos: empty_list(),
        }
    }
}

impl Master {
    /// Starts a master with the given id and title, all else empty.
    pub fn builder(id: u32, title: &str) -> (builder: MasterBuilder)
        ensures
            builder@ == (MasterView { id, title: title@, ..MasterView::empty() }),
    {
        let mut inner = Master::default();
        inner.id = id;
        inner.title = title.to_owned();
        MasterBuilder { inner }
    }

    /// The line that stands for the master in a listing.
    pub fn display(&self) -> (line: String)
        ensures
            line@ == self@.line(),
    {
        let mut line = get_credit_string(&self.artists);
        line.append(" - ");
        line.append(self.title.as_str());
        line
    }
}

/// Where a master parser stands in the record.
#[derive(Clone, Copy, Debug, PartialEq, Eq)]
pub enum ParserState {
    /// Between the fields of the record, or between records.
    Master,
    MainRelease,
    Artists,
    Title,
    DataQuality,
    Notes,
    Images,
    Styles,
    Genres,
    Year,
    Videos,
}

/// The state machine that builds masters. It owns the parsers of its
/// credits and of its videos.
#[derive(Debug)]
pub struct MasterParser {
    state: ParserState,
    current_item: Master,
    artist_parser: ArtistCreditParser,
    videos_parser: VideoParser,
    item_ready: bool,
}

/// The state of a [`MasterParser`].
pub struct MasterParserView {
    pub state: ParserState,
    pub item: MasterView,
    /// The state of the parser of the credits.
    pub credits: ArtistCreditParserView,
    /// The state of the parser of the videos.
    pub videos: VideoParserView,
    pub ready: bool,
}

impl View for MasterParser {
    type V = MasterParserView;

    closed spec fn view(&self) -> MasterParserView {
        MasterParserView {
            state: self.state,
            item: self.current_item@,
            credits: self.artist_parser@,
            videos: self.videos_parser@,
            ready: self.item_ready,
        }
    }
}

impl MasterParserView {
    /// The same parser in another state.
    pub open spec fn at(self, state: ParserState) -> MasterParserView {
        MasterParserView { state, ..self }
    }

    /// The same parser in another state and with another record.
    pub open spec fn with(self, state: ParserState, item: MasterView) -> MasterParserView {
        MasterParserView { state, item, ..self }
    }

    /// The state after a token inside a section: the one it was in while
    /// the section is open, between the fields once it is closed.
    pub open spec fn section(self, open: bool, item: MasterView) -> MasterParserView {
        self.with(
            if open {
                self.state
            } else {
                ParserState::Master
            },
            item,
        )
    }

    /// The state that the start tag of a field or of a section leads to
    /// from between the fields. A tag that the record does not know leads
    /// nowhere.
    pub open spec fn field(tag: &Tag) -> ParserState {
        if tag.is("main_release") {
            ParserState::MainRelease
        } else if tag.is("title") {
            ParserState::Title
        } else if tag.is("artists") {
            ParserState::Artists
        } else if tag.is("data_quality") {
            ParserState::DataQuality
        } else if tag.is("images") {
            ParserState::Images
        } else if tag.is("styles") {
            ParserState::Styles
        } else if tag.is("genres") {
            ParserState::Genres
        } else if tag.is("notes") {
            ParserState::Notes
        } else if tag.is("year") {
            ParserState::Year
        } else if tag.is("videos") {
            ParserState::Videos
        } else {
            ParserState::Master
        }
    }

    /// One token between the fields. The start tag of the master itself
    /// carries the id, which must be there; any other start tag opens its
    /// field; the end tag of the record completes it.
    pub open spec fn between(self, token: &Token) -> Result<MasterParserView, ParserError> {
        match token {
            Token::Start(tag) => if tag.is("master") {
                match u32_attribute(tag, "id") {
                    Ok(id) => Ok(self.with(ParserState::Master, MasterView { id, ..self.item })),
                    Err(error) => Err(error),
                }
            } else {
                Ok(self.at(Self::field(tag)))
            },
            Token::End(name) => if named(name@, "master") {
                Ok(MasterParserView { ready: true, ..self })
            } else {
                Ok(self)
            },
            _ => Ok(self),
        }
    }

    /// One token inside a field that holds one text or one number: the
    /// text is read into the field and the field stays open; any other
    /// token closes it.
    pub open spec fn scalar(self, token: &Token) -> Result<MasterParserView, ParserError> {
        match token {
            Token::Text(raw) => match self.state {
                ParserState::MainRelease => match u32_text(raw@) {
                    Ok(main_release) => Ok(
                        self.with(self.state, MasterView { main_release, ..self.item }),
                    ),
                    Err(error) => Err(error),
                },
                ParserState::Title => match text_of(raw@) {
                    Ok(title) => Ok(self.with(self.state, MasterView { title, ..self.item })),
                    Err(error) => Err(error),
                },
                ParserState::DataQuality => match text_of(raw@) {
                    Ok(data_quality) => Ok(
                        self.with(self.state, MasterView { data_quality, ..self.item }),
                    ),
                    Err(error) => Err(error),
                },
                ParserState::Notes => match optional_text_of(raw@) {
                    Ok(notes) => Ok(self.with(self.state, MasterView { notes, ..self.item })),
                    Err(error) => Err(error),
                },
                ParserState::Year => match u16_text(raw@) {
                    Ok(year) => Ok(self.with(self.state, MasterView { year, ..self.item })),
                    Err(error) => Err(error),
                },
                _ => Ok(self),
            },
            _ => Ok(self.at(ParserState::Master)),
        }
    }

    /// One token inside a nested group: the end tag of the group closes
    /// it; every other token goes to the parser of the group, and a record
    /// that the token completes joins the list of the group.
    pub open spec fn nested(self, token: &Token) -> Result<MasterParserView, ParserError> {
        match self.state {
            ParserState::Artists => if token matches Token::End(name) && named(name@, "artists") {
                Ok(self.at(ParserState::Master))
            } else {
                match harvested::<ArtistCreditParser>(self.credits, self.item.artists, token) {
                    Ok((credits, artists)) => Ok(
                        MasterParserView {
                            credits,
                            item: MasterView { artists, ..self.item },
                            ..self
                        },
                    ),
                    Err(error) => Err(error),
                }
            },
            ParserState::Videos => if token matches Token::End(name) && named(name@, "videos") {
                Ok(self.at(ParserState::Master))
            } else {
                match harvested::<VideoParser>(self.videos, self.item.videos, token) {
                    Ok((parser, videos)) => Ok(
                        MasterParserView {
                            videos: parser,
                            item: MasterView { videos, ..self.item },
                            ..self
                        },
                    ),
                    Err(error) => Err(error),
                }
            },
            _ => Ok(self),
        }
    }

    /// One token inside a list whose entries the master parser reads
    /// itself.
    pub open spec fn listed(self, token: &Token) -> Result<MasterParserView, ParserError> {
        match self.state {
            ParserState::Genres => match texts(self.item.genres, token, "genres") {
                Ok((genres, open)) => Ok(self.section(open, MasterView { genres, ..self.item })),
                Err(error) => Err(error),
            },
            ParserState::Styles => match texts(self.item.styles, token, "styles") {
                Ok((styles, open)) => Ok(self.section(open, MasterView { styles, ..self.item })),
                Err(error) => Err(error),
            },
            ParserState::Images => match pictures(self.item.images, token) {
                Ok((images, open)) => Ok(self.section(open, MasterView { images, ..self.item })),
                Err(error) => Err(error),
            },
            _ => Ok(self),
        }
    }

    /// The transition function of the master parser.
    pub open spec fn step(self, token: &Token) -> Result<MasterParserView, ParserError> {
        match self.state {
            ParserState::Master => self.between(token),
            ParserState::MainRelease | ParserState::Title | ParserState::DataQuality
            | ParserState::Notes | ParserState::Year => self.scalar(token),
            ParserState::Artists | ParserState::Videos => self.nested(token),
            ParserState::Genres | ParserState::Styles | ParserState::Images => self.listed(token),
        }
    }
}

impl MasterParser {
    fn field(tag: &Tag) -> (state: ParserState)
        ensures
            state == MasterParserView::field(tag),
    {
        let name = local_name(tag.name.as_slice());
        if is_word(name, "main_release") {
            ParserState::MainRelease
        } else if is_word(name, "title") {
            ParserState::Title
        } else if is_word(name, "artists") {
            ParserState::Artists
        } else if is_word(name, "data_quality") {
            ParserState::DataQuality
        } else if is_word(name, "images") {
            ParserState::Images
        } else if is_word(name, "styles") {
            ParserState::Styles
        } else if is_word(name, "genres") {
            ParserState::Genres
        } else if is_word(name, "notes") {
            ParserState::Notes
        } else if is_word(name, "year") {
            ParserState::Year
        } else if is_word(name, "videos") {
            ParserState::Videos
        } else {
            ParserState::Master
        }
    }

    fn between(&mut self, token: &Token) -> (result: Result<(), ParserError>)
        ensures
            match old(self)@.between(token) {
                Ok(next) => result is Ok && final(self)@ == next,
                Err(error) => result == Err::<(), ParserError>(error)
                    && final(self)@ == old(self)@,
            },
    {
        match token {
            Token::Start(tag) => {
                if is_named(tag.name.as_slice(), "master") {
                    match attr_u32(tag, "id") {
                        Ok(id) => {
                            self.current_item.id = id;
                            self.state = ParserState::Master;
                        },
                        Err(error) => return Err(error),
                    }
                } else {
                    self.state = Self::field(tag);
                }
            },
            Token::End(name) => {
                if is_named(name.as_slice(), "master") {
                    self.item_ready = true;
                }
            },
            _ => {},
        }
        Ok(())
    }

    fn scalar(&mut self, token: &Token) -> (result: Result<(), ParserError>)
        ensures
            match old(self)@.scalar(token) {
                Ok(next) => result is Ok && final(self)@ == next,
                Err(error) => result == Err::<(), ParserError>(error)
                    && final(self)@ == old(self)@,
            },
    {
        match token {
            Token::Text(raw) => match self.state {
                ParserState::MainRelease => match text_u32(raw.as_slice()) {
                    Ok(main_release) => {
                        self.current_item.main_release = main_release;
                    },
                    Err(error) => return Err(error),
                },
                ParserState::Title => match text(raw.as_slice()) {
                    Ok(title) => {
                        self.current_item.title = title;
                    },
                    Err(error) => return Err(error),
                },
                ParserState::DataQuality => match text(raw.as_slice()) {
                    Ok(data_quality) => {
                        self.current_item.data_quality = data_quality;
                    },
                    Err(error) => return Err(error),
                },
                ParserState::Notes => match maybe_text(raw.as_slice()) {
                    Ok(notes) => {
                        self.current_item.notes = notes;
                    },
                    Err(error) => return Err(error),
                },
                ParserState::Year => match text_u16(raw.as_slice()) {
                    Ok(year) => {
                        self.current_item.year = year;
                    },
                    Err(error) => return Err(error),
                },
                _ => {},
            },
            _ => {
                self.state = ParserState::Master;
            },
        }
        Ok(())
    }

    fn nested(&mut self, token: &Token) -> (result: Result<(), ParserError>)
        ensures
            match old(self)@.nested(token) {
                Ok(next) => result is Ok && final(self)@ == next,
                Err(error) => result == Err::<(), ParserError>(error)
                    && final(self)@ == old(self)@,
            },
    {
        match self.state {
            ParserState::Artists => {
                if closes(token, "artists") {
                    self.state = ParserState::Master;
                    Ok(())
                } else {
                    harvest(&mut self.artist_parser, &mut self.current_item.artists, token)
                }
            },
            ParserState::Videos => {
                if closes(token, "videos") {
                    self.state = ParserState::Master;
                    Ok(())
                } else {
                    harvest(&mut self.videos_parser, &mut self.current_item.videos, token)
                }
            },
            _ => Ok(()),
        }
    }

    fn listed(&mut self, token: &Token) -> (result: Result<(), ParserError>)
        ensures
            match old(self)@.listed(token) {
                Ok(next) => result is Ok && final(self)@ == next,
                Err(error) => result == Err::<(), ParserError>(error)
                    && final(self)@ == old(self)@,
            },
    {
        let read = match self.state {
            ParserState::Genres => read_texts(&mut self.current_item.genres, token, "genres"),
            ParserState::Styles => read_texts(&mut self.current_item.styles, token, "styles"),
            ParserState::Images => read_pictures(&mut self.current_item.images, token),
            _ => return Ok(()),
        };
        match read {
            Ok(open) => {
                if !open {
                    self.state = ParserState::Master;
                }
                Ok(())
            },
            Err(error) => Err(error),
        }
    }
}

impl Parser for MasterParser {
    type Item = Master;

    open spec fn fresh() -> MasterParserView {
        MasterParserView {
            state: ParserState::Master,
            item: MasterView::empty(),
            credits: ArtistCreditParser::fresh(),
            videos: VideoParser::fresh(),
            ready: false,
        }
    }

    open spec fn step(model: MasterParserView, token: &Token) -> Result<
        MasterParserView,
        ParserError,
    > {
        model.step(token)
    }

    open spec fn ready(model: MasterParserView) -> bool {
        model.ready
    }

    open spec fn item(model: MasterParserView) -> MasterView {
        model.item
    }

    open spec fn emptied(model: MasterParserView) -> MasterParserView {
        MasterParserView { item: MasterView::empty(), ready: false, ..model }
    }

    proof fn lemma_emptied_slot(model: MasterParserView) {
    }

    proof fn lemma_step_alike(model: MasterParserView, a: &Token, b: &Token) {
        match model.state {
            ParserState::Master => {
                assert(model.between(a) == model.between(b));
            },
            ParserState::Artists => {
                ArtistCreditParser::lemma_step_alike(model.credits, a, b);
                assert(model.nested(a) == model.nested(b));
            },
            ParserState::Videos => {
                VideoParser::lemma_step_alike(model.videos, a, b);
                assert(model.nested(a) == model.nested(b));
            },
            ParserState::Images => {
                lemma_pictures_alike(model.item.images, a, b);
            },
            ParserState::Genres | ParserState::Styles => {
                assert(model.listed(a) == model.listed(b));
            },
            _ => {
                assert(model.scalar(a) == model.scalar(b));
            },
        }
    }

    proof fn lemma_fresh_not_ready() {
    }

    fn new() -> (parser: Self) {
        MasterParser {
            state: ParserState::Master,
            current_item: Master::default(),
            artist_parser: ArtistCreditParser::new(),
            videos_parser: VideoParser::new(),
            item_ready: false,
        }
    }

    fn item_ready(&self) -> (ready: bool) {
        self.item_ready
    }

    fn take(&mut self) -> (item: Master) {
        self.item_ready = false;
        let mut item = Master::default();
        std::mem::swap(&mut self.current_item, &mut item);
        item
    }

    fn process(&mut self, token: &Token) -> (result: Result<(), ParserError>) {
        match self.state {
            ParserState::Master => self.between(token),
            ParserState::MainRelease | ParserState::Title | ParserState::DataQuality
            | ParserState::Notes | ParserState::Year => self.scalar(token),
            ParserState::Artists | ParserState::Videos => self.nested(token),
            ParserState::Genres | ParserState::Styles | ParserState::Images => self.listed(token),
        }
    }
}

/// Builds a [`Master`] field by field.
pub struct MasterBuilder {
    inner: Master,
}

impl View for MasterBuilder {
    type V = MasterView;

    closed spec fn view(&self) -> MasterView {
        self.inner@
    }
}

impl MasterBuilder {
    pub fn id(self, id: u32) -> (builder: Self)
        ensures
            builder@ == (MasterView { id, ..self@ }),
    {
        let mut builder = self;
        builder.inner.id = id;
        builder
    }

    pub fn title(self, title: &str) -> (builder: Self)
        ensures
            builder@ == (MasterView { title: title@, ..self@ }),
    {
        let mut builder = self;
        builder.inner.title = title.to_owned();
        builder
    }

    pub fn main_release(self, id: u32) -> (builder: Self)
        ensures
            builder@ == (MasterView { main_release: id, ..self@ }),
    {
        let mut builder = self;
        builder.inner.main_release = id;
        builder
    }

    pub fn notes(self, notes: &str) -> (builder: Self)
        ensures
            builder@ == (MasterView { notes: Some(notes@), ..self@ }),
    {
        let mut builder = self;
        builder.inner.notes = Some(notes.to_owned());
        builder
    }

    pub fn year(self, year: u16) -> (builder: Self)
        ensures
            builder@ == (MasterView { year, ..self@ }),
    {
        let mut builder = self;
        builder.inner.year = year;
        builder
    }

    pub fn genre(self, genre: &str) -> (builder: Self)
        ensures
            builder@ == (MasterView { genres: self@.genres.push(genre@), ..self@ }),
    {
        let mut builder = self;
        push_back(&mut builder.inner.genres, genre.to_owned());
        builder
    }

    pub fn style(self, style: &str) -> (builder: Self)
        ensures
            builder@ == (MasterView { styles: self@.styles.push(style@), ..self@ }),
    {
        let mut builder = self;
        push_back(&mut builder.inner.styles, style.to_owned());
        builder
    }

    pub fn data_quality(self, data_quality: &str) -> (builder: Self)
        ensures
            builder@ == (MasterView { data_quality: data_quality@, ..self@ }),
    {
        let mut builder = self;
        builder.inner.data_quality = data_quality.to_owned();
        builder
    }

    pub fn artist(self, credit: ArtistCreditBuilder) -> (builder: Self)
        ensures
            builder@ == (MasterView { artists: self@.artists.push(credit@), ..self@ }),
    {
        let mut builder = self;
        push_back(&mut builder.inner.artists, credit.build());
        builder
    }

    pub fn image(self, ty: &str, width: i16, height: i16) -> (builder: Self)
        ensures
            builder@ == (MasterView {
                images: self@.images.push(
                    ImageView { ty: ty@, uri: None, uri150: None, width, height },
                ),
                ..self@
            }),
    {
        let mut builder = self;
        push_back(&mut builder.inner.images, Image::sized(ty, width, height));
        builder
    }

    pub fn video(self, src: &str, duration: u32, title: &str, description: &str) -> (builder:
        Self)
        ensures
            builder@ == (MasterView {
                videos: self@.videos.push(
                    VideoView {
                        src: src@,
                        duration,
                        title: title@,
                        description: description@,
                        embed: true,
                    },
                ),
                ..self@
            }),
    {
        let mut builder = self;
        push_back(&mut builder.inner.videos, Video::embedded(src, duration, title, description));
        builder
    }

    pub fn build(self) -> (master: Master)
        ensures
            master@ == self@,
    {
        self.inner
    }
}

/// The start tags that a master knows, each with the state that it leads
/// to from between the fields.
pub proof fn lemma_master_fields(tag: &Tag)
    ensures
        tag.is("main_release") ==> MasterParserView::field(tag) == ParserState::MainRelease,
        tag.is("title") ==> MasterParserView::field(tag) == ParserState::Title,
        tag.is("artists") ==> MasterParserView::field(tag) == ParserState::Artists,
        tag.is("data_quality") ==> MasterParserView::field(tag) == ParserState::DataQuality,
        tag.is("images") ==> MasterParserView::field(tag) == ParserState::Images,
        tag.is("styles") ==> MasterParserView::field(tag) == ParserState::Styles,
        tag.is("genres") ==> MasterParserView::field(tag) == ParserState::Genres,
        tag.is("notes") ==> MasterParserView::field(tag) == ParserState::Notes,
        tag.is("year") ==> MasterParserView::field(tag) == ParserState::Year,
        tag.is("videos") ==> MasterParserView::field(tag) == ParserState::Videos,
        tag.is("main_release") || tag.is("title") || tag.is("artists") || tag.is("data_quality")
            || tag.is("images") || tag.is("styles") || tag.is("genres") || tag.is("notes")
            || tag.is("year") || tag.is("videos") ==> !tag.is("master"),
{
    lemma_words_differ();
    reveal_strlit("master");
    reveal_strlit("main_release");
    reveal_strlit("title");
    reveal_strlit("artists");
    reveal_strlit("data_quality");
    reveal_strlit("images");
    reveal_strlit("styles");
    reveal_strlit("genres");
    reveal_strlit("notes");
    reveal_strlit("year");
    reveal_strlit("videos");
}

/// A master does not leak into the next: the token that completes a
/// record leaves the parser, whose parsers of credits and of videos are at
/// rest, as a fresh one, and the record that is handed out is the one that
/// was being built.
pub proof fn lemma_master_rests(model: MasterParserView, token: &Token)
    requires
        !model.ready,
        model.credits == ArtistCreditParser::fresh(),
        model.videos == VideoParser::fresh(),
    ensures
        fed::<MasterParser>(model, token) matches Ok((next, Some(item))) ==> next
            == MasterParser::fresh() && item == model.item,
{
}

/// Between two tokens a master parser has nothing complete, and neither
/// have its parsers of credits and of videos.
pub proof fn lemma_master_unready(model: MasterParserView, token: &Token)
    requires
        !model.ready,
        !model.credits.ready,
        !model.videos.ready,
    ensures
        fed::<MasterParser>(model, token) matches Ok((next, _)) ==> !next.ready
            && !next.credits.ready && !next.videos.ready,
{
    ArtistCreditParser::lemma_emptied_slot(model.credits);
    VideoParser::lemma_emptied_slot(model.videos);
}

/// Notes that are there with nothing in them, or with white space only,
/// leave a master as it is, as if the element were absent.
pub proof fn lemma_master_blank_is_absent(
    model: MasterParserView,
    open: Tag,
    text: Vec<u8>,
    close: Vec<u8>,
)
    requires
        !model.ready,
        model.state == ParserState::Master,
        open.is("notes"),
        model.item.notes is None,
        optional_text_of(text@) == Ok::<Option<Seq<char>>, ParserError>(None),
    ensures
        passes_over::<MasterParser>(model, bare_element(open, close)),
        passes_over::<MasterParser>(model, element(open, text, close)),
        passes_over::<MasterParser>(model, seq![Token::Empty(open)]),
{
    lemma_master_fields(&open);
    lemma_quiet_element::<MasterParser>(model, open, text, close);
}

/// A master cannot do without its id: a `master` tag whose `id` attribute
/// is absent or empty is an error.
pub proof fn lemma_master_needs_id(model: MasterParserView, tag: Tag)
    requires
        model.state == ParserState::Master,
        tag.is("master"),
        optional_attribute(&tag, "id") == Ok::<Option<Seq<char>>, ParserError>(None),
    ensures
        model.step(&Token::Start(tag)) == Err::<MasterParserView, ParserError>(
            ParserError::MissingAttr("id"),
        ),
{
}

/// An element that a master does not know is passed over with its text,
/// so a dump that has gained an element gives the same master as before.
pub proof fn lemma_master_skips_unknown(
    model: MasterParserView,
    open: Tag,
    text: Vec<u8>,
    close: Vec<u8>,
)
    requires
        !model.ready,
        model.state == ParserState::Master,
        !open.is("master"),
        MasterParserView::field(&open) == ParserState::Master,
        !named(close@, "master"),
    ensures
        passes_over::<MasterParser>(model, element(open, text, close)),
        passes_over::<MasterParser>(model, bare_element(open, close)),
        passes_over::<MasterParser>(model, seq![Token::Empty(open)]),
{
    lemma_quiet_element::<MasterParser>(model, open, text, close);
}

/// The lists of a master keep document order: a token never takes an
/// entry away, never changes one and never puts one before another.
pub proof fn lemma_master_lists_grow(model: MasterParserView, token: &Token)
    ensures
        model.step(token) matches Ok(next) ==> {
            &&& model.item.genres.is_prefix_of(next.item.genres)
            &&& model.item.styles.is_prefix_of(next.item.styles)
            &&& model.item.artists.is_prefix_of(next.item.artists)
            &&& model.item.images.is_prefix_of(next.item.images)
            &&& model.item.videos.is_prefix_of(next.item.videos)
        },
{
    lemma_texts_grow(model.item.genres, token, "genres");
    lemma_texts_grow(model.item.styles, token, "styles");
    lemma_pictures_grow(model.item.images, token);
    lemma_harvested_grows::<ArtistCreditParser>(model.credits, model.item.artists, token);
    lemma_harvested_grows::<VideoParser>(model.videos, model.item.videos, token);
    match model.step(token) {
        Ok(next) => {
            assert(model.item.genres =~= model.item.genres.subrange(
                0,
                model.item.genres.len() as int,
            ));
            assert(model.item.styles =~= model.item.styles.subrange(
                0,
                model.item.styles.len() as int,
            ));
            assert(model.item.artists =~= model.item.artists.subrange(
                0,
                model.item.artists.len() as int,
            ));
            assert(model.item.images =~= model.item.images.subrange(
                0,
                model.item.images.len() as int,
            ));
            assert(model.item.videos =~= model.item.videos.subrange(
                0,
                model.item.videos.len() as int,
            ));
            match model.state {
                ParserState::Master => {
                    assert(model.between(token) == Ok::<MasterParserView, ParserError>(next));
                },
                ParserState::Artists | ParserState::Videos => {
                    assert(model.nested(token) == Ok::<MasterParserView, ParserError>(next));
                },
                ParserState::Genres | ParserState::Styles | ParserState::Images => {
                    assert(model.listed(token) == Ok::<MasterParserView, ParserError>(next));
                },
                _ => {
                    assert(model.scalar(token) == Ok::<MasterParserView, ParserError>(next));
                },
            }
        },
        Err(_) => {},
    }
}

} // verus!
