//! Releases: the record, its parser and its builder.
use crate::artist_credit::{
    ArtistCredit, ArtistCreditBuilder, ArtistCreditParser, ArtistCreditParserView,
    ArtistCreditView, credit_string, get_credit_string,
};
use crate::company::{CompanyParser, CompanyParserView, ReleaseCompany, ReleaseCompanyView};
use crate::parser::{
    bare_element, element, fed, harvest, harvested, lemma_harvested_grows, lemma_run_element,
    Parser, ParserError, run, yields,
};
use crate::reader::{lemma_quiet_element, passes_over};
use crate::shared::{
    Image, ImageView, lemma_pictures_alike, lemma_pictures_grow, lemma_texts_grow, pictures,
    read_pictures, read_texts, ReleaseLabel, ReleaseLabelView, texts,
};
use crate::token::{Tag, Token, closes, is_named, is_word, lemma_words_differ, local_name, named};
use crate::track::{Track, TrackParser, TrackParserView, TrackView};
use crate::util::{
    attr_bool, attr_u32, attr_u32_optional, bool_attribute, empty_list, find_attr,
    find_attr_optional, maybe_text, optional_attribute, optional_text_of, optional_u32_attribute,
    push_back, required_attribute, text, text_of, text_u32, u32_attribute, u32_text,
};
use crate::video::{Video, VideoParser, VideoParserView, VideoView};
use vstd::prelude::*;
use vstd::string::*;

verus! {

/// The medium of a release and how many of it.
#[derive(Clone, Debug, PartialEq, Eq)]
pub struct ReleaseFormat {
    /// How many; not always a number.
    pub qty: String,
    pub name: String,
    pub text: Option<String>,
    pub descriptions: Vec<String>,
}

/// The value of a [`ReleaseFormat`].
pub struct ReleaseFormatView {
    pub qty: Seq<char>,
    pub name: Seq<char>,
    pub text: Option<Seq<char>>,
    pub descriptions: Seq<Seq<char>>,
}

impl View for ReleaseFormat {
    type V = ReleaseFormatView;

    open spec fn view(&self) -> ReleaseFormatView {
        ReleaseFormatView {
            qty: self.qty@,
            name: self.name@,
            text: self.text.deep_view(),
            descriptions: self.descriptions.deep_view(),
        }
    }
}

impl DeepView for ReleaseFormat {
    type V = ReleaseFormatView;

    open spec fn deep_view(&self) -> ReleaseFormatView {
        self@
    }
}

impl ReleaseFormatView {
    /// The format that the attributes of `tag` describe, without
    /// descriptions yet. The name and the quantity must be there. The first
    /// attribute that cannot be read, in the order name, quantity, text,
    /// gives the error.
    pub open spec fn of_tag(tag: &Tag) -> Result<ReleaseFormatView, ParserError> {
        let name = required_attribute(tag, "name");
        let qty = required_attribute(tag, "qty");
        let text = optional_attribute(tag, "text");
        if name is Err {
            Err(name->Err_0)
        } else if qty is Err {
            Err(qty->Err_0)
        } else if text is Err {
            Err(text->Err_0)
        } else {
            Ok(
                ReleaseFormatView {
                    qty: qty->Ok_0,
                    name: name->Ok_0,
                    text: text->Ok_0,
                    descriptions: Seq::empty(),
                },
            )
        }
    }

    /// This format with one more description.
    pub open spec fn described(self, description: Seq<char>) -> ReleaseFormatView {
        ReleaseFormatView { descriptions: self.descriptions.push(description), ..self }
    }
}

impl Default for ReleaseFormat {
    fn default() -> (format: ReleaseFormat)
        ensures
            format@ == (ReleaseFormatView {
                qty: Seq::empty(),
                name: Seq::empty(),
                text: None,
                descriptions: Seq::empty(),
            }),
    {
        ReleaseFormat {
            qty: String::new(),
            name: String::new(),
            text: None,
            descriptions: empty_list(),
        }
    }
}

impl ReleaseFormat {
    /// Reads a format from the attributes of its tag.
    pub fn from_event(tag: &Tag) -> (result: Result<ReleaseFormat, ParserError>)
        ensures
            yields(result, ReleaseFormatView::of_tag(tag)),
    {
        let name = match find_attr(tag, "name") {
            Ok(name) => name,
            Err(error) => return Err(error),
        };
        let qty = match find_attr(tag, "qty") {
            Ok(qty) => qty,
            Err(error) => return Err(error),
        };
        let text = match find_attr_optional(tag, "text") {
            Ok(text) => text,
            Err(error) => return Err(error),
        };
        Ok(ReleaseFormat { qty, name, text, descriptions: empty_list() })
    }
}

/// A code or a mark that identifies a release: a barcode, a matrix number.
#[derive(Clone, Debug, PartialEq, Eq)]
pub struct ReleaseIdentifier {
    pub ty: String,
    pub description: Option<String>,
    pub value: Option<String>,
}

/// The value of a [`ReleaseIdentifier`].
pub struct ReleaseIdentifierView {
    pub ty: Seq<char>,
    pub description: Option<Seq<char>>,
    pub value: Option<Seq<char>>,
}

impl View for ReleaseIdentifier {
    type V = ReleaseIdentifierView;

    open spec fn view(&self) -> ReleaseIdentifierView {
        ReleaseIdentifierView {
            ty: self.ty@,
            description: self.description.deep_view(),
            value: self.value.deep_view(),
        }
    }
}

impl DeepView for ReleaseIdentifier {
    type V = ReleaseIdentifierView;

    open spec fn deep_view(&self) -> ReleaseIdentifierView {
        self@
    }
}

impl ReleaseIdentifierView {
    /// The identifier that the attributes of `tag` describe. The kind must
    /// be there. The first attribute that cannot be read, in the order
    /// kind, description, value, gives the error.
    pub open spec fn of_tag(tag: &Tag) -> Result<ReleaseIdentifierView, ParserError> {
        let ty = required_attribute(tag, "type");
        let description = optional_attribute(tag, "description");
        let value = optional_attribute(tag, "value");
        if ty is Err {
            Err(ty->Err_0)
        } else if description is Err {
            Err(description->Err_0)
        } else if value is Err {
            Err(value->Err_0)
        } else {
            Ok(
                ReleaseIdentifierView {
                    ty: ty->Ok_0,
                    description: description->Ok_0,
                    value: value->Ok_0,
                },
            )
        }
    }
}

impl Default for ReleaseIdentifier {
    fn default() -> (identifier: ReleaseIdentifier)
        ensures
            identifier@ == (ReleaseIdentifierView {
                ty: Seq::empty(),
                description: None,
                value: None,
            }),
    {
        ReleaseIdentifier { ty: String::new(), description: None, value: None }
    }
}

impl ReleaseIdentifier {
    /// Reads an identifier from the attributes of its tag.
    pub fn from_event(tag: &Tag) -> (result: Result<ReleaseIdentifier, ParserError>)
        ensures
            yields(result, ReleaseIdentifierView::of_tag(tag)),
    {
        let ty = match find_attr(tag, "type") {
            Ok(ty) => ty,
            Err(error) => return Err(error),
        };
        let description = match find_attr_optional(tag, "description") {
            Ok(description) => description,
            Err(error) => return Err(error),
        };
        let value = match find_attr_optional(tag, "value") {
            Ok(value) => value,
            Err(error) => return Err(error),
        };
        Ok(ReleaseIdentifier { ty, description, value })
    }
}

/// The label or the series that the attributes of `tag` describe. The name
/// must be there; the id and the catalogue number may be absent or empty.
/// The first attribute that cannot be read, in the order id, name,
/// catalogue number, gives the error.
pub open spec fn label_of_tag(tag: &Tag) -> Result<ReleaseLabelView, ParserError> {
    let id = optional_u32_attribute(tag, "id");
    let name = required_attribute(tag, "name");
    let catno = optional_attribute(tag, "catno");
    if id is Err {
        Err(id->Err_0)
    } else if name is Err {
        Err(name->Err_0)
    } else if catno is Err {
        Err(catno->Err_0)
    } else {
        Ok(
            ReleaseLabelView {
                id: id->Ok_0,
                name: name->Ok_0,
                catno: catno->Ok_0,
                ..ReleaseLabelView::empty()
            },
        )
    }
}

/// Reads a label or a series from the attributes of its tag.
pub fn label_from_event(tag: &Tag) -> (result: Result<ReleaseLabel, ParserError>)
    ensures
        yields(result, label_of_tag(tag)),
{
    let id = match attr_u32_optional(tag, "id") {
        Ok(id) => id,
        Err(error) => return Err(error),
    };
    let name = match find_attr(tag, "name") {
        Ok(name) => name,
        Err(error) => return Err(error),
    };
    let catno = match find_attr_optional(tag, "catno") {
        Ok(catno) => catno,
        Err(error) => return Err(error),
    };
    Ok(ReleaseLabel { id, name, catno, entity_type: 0, entity_type_name: String::new() })
}

/// One release of the catalog.
#[derive(Clone, Debug, PartialEq, Eq)]
pub struct Release {
    pub id: u32,
    pub status: String,
    pub title: String,
    pub artists: Vec<ArtistCredit>,
    pub country: String,
    pub labels: Vec<ReleaseLabel>,
    pub series: Vec<ReleaseLabel>,
    /// The date of the release, as the dump writes it.
    pub released: String,
    pub notes: Option<String>,
    pub genres: Vec<String>,
    pub styles: Vec<String>,
    pub master_id: Option<u32>,
    pub is_main_release: bool,
    pub data_quality: String,
    pub images: Vec<Image>,
    pub videos: Vec<Video>,
    pub extraartists: Vec<ArtistCredit>,
    pub tracklist: Vec<Track>,
    pub formats: Vec<ReleaseFormat>,
    pub companies: Vec<ReleaseCompany>,
    pub identifiers: Vec<ReleaseIdentifier>,
}

/// The value of a [`Release`]. Every list is in document order.
pub struct ReleaseView {
    pub id: u32,
    pub status: Seq<char>,
    pub title: Seq<char>,
    pub artists: Seq<ArtistCreditView>,
    pub country: Seq<char>,
    pub labels: Seq<ReleaseLabelView>,
    pub series: Seq<ReleaseLabelView>,
    pub released: Seq<char>,
    pub notes: Option<Seq<char>>,
    pub genres: Seq<Seq<char>>,
    pub styles: Seq<Seq<char>>,
    pub master_id: Option<u32>,
    pub is_main_release: bool,
    pub data_quality: Seq<char>,
    pub images: Seq<ImageView>,
    pub videos: Seq<VideoView>,
    pub extraartists: Seq<ArtistCreditView>,
    pub tracklist: Seq<TrackView>,
    pub formats: Seq<ReleaseFormatView>,
    pub companies: Seq<ReleaseCompanyView>,
    pub identifiers: Seq<ReleaseIdentifierView>,
}

impl View for Release {
    type V = ReleaseView;

    open spec fn view(&self) -> ReleaseView {
        ReleaseView {
            id: self.id,
            status: self.status@,
            title: self.title@,
            artists: self.artists.deep_view(),
            country: self.country@,
            labels: self.labels.deep_view(),
            series: self.series.deep_view(),
            released: self.released@,
            notes: self.notes.deep_view(),
            genres: self.genres.deep_view(),
            styles: self.styles.deep_view(),
            master_id: self.master_id,
            is_main_release: self.is_main_release,
            data_quality: self.data_quality@,
            images: self.images.deep_view(),
            videos: self.videos.deep_view(),
            extraartists: self.extraartists.deep_view(),
            tracklist: self.tracklist.deep_view(),
            formats: self.formats.deep_view(),
            companies: self.companies.deep_view(),
            identifiers: self.identifiers.deep_view(),
        }
    }
}

impl DeepView for Release {
    type V = ReleaseView;

    open spec fn deep_view(&self) -> ReleaseView {
        self@
    }
}

impl ReleaseView {
    /// The release with no field set.
    pub open spec fn empty() -> ReleaseView {
        ReleaseView {
            id: 0,
            status: Seq::empty(),
            title: Seq::empty(),
            artists: Seq::empty(),
            country: Seq::empty(),
            labels: Seq::empty(),
            series: Seq::empty(),
            released: Seq::empty(),
            notes: None,
            genres: Seq::empty(),
            styles: Seq::empty(),
            master_id: None,
            is_main_release: false,
            data_quality: Seq::empty(),
            images: Seq::empty(),
            videos: Seq::empty(),
            extraartists: Seq::empty(),
            tracklist: Seq::empty(),
            formats: Seq::empty(),
            companies: Seq::empty(),
            identifiers: Seq::empty(),
        }
    }

    /// The line that stands for the release in a listing: its artists, a
    /// dash, its title.
    pub open spec fn line(self) -> Seq<char> {
        credit_string(self.artists) + " - "@ + self.title
    }
}

impl Default for Release {
    fn default() -> (release: Release)
        ensures
            release@ == ReleaseView::empty(),
    {
        Release {
            id: 0,
            status: String::new(),
            title: String::new(),
            artists: empty_list(),
            country: String::new(),
            labels: empty_list(),
            series: empty_list(),
            released: String::new(),
            notes: None,
            genres: empty_list(),
            styles: empty_list(),
            master_id: None,
            is_main_release: false,
            data_quality: String::new(),
            images: empty_list(),
            videos: empty_list(),
            extraartists: empty_list(),
            tracklist: empty_list(),
            formats: empty_list(),
            companies: empty_list(),
            identifiers: empty_list(),
        }
    }
}

impl Release {
    /// Starts a release with the given id and title, all else empty.
    pub fn builder(id: u32, title: &str) -> (builder: ReleaseBuilder)
        ensures
            builder@ == (ReleaseView { id, title: title@, ..ReleaseView::empty() }),
    {
        let mut inner = Release::default();
        inner.id = id;
        inner.title = title.to_owned();
        ReleaseBuilder { inner }
    }

    /// The line that stands for the release in a listing.
    pub fn display(&self) -> (line: String)
        ensures
            line@ == self@.line(),
    {
        let mut line = get_credit_string(&self.artists);
        line.append(" - ");
        line.append(self.title.as_str());
        line
    }
}

/// Where a release parser stands in the record.
#[derive(Clone, Copy, Debug, PartialEq, Eq)]
pub enum ParserState {
    /// Between the fields of the record, or between records.
    Release,
    Title,
    Country,
    Released,
    Notes,
    Genres,
    Styles,
    MasterId,
    DataQuality,
    Labels,
    Series,
    Videos,
    Artists,
    ExtraArtists,
    TrackList,
    Format,
    Companies,
    Identifiers,
    Images,
}

/// The state machine that builds releases. It owns one parser for each
/// kind of nested group: credits, videos, tracks, companies.
#[derive(Debug)]
pub struct ReleaseParser {
    state: ParserState,
    current_item: Release,
    artist_parser: ArtistCreditParser,
    video_parser: VideoParser,
    track_parser: TrackParser,
    company_parser: CompanyParser,
    item_ready: bool,
}

/// The state of a [`ReleaseParser`].
pub struct ReleaseParserView {
    pub state: ParserState,
    pub item: ReleaseView,
    /// The state of the parser of the credits.
    pub credits: ArtistCreditParserView,
    /// The state of the parser of the videos.
    pub videos: VideoParserView,
    /// The state of the parser of the tracks.
    pub tracks: TrackParserView,
    /// The state of the parser of the companies.
    pub companies: CompanyParserView,
    pub ready: bool,
}

impl View for ReleaseParser {
    type V = ReleaseParserView;

    closed spec fn view(&self) -> ReleaseParserView {
        ReleaseParserView {
            state: self.state,
            item: self.current_item@,
            credits: self.artist_parser@,
            videos: self.video_parser@,
            tracks: self.track_parser@,
            companies: self.company_parser@,
            ready: self.item_ready,
        }
    }
}

/// The formats with one more description for the last of them.
pub open spec fn described_last(list: Seq<ReleaseFormatView>, description: Seq<char>) -> Seq<
    ReleaseFormatView,
>
    recommends
        list.len() > 0,
{
    list.drop_last().push(list.last().described(description))
}

/// One token inside the list of formats: a `format` tag opens a format, a
/// text is one more description of the last format, the end tag of the list
/// closes it. The result is the new list and whether the list is still
/// open.
pub open spec fn formats(list: Seq<ReleaseFormatView>, token: &Token) -> Result<
    (Seq<ReleaseFormatView>, bool),
    ParserError,
> {
    match token {
        Token::Start(tag) => if tag.is("format") {
            match ReleaseFormatView::of_tag(tag) {
                Ok(format) => Ok((list.push(format), true)),
                Err(error) => Err(error),
            }
        } else {
            Ok((list, true))
        },
        Token::Text(raw) => match text_of(raw@) {
            Ok(description) => if list.len() == 0 {
                Err(ParserError::MissingData("Release format"))
            } else {
                Ok((described_last(list, description), true))
            },
            Err(error) => Err(error),
        },
        Token::End(name) => Ok((list, !named(name@, "formats"))),
        _ => Ok((list, true)),
    }
}

/// One token inside the list of labels or of series (`section`): an
/// empty tag with the name of an entry (`entry`) is one more entry, the end
/// tag of the section closes it, anything else is passed over. The result
/// is the new list and whether the section is still open.
pub open spec fn labels(
    list: Seq<ReleaseLabelView>,
    token: &Token,
    section: &str,
    entry: &str,
) -> Result<(Seq<ReleaseLabelView>, bool), ParserError> {
    match token {
        Token::Empty(tag) => if tag.is(entry) {
            match label_of_tag(tag) {
                Ok(label) => Ok((list.push(label), true)),
                Err(error) => Err(error),
            }
        } else {
            Ok((list, true))
        },
        Token::End(name) => Ok((list, !named(name@, section))),
        _ => Ok((list, true)),
    }
}

/// One token inside the list of identifiers: an empty `identifier` tag is
/// one more identifier, the end tag of the list closes it, anything else is
/// passed over.
pub open spec fn identifiers(list: Seq<ReleaseIdentifierView>, token: &Token) -> Result<
    (Seq<ReleaseIdentifierView>, bool),
    ParserError,
> {
    match token {
        Token::Empty(tag) => if tag.is("identifier") {
            match ReleaseIdentifierView::of_tag(tag) {
                Ok(identifier) => Ok((list.push(identifier), true)),
                Err(error) => Err(error),
            }
        } else {
            Ok((list, true))
        },
        Token::End(name) => Ok((list, !named(name@, "identifiers"))),
        _ => Ok((list, true)),
    }
}

/// Reads one token inside the list of formats. Returns whether the list is
/// still open.
pub fn read_formats(list: &mut Vec<ReleaseFormat>, token: &Token) -> (result: Result<
    bool,
    ParserError,
>)
    ensures
        match formats(old(list).deep_view(), token) {
            Ok((entries, open)) => result == Ok::<bool, ParserError>(open)
                && final(list).deep_view() == entries,
            Err(error) => result == Err::<bool, ParserError>(error)
                && final(list).deep_view() == old(list).deep_view(),
        },
{
    match token {
        Token::Start(tag) => {
            if is_named(tag.name.as_slice(), "format") {
                match ReleaseFormat::from_event(tag) {
                    Ok(format) => {
                        push_back(list, format);
                        Ok(true)
                    },
                    Err(error) => Err(error),
                }
            } else {
                Ok(true)
            }
        },
        Token::Text(raw) => match text(raw.as_slice()) {
            Ok(description) => {
                let ghost before = list.deep_view();
                match list.pop() {
                    Some(last) => {
                        assert(list.deep_view() =~= before.drop_last());
                        let mut format = last;
                        push_back(&mut format.descriptions, description);
                        push_back(list, format);
                        Ok(true)
                    },
                    None => Err(ParserError::MissingData("Release format")),
                }
            },
            Err(error) => Err(error),
        },
        Token::End(name) => Ok(!is_named(name.as_slice(), "formats")),
        _ => Ok(true),
    }
}

/// Reads one token inside the list of labels or of series. Returns whether
/// the section is still open.
pub fn read_labels(
    list: &mut Vec<ReleaseLabel>,
    token: &Token,
    section: &str,
    entry: &str,
) -> (result: Result<bool, ParserError>)
    ensures
        match labels(old(list).deep_view(), token, section, entry) {
            Ok((entries, open)) => result == Ok::<bool, ParserError>(open)
                && final(list).deep_view() == entries,
            Err(error) => result == Err::<bool, ParserError>(error)
                && final(list).deep_view() == old(list).deep_view(),
        },
{
    match token {
        Token::Empty(tag) => {
            if is_named(tag.name.as_slice(), entry) {
                match label_from_event(tag) {
                    Ok(label) => {
                        push_back(list, label);
                        Ok(true)
                    },
                    Err(error) => Err(error),
                }
            } else {
                Ok(true)
            }
        },
        Token::End(name) => Ok(!is_named(name.as_slice(), section)),
        _ => Ok(true),
    }
}

/// Reads one token inside the list of identifiers. Returns whether the
/// list is still open.
pub fn read_identifiers(list: &mut Vec<ReleaseIdentifier>, token: &Token) -> (result: Result<
    bool,
    ParserError,
>)
    ensures
        match identifiers(old(list).deep_view(), token) {
            Ok((entries, open)) => result == Ok::<bool, ParserError>(open)
                && final(list).deep_view() == entries,
            Err(error) => result == Err::<bool, ParserError>(error)
                && final(list).deep_view() == old(list).deep_view(),
        },
{
    match token {
        Token::Empty(tag) => {
            if is_named(tag.name.as_slice(), "identifier") {
                match ReleaseIdentifier::from_event(tag) {
                    Ok(identifier) => {
                        push_back(list, identifier);
                        Ok(true)
                    },
                    Err(error) => Err(error),
                }
            } else {
                Ok(true)
            }
        },
        Token::End(name) => Ok(!is_named(name.as_slice(), "identifiers")),
        _ => Ok(true),
    }
}

impl ReleaseParserView {
    /// The same parser in another state.
    pub open spec fn at(self, state: ParserState) -> ReleaseParserView {
        ReleaseParserView { state, ..self }
    }

    /// The name of the section that the parser is in, where its entries
    /// are empty tags.
    pub open spec fn section_name(self) -> &'static str {
        match self.state {
            ParserState::Series => "series",
            ParserState::Identifiers => "identifiers",
            _ => "labels",
        }
    }

    /// The name of an entry of that section.
    pub open spec fn entry_name(self) -> &'static str {
        match self.state {
            ParserState::Series => "series",
            ParserState::Identifiers => "identifier",
            _ => "label",
        }
    }

    /// The same parser in another state and with another record.
    pub open spec fn with(self, state: ParserState, item: ReleaseView) -> ReleaseParserView {
        ReleaseParserView { state, item, ..self }
    }

    /// The state after a token inside a section: the one it was in while
    /// the section is open, between the fields once it is closed.
    pub open spec fn section(self, open: bool, item: ReleaseView) -> ReleaseParserView {
        self.with(
            if open {
                self.state
            } else {
                ParserState::Release
            },
            item,
        )
    }

    /// The state that the start tag of a field or of a section leads to
    /// from between the fields. A tag that the record does not know leads
    /// nowhere.
    pub open spec fn field(tag: &Tag) -> ParserState {
        if tag.is("title") {
            ParserState::Title
        } else if tag.is("country") {
            ParserState::Country
        } else if tag.is("released") {
            ParserState::Released
        } else if tag.is("notes") {
            ParserState::Notes
        } else if tag.is("genres") {
            ParserState::Genres
        } else if tag.is("styles") {
            ParserState::Styles
        } else if tag.is("data_quality") {
            ParserState::DataQuality
        } else if tag.is("labels") {
            ParserState::Labels
        } else if tag.is("series") {
            ParserState::Series
        } else if tag.is("videos") {
            ParserState::Videos
        } else if tag.is("artists") {
            ParserState::Artists
        } else if tag.is("extraartists") {
            ParserState::ExtraArtists
        } else if tag.is("tracklist") {
            ParserState::TrackList
        } else if tag.is("formats") {
            ParserState::Format
        } else if tag.is("identifiers") {
            ParserState::Identifiers
        } else if tag.is("companies") {
            ParserState::Companies
        } else if tag.is("images") {
            ParserState::Images
        } else {
            ParserState::Release
        }
    }

    /// One start tag between the fields. The tag of the release itself
    /// carries the id and the status, which must both be there. The tag of
    /// the master id carries the flag of the main release, which must be
    /// there, and opens the field of the master id. Any other tag opens its
    /// field.
    pub open spec fn opened(self, tag: &Tag) -> Result<ReleaseParserView, ParserError> {
        if tag.is("release") {
            let id = u32_attribute(tag, "id");
            let status = required_attribute(tag, "status");
            if id is Err {
                Err(id->Err_0)
            } else if status is Err {
                Err(status->Err_0)
            } else {
                Ok(
                    self.with(
                        ParserState::Release,
                        ReleaseView { id: id->Ok_0, status: status->Ok_0, ..self.item },
                    ),
                )
            }
        } else if tag.is("master_id") {
            match bool_attribute(tag, "is_main_release") {
                Ok(is_main_release) => Ok(
                    self.with(ParserState::MasterId, ReleaseView { is_main_release, ..self.item }),
                ),
                Err(error) => Err(error),
            }
        } else {
            Ok(self.at(Self::field(tag)))
        }
    }

    /// One token between the fields: the end tag of the record completes
    /// it, a start tag is read as `opened` says, anything else is passed
    /// over.
    pub open spec fn between(self, token: &Token) -> Result<ReleaseParserView, ParserError> {
        match token {
            Token::End(name) => if named(name@, "release") {
                Ok(ReleaseParserView { ready: true, ..self })
            } else {
                Ok(self)
            },
            Token::Start(tag) => self.opened(tag),
            _ => Ok(self),
        }
    }

    /// One token inside a field that holds one text: the text is read into
    /// the field and the field stays open; any other token closes it.
    pub open spec fn scalar(self, token: &Token) -> Result<ReleaseParserView, ParserError> {
        match token {
            Token::Text(raw) => match self.state {
                ParserState::Title => match text_of(raw@) {
                    Ok(title) => Ok(self.with(self.state, ReleaseView { title, ..self.item })),
                    Err(error) => Err(error),
                },
                ParserState::Country => match text_of(raw@) {
                    Ok(country) => Ok(self.with(self.state, ReleaseView { country, ..self.item })),
                    Err(error) => Err(error),
                },
                ParserState::Released => match text_of(raw@) {
                    Ok(released) => Ok(
                        self.with(self.state, ReleaseView { released, ..self.item }),
                    ),
                    Err(error) => Err(error),
                },
                ParserState::Notes => match optional_text_of(raw@) {
                    Ok(notes) => Ok(self.with(self.state, ReleaseView { notes, ..self.item })),
                    Err(error) => Err(error),
                },
                ParserState::DataQuality => match text_of(raw@) {
                    Ok(data_quality) => Ok(
                        self.with(self.state, ReleaseView { data_quality, ..self.item }),
                    ),
                    Err(error) => Err(error),
                },
                _ => Ok(self),
            },
            _ => Ok(self.at(ParserState::Release)),
        }
    }

    /// One token inside the field of the master id: a text is the id, an
    /// end tag closes the field, anything else is passed over.
    pub open spec fn master_id(self, token: &Token) -> Result<ReleaseParserView, ParserError> {
        match token {
            Token::Text(raw) => match u32_text(raw@) {
                Ok(id) => Ok(
                    self.with(self.state, ReleaseView { master_id: Some(id), ..self.item }),
                ),
                Err(error) => Err(error),
            },
            Token::End(_) => Ok(self.at(ParserState::Release)),
            _ => Ok(self),
        }
    }

    /// One token inside a nested group (`section`): the end tag of the
    /// group closes it; every other token goes to the parser of the group,
    /// and a record that the token completes joins the list of the group.
    pub open spec fn nested(self, token: &Token) -> Result<ReleaseParserView, ParserError> {
        match self.state {
            ParserState::Artists => if token matches Token::End(name) && named(name@, "artists") {
                Ok(self.at(ParserState::Release))
            } else {
                match harvested::<ArtistCreditParser>(self.credits, self.item.artists, token) {
                    Ok((credits, artists)) => Ok(
                        ReleaseParserView {
                            credits,
                            item: ReleaseView { artists, ..self.item },
                            ..self
                        },
                    ),
                    Err(error) => Err(error),
                }
            },
            ParserState::ExtraArtists => if token matches Token::End(name) && named(
                name@,
                "extraartists",
            ) {
                Ok(self.at(ParserState::Release))
            } else {
                match harvested::<ArtistCreditParser>(
                    self.credits,
                    self.item.extraartists,
                    token,
                ) {
                    Ok((credits, extraartists)) => Ok(
                        ReleaseParserView {
                            credits,
                            item: ReleaseView { extraartists, ..self.item },
                            ..self
                        },
                    ),
                    Err(error) => Err(error),
                }
            },
            ParserState::Videos => if token matches Token::End(name) && named(name@, "videos") {
                Ok(self.at(ParserState::Release))
            } else {
                match harvested::<VideoParser>(self.videos, self.item.videos, token) {
                    Ok((parser, videos)) => Ok(
                        ReleaseParserView {
                            videos: parser,
                            item: ReleaseView { videos, ..self.item },
                            ..self
                        },
                    ),
                    Err(error) => Err(error),
                }
            },
            ParserState::TrackList => if token matches Token::End(name) && named(
                name@,
                "tracklist",
            ) {
                Ok(self.at(ParserState::Release))
            } else {
                match harvested::<TrackParser>(self.tracks, self.item.tracklist, token) {
                    Ok((tracks, tracklist)) => Ok(
                        ReleaseParserView {
                            tracks,
                            item: ReleaseView { tracklist, ..self.item },
                            ..self
                        },
                    ),
                    Err(error) => Err(error),
                }
            },
            ParserState::Companies => if token matches Token::End(name) && named(
                name@,
                "companies",
            ) {
                Ok(self.at(ParserState::Release))
            } else {
                match harvested::<CompanyParser>(self.companies, self.item.companies, token) {
                    Ok((parser, companies)) => Ok(
                        ReleaseParserView {
                            companies: parser,
                            item: ReleaseView { companies, ..self.item },
                            ..self
                        },
                    ),
                    Err(error) => Err(error),
                }
            },
            _ => Ok(self),
        }
    }

    /// One token inside a list whose entries the release parser reads
    /// itself.
    pub open spec fn listed(self, token: &Token) -> Result<ReleaseParserView, ParserError> {
        match self.state {
            ParserState::Genres => match texts(self.item.genres, token, "genres") {
                Ok((genres, open)) => Ok(self.section(open, ReleaseView { genres, ..self.item })),
                Err(error) => Err(error),
            },
            ParserState::Styles => match texts(self.item.styles, token, "styles") {
                Ok((styles, open)) => Ok(self.section(open, ReleaseView { styles, ..self.item })),
                Err(error) => Err(error),
            },
            ParserState::Format => match formats(self.item.formats, token) {
                Ok((formats, open)) => Ok(
                    self.section(open, ReleaseView { formats, ..self.item }),
                ),
                Err(error) => Err(error),
            },
            ParserState::Identifiers => match identifiers(self.item.identifiers, token) {
                Ok((identifiers, open)) => Ok(
                    self.section(open, ReleaseView { identifiers, ..self.item }),
                ),
                Err(error) => Err(error),
            },
            ParserState::Labels => match labels(self.item.labels, token, "labels", "label") {
                Ok((labels, open)) => Ok(self.section(open, ReleaseView { labels, ..self.item })),
                Err(error) => Err(error),
            },
            ParserState::Series => match labels(self.item.series, token, "series", "series") {
                Ok((series, open)) => Ok(self.section(open, ReleaseView { series, ..self.item })),
                Err(error) => Err(error),
            },
            ParserState::Images => match pictures(self.item.images, token) {
                Ok((images, open)) => Ok(self.section(open, ReleaseView { images, ..self.item })),
                Err(error) => Err(error),
            },
            _ => Ok(self),
        }
    }

    /// The transition function of the release parser.
    pub open spec fn step(self, token: &Token) -> Result<ReleaseParserView, ParserError> {
        match self.state {
            ParserState::Release => self.between(token),
            ParserState::Title | ParserState::Country | ParserState::Released | ParserState::Notes
            | ParserState::DataQuality => self.scalar(token),
            ParserState::MasterId => self.master_id(token),
            ParserState::Artists | ParserState::ExtraArtists | ParserState::Videos
            | ParserState::TrackList | ParserState::Companies => self.nested(token),
            ParserState::Genres | ParserState::Styles | ParserState::Format
            | ParserState::Identifiers | ParserState::Labels | ParserState::Series
            | ParserState::Images => self.listed(token),
        }
    }
}

impl ReleaseParser {
    fn field(tag: &Tag) -> (state: ParserState)
        ensures
            state == ReleaseParserView::field(tag),
    {
        let name = local_name(tag.name.as_slice());
        if is_word(name, "title") {
            ParserState::Title
        } else if is_word(name, "country") {
            ParserState::Country
        } else if is_word(name, "released") {
            ParserState::Released
        } else if is_word(name, "notes") {
            ParserState::Notes
        } else if is_word(name, "genres") {
            ParserState::Genres
        } else if is_word(name, "styles") {
            ParserState::Styles
        } else if is_word(name, "data_quality") {
            ParserState::DataQuality
        } else if is_word(name, "labels") {
            ParserState::Labels
        } else if is_word(name, "series") {
            ParserState::Series
        } else if is_word(name, "videos") {
            ParserState::Videos
        } else if is_word(name, "artists") {
            ParserState::Artists
        } else if is_word(name, "extraartists") {
            ParserState::ExtraArtists
        } else if is_word(name, "tracklist") {
            ParserState::TrackList
        } else if is_word(name, "formats") {
            ParserState::Format
        } else if is_word(name, "identifiers") {
            ParserState::Identifiers
        } else if is_word(name, "companies") {
            ParserState::Companies
        } else if is_word(name, "images") {
            ParserState::Images
        } else {
            ParserState::Release
        }
    }

    fn opened(&mut self, tag: &Tag) -> (result: Result<(), ParserError>)
        ensures
            match old(self)@.opened(tag) {
                Ok(next) => result is Ok && final(self)@ == next,
                Err(error) => result == Err::<(), ParserError>(error)
                    && final(self)@ == old(self)@,
            },
    {
        let name = local_name(tag.name.as_slice());
        if is_word(name, "release") {
            let id = match attr_u32(tag, "id") {
                Ok(id) => id,
                Err(error) => return Err(error),
            };
            let status = match find_attr(tag, "status") {
                Ok(status) => status,
                Err(error) => return Err(error),
            };
            self.current_item.id = id;
            self.current_item.status = status;
            self.state = ParserState::Release;
        } else if is_word(name, "master_id") {
            match attr_bool(tag, "is_main_release") {
                Ok(is_main_release) => {
                    self.current_item.is_main_release = is_main_release;
                    self.state = ParserState::MasterId;
                },
                Err(error) => return Err(error),
            }
        } else {
            self.state = Self::field(tag);
        }
        Ok(())
    }

    fn between(&mut self, token: &Token) -> (result: Result<(), ParserError>)
        ensures
            match old(self)@.between(token) {
                Ok(next) => result is Ok && final(self)@ == next,
                Err(error) => result == Err::<(), ParserError>(error)
                    && final(self)@ == old(self)@,
            },
    {
        match token {
            Token::End(name) => {
                if is_named(name.as_slice(), "release") {
                    self.item_ready = true;
                }
                Ok(())
            },
            Token::Start(tag) => self.opened(tag),
            _ => Ok(()),
        }
    }

    fn scalar(&mut self, token: &Token) -> (result: Result<(), ParserError>)
        ensures
            match old(self)@.scalar(token) {
                Ok(next) => result is Ok && final(self)@ == next,
                Err(error) => result == Err::<(), ParserError>(error)
                    && final(self)@ == old(self)@,
            },
    {
        match token {
            Token::Text(raw) => match self.state {
                ParserState::Title => match text(raw.as_slice()) {
                    Ok(title) => {
                        self.current_item.title = title;
                    },
                    Err(error) => return Err(error),
                },
                ParserState::Country => match text(raw.as_slice()) {
                    Ok(country) => {
                        self.current_item.country = country;
                    },
                    Err(error) => return Err(error),
                },
                ParserState::Released => match text(raw.as_slice()) {
                    Ok(released) => {
                        self.current_item.released = released;
                    },
                    Err(error) => return Err(error),
                },
                ParserState::Notes => match maybe_text(raw.as_slice()) {
                    Ok(notes) => {
                        self.current_item.notes = notes;
                    },
                    Err(error) => return Err(error),
                },
                ParserState::DataQuality => match text(raw.as_slice()) {
                    Ok(data_quality) => {
                        self.current_item.data_quality = data_quality;
                    },
                    Err(error) => return Err(error),
                },
                _ => {},
            },
            _ => {
                self.state = ParserState::Release;
            },
        }
        Ok(())
    }

    fn master_id(&mut self, token: &Token) -> (result: Result<(), ParserError>)
        ensures
            match old(self)@.master_id(token) {
                Ok(next) => result is Ok && final(self)@ == next,
                Err(error) => result == Err::<(), ParserError>(error)
                    && final(self)@ == old(self)@,
            },
    {
        match token {
            Token::Text(raw) => match text_u32(raw.as_slice()) {
                Ok(id) => {
                    self.current_item.master_id = Some(id);
                },
                Err(error) => return Err(error),
            },
            Token::End(_) => {
                self.state = ParserState::Release;
            },
            _ => {},
        }
        Ok(())
    }

    fn nested(&mut self, token: &Token) -> (result: Result<(), ParserError>)
        ensures
            match old(self)@.nested(token) {
                Ok(next) => result is Ok && final(self)@ == next,
                Err(error) => result == Err::<(), ParserError>(error)
                    && final(self)@ == old(self)@,
            },
    {
        match self.state {
            ParserState::Artists => {
                if closes(token, "artists") {
                    self.state = ParserState::Release;
                    Ok(())
                } else {
                    harvest(&mut self.artist_parser, &mut self.current_item.artists, token)
                }
            },
            ParserState::ExtraArtists => {
                if closes(token, "extraartists") {
                    self.state = ParserState::Release;
                    Ok(())
                } else {
                    harvest(&mut self.artist_parser, &mut self.current_item.extraartists, token)
                }
            },
            ParserState::Videos => {
                if closes(token, "videos") {
                    self.state = ParserState::Release;
                    Ok(())
                } else {
                    harvest(&mut self.video_parser, &mut self.current_item.videos, token)
                }
            },
            ParserState::TrackList => {
                if closes(token, "tracklist") {
                    self.state = ParserState::Release;
                    Ok(())
                } else {
                    harvest(&mut self.track_parser, &mut self.current_item.tracklist, token)
                }
            },
            ParserState::Companies => {
                if closes(token, "companies") {
                    self.state = ParserState::Release;
                    Ok(())
                } else {
                    harvest(&mut self.company_parser, &mut self.current_item.companies, token)
                }
            },
            _ => Ok(()),
        }
    }

    /// Leaves the section where `open` says that it is closed.
    fn leave(&mut self, open: bool)
        ensures
            final(self)@ == old(self)@.section(open, old(self)@.item),
    {
        if !open {
            self.state = ParserState::Release;
        }
    }

    fn listed(&mut self, token: &Token) -> (result: Result<(), ParserError>)
        ensures
            match old(self)@.listed(token) {
                Ok(next) => result is Ok && final(self)@ == next,
                Err(error) => result == Err::<(), ParserError>(error)
                    && final(self)@ == old(self)@,
            },
    {
        let read = match self.state {
            ParserState::Genres => read_texts(&mut self.current_item.genres, token, "genres"),
            ParserState::Styles => read_texts(&mut self.current_item.styles, token, "styles"),
            ParserState::Format => read_formats(&mut self.current_item.formats, token),
            ParserState::Identifiers => read_identifiers(
                &mut self.current_item.identifiers,
                token,
            ),
            ParserState::Labels => read_labels(
                &mut self.current_item.labels,
                token,
                "labels",
                "label",
            ),
            ParserState::Series => read_labels(
                &mut self.current_item.series,
                token,
                "series",
                "series",
            ),
            ParserState::Images => read_pictures(&mut self.current_item.images, token),
            _ => return Ok(()),
        };
        match read {
            Ok(open) => {
                self.leave(open);
                Ok(())
            },
            Err(error) => Err(error),
        }
    }
}

impl Parser for ReleaseParser {
    type Item = Release;

    open spec fn fresh() -> ReleaseParserView {
        ReleaseParserView {
            state: ParserState::Release,
            item: ReleaseView::empty(),
            credits: ArtistCreditParser::fresh(),
            videos: VideoParser::fresh(),
            tracks: TrackParser::fresh(),
            companies: CompanyParser::fresh(),
            ready: false,
        }
    }

    open spec fn step(model: ReleaseParserView, token: &Token) -> Result<
        ReleaseParserView,
        ParserError,
    > {
        model.step(token)
    }

    open spec fn ready(model: ReleaseParserView) -> bool {
        model.ready
    }

    open spec fn item(model: ReleaseParserView) -> ReleaseView {
        model.item
    }

    open spec fn emptied(model: ReleaseParserView) -> ReleaseParserView {
        ReleaseParserView { item: ReleaseView::empty(), ready: false, ..model }
    }

    proof fn lemma_emptied_slot(model: ReleaseParserView) {
    }

    proof fn lemma_step_alike(model: ReleaseParserView, a: &Token, b: &Token) {
        match model.state {
            ParserState::Release => {
                assert(model.between(a) == model.between(b));
            },
            ParserState::MasterId => {
                assert(model.master_id(a) == model.master_id(b));
            },
            ParserState::Artists | ParserState::ExtraArtists => {
                ArtistCreditParser::lemma_step_alike(model.credits, a, b);
                assert(model.nested(a) == model.nested(b));
            },
            ParserState::Videos => {
                VideoParser::lemma_step_alike(model.videos, a, b);
                assert(model.nested(a) == model.nested(b));
            },
            ParserState::TrackList => {
                TrackParser::lemma_step_alike(model.tracks, a, b);
                assert(model.nested(a) == model.nested(b));
            },
            ParserState::Companies => {
                CompanyParser::lemma_step_alike(model.companies, a, b);
                assert(model.nested(a) == model.nested(b));
            },
            ParserState::Images => {
                lemma_pictures_alike(model.item.images, a, b);
            },
            ParserState::Format => {
                assert(formats(model.item.formats, a) == formats(model.item.formats, b));
            },
            ParserState::Identifiers => {
                assert(identifiers(model.item.identifiers, a) == identifiers(
                    model.item.identifiers,
                    b,
                ));
            },
            ParserState::Labels => {
                assert(labels(model.item.labels, a, "labels", "label") == labels(
                    model.item.labels,
                    b,
                    "labels",
                    "label",
                ));
            },
            ParserState::Series => {
                assert(labels(model.item.series, a, "series", "series") == labels(
                    model.item.series,
                    b,
                    "series",
                    "series",
                ));
            },
            ParserState::Genres | ParserState::Styles => {
                assert(model.listed(a) == model.listed(b));
            },
            _ => {
                assert(model.scalar(a) == model.scalar(b));
            },
        }
    }

    proof fn lemma_fresh_not_ready() {
    }

    fn new() -> (parser: Self) {
        ReleaseParser {
            state: ParserState::Release,
            current_item: Release::default(),
            artist_parser: ArtistCreditParser::new(),
            video_parser: VideoParser::new(),
            track_parser: TrackParser::new(),
            company_parser: CompanyParser::new(),
            item_ready: false,
        }
    }

    fn item_ready(&self) -> (ready: bool) {
        self.item_ready
    }

    fn take(&mut self) -> (item: Release) {
        self.item_ready = false;
        let mut item = Release::default();
        std::mem::swap(&mut self.current_item, &mut item);
        assert(item == old(self).current_item);
        assert(item.deep_view() == old(self).current_item@);
        item
    }

    fn process(&mut self, token: &Token) -> (result: Result<(), ParserError>) {
        match self.state {
            ParserState::Release => self.between(token),
            ParserState::Title | ParserState::Country | ParserState::Released | ParserState::Notes
            | ParserState::DataQuality => self.scalar(token),
            ParserState::MasterId => self.master_id(token),
            ParserState::Artists | ParserState::ExtraArtists | ParserState::Videos
            | ParserState::TrackList | ParserState::Companies => self.nested(token),
            ParserState::Genres | ParserState::Styles | ParserState::Format
            | ParserState::Identifiers | ParserState::Labels | ParserState::Series
            | ParserState::Images => self.listed(token),
        }
    }
}

/// An owned copy of a text that may be absent.
pub fn owned(text: Option<&str>) -> (copy: Option<String>)
    ensures
        copy.deep_view() == text.deep_view(),
{
    match text {
        Some(text) => Some(text.to_owned()),
        None => None,
    }
}

/// Owned copies of the given texts, in their order.
pub fn owned_all(texts: &[&'static str]) -> (copies: Vec<String>)
    ensures
        copies.deep_view() == texts.deep_view(),
{
    let mut copies: Vec<String> = Vec::new();
    let mut i: usize = 0;
    while i < texts.len()
        invariant
            i <= texts.len(),
            copies.len() == i,
            forall|k: int| 0 <= k < i ==> copies[k]@ == texts[k]@,
        decreases texts.len() - i,
    {
        copies.push(texts[i].to_owned());
        i += 1;
    }
    assert(copies.deep_view() =~= texts.deep_view());
    copies
}

/// Builds a [`Release`] field by field.
pub struct ReleaseBuilder {
    inner: Release,
}

impl View for ReleaseBuilder {
    type V = ReleaseView;

    closed spec fn view(&self) -> ReleaseView {
        self.inner@
    }
}

impl ReleaseBuilder {
    pub fn id(self, id: u32) -> (builder: Self)
        ensures
            builder@ == (ReleaseView { id, ..self@ }),
    {
        let mut builder = self;
        builder.inner.id = id;
        builder
    }

    pub fn status(self, status: &str) -> (builder: Self)
        ensures
            builder@ == (ReleaseView { status: status@, ..self@ }),
    {
        let mut builder = self;
        builder.inner.status = status.to_owned();
        builder
    }

    pub fn title(self, title: &str) -> (builder: Self)
        ensures
            builder@ == (ReleaseView { title: title@, ..self@ }),
    {
        let mut builder = self;
        builder.inner.title = title.to_owned();
        builder
    }

    pub fn artist(self, credit: ArtistCredit) -> (builder: Self)
        ensures
            builder@ == (ReleaseView { artists: self@.artists.push(credit@), ..self@ }),
    {
        let mut builder = self;
        push_back(&mut builder.inner.artists, credit);
        builder
    }

    pub fn country(self, country: &str) -> (builder: Self)
        ensures
            builder@ == (ReleaseView { country: country@, ..self@ }),
    {
        let mut builder = self;
        builder.inner.country = country.to_owned();
        builder
    }

    pub fn label(self, id: Option<u32>, name: &str, catno: Option<&str>) -> (builder: Self)
        ensures
            builder@ == (ReleaseView {
                labels: self@.labels.push(
                    ReleaseLabelView {
                        id,
                        name: name@,
                        catno: catno.deep_view(),
                        ..ReleaseLabelView::empty()
                    },
                ),
                ..self@
            }),
    {
        let mut builder = self;
        let label = ReleaseLabel {
            id,
            name: name.to_owned(),
            catno: owned(catno),
            entity_type: 0,
            entity_type_name: String::new(),
        };
        push_back(&mut builder.inner.labels, label);
        builder
    }

    pub fn series(self, id: Option<u32>, name: &str, catno: Option<&str>) -> (builder: Self)
        ensures
            builder@ == (ReleaseView {
                series: self@.series.push(
                    ReleaseLabelView {
                        id,
                        name: name@,
                        catno: catno.deep_view(),
                        ..ReleaseLabelView::empty()
                    },
                ),
                ..self@
            }),
    {
        let mut builder = self;
        let series = ReleaseLabel {
            id,
            name: name.to_owned(),
            catno: owned(catno),
            entity_type: 0,
            entity_type_name: String::new(),
        };
        push_back(&mut builder.inner.series, series);
        builder
    }

    pub fn released(self, released: &str) -> (builder: Self)
        ensures
            builder@ == (ReleaseView { released: released@, ..self@ }),
    {
        let mut builder = self;
        builder.inner.released = released.to_owned();
        builder
    }

    pub fn notes(self, notes: &str) -> (builder: Self)
        ensures
            builder@ == (ReleaseView { notes: Some(notes@), ..self@ }),
    {
        let mut builder = self;
        builder.inner.notes = Some(notes.to_owned());
        builder
    }

    pub fn genre(self, genre: &str) -> (builder: Self)
        ensures
            builder@ == (ReleaseView { genres: self@.genres.push(genre@), ..self@ }),
    {
        let mut builder = self;
        push_back(&mut builder.inner.genres, genre.to_owned());
        builder
    }

    pub fn style(self, style: &str) -> (builder: Self)
        ensures
            builder@ == (ReleaseView { styles: self@.styles.push(style@), ..self@ }),
    {
        let mut builder = self;
        push_back(&mut builder.inner.styles, style.to_owned());
        builder
    }

    pub fn master_id(self, id: u32) -> (builder: Self)
        ensures
            builder@ == (ReleaseView { master_id: Some(id), ..self@ }),
    {
        let mut builder = self;
        builder.inner.master_id = Some(id);
        builder
    }

    pub fn is_main_release(self, is: bool) -> (builder: Self)
        ensures
            builder@ == (ReleaseView { is_main_release: is, ..self@ }),
    {
        let mut builder = self;
        builder.inner.is_main_release = is;
        builder
    }

    pub fn data_quality(self, data_quality: &str) -> (builder: Self)
        ensures
            builder@ == (ReleaseView { data_quality: data_quality@, ..self@ }),
    {
        let mut builder = self;
        builder.inner.data_quality = data_quality.to_owned();
        builder
    }

    pub fn image(self, ty: &str, width: i16, height: i16) -> (builder: Self)
        ensures
            builder@ == (ReleaseView {
                images: self@.images.push(
                    ImageView { ty: ty@, uri: None, uri150: None, width, height },
                ),
                ..self@
            }),
    {
        let mut builder = self;
        push_back(&mut builder.inner.images, Image::sized(ty, width, height));
        builder
    }

    pub fn video(self, src: &str, duration: u32, title: &str, description: &str) -> (builder:
        Self)
        ensures
            builder@ == (ReleaseView {
                videos: self@.videos.push(
                    VideoView {
                        src: src@,
                        duration,
                        title: title@,
                        description: description@,
                        embed: true,
                    },
                ),
                ..self@
            }),
    {
        let mut builder = self;
        push_back(&mut builder.inner.videos, Video::embedded(src, duration, title, description));
        builder
    }

    pub fn extraartist(self, credit: ArtistCreditBuilder) -> (builder: Self)
        ensures
            builder@ == (ReleaseView {
                extraartists: self@.extraartists.push(credit@),
                ..self@
            }),
    {
        let mut builder = self;
        push_back(&mut builder.inner.extraartists, credit.build());
        builder
    }

    /// Starts a track of this release. The release goes on with
    /// [`TrackBuilder::build_track`].
    pub fn track(self, position: &str, title: &str) -> (builder: TrackBuilder)
        ensures
            builder@ == (TrackBuilderView {
                track: TrackView { position: position@, title: title@, ..TrackView::empty() },
                release: self@,
            }),
    {
        let mut inner = Track::default();
        inner.position = position.to_owned();
        inner.title = title.to_owned();
        TrackBuilder { inner, release: self }
    }

    pub fn format(
        self,
        qty: &str,
        name: &str,
        text: Option<&str>,
        descriptions: &[&'static str],
    ) -> (builder: Self)
        ensures
            builder@ == (ReleaseView {
                formats: self@.formats.push(
                    ReleaseFormatView {
                        qty: qty@,
                        name: name@,
                        text: text.deep_view(),
                        descriptions: descriptions.deep_view(),
                    },
                ),
                ..self@
            }),
    {
        let mut builder = self;
        let format = ReleaseFormat {
            qty: qty.to_owned(),
            name: name.to_owned(),
            text: owned(text),
            descriptions: owned_all(descriptions),
        };
        push_back(&mut builder.inner.formats, format);
        builder
    }

    pub fn company(
        self,
        id: u32,
        name: &str,
        catno: Option<&str>,
        entity_type: u8,
        entity_type_name: &str,
    ) -> (builder: Self)
        ensures
            builder@ == (ReleaseView {
                companies: self@.companies.push(
                    ReleaseCompanyView {
                        id: Some(id),
                        name: name@,
                        catno: catno.deep_view(),
                        entity_type,
                        entity_type_name: entity_type_name@,
                    },
                ),
                ..self@
            }),
    {
        let mut builder = self;
        let company = ReleaseCompany {
            id: Some(id),
            name: name.to_owned(),
            catno: owned(catno),
            entity_type,
            entity_type_name: entity_type_name.to_owned(),
        };
        push_back(&mut builder.inner.companies, company);
        builder
    }

    pub fn identifier(self, ty: &str, description: Option<&str>, value: Option<&str>) -> (builder:
        Self)
        ensures
            builder@ == (ReleaseView {
                identifiers: self@.identifiers.push(
                    ReleaseIdentifierView {
                        ty: ty@,
                        description: description.deep_view(),
                        value: value.deep_view(),
                    },
                ),
                ..self@
            }),
    {
        let mut builder = self;
        let identifier = ReleaseIdentifier {
            ty: ty.to_owned(),
            description: owned(description),
            value: owned(value),
        };
        push_back(&mut builder.inner.identifiers, identifier);
        builder
    }

    pub fn build(self) -> (release: Release)
        ensures
            release@ == self@,
    {
        self.inner
    }
}

/// Builds one [`Track`] of a release that is being built.
pub struct TrackBuilder {
    inner: Track,
    release: ReleaseBuilder,
}

/// What a [`TrackBuilder`] holds: the track so far, and the release that
/// waits for it.
pub struct TrackBuilderView {
    pub track: TrackView,
    pub release: ReleaseView,
}

impl View for TrackBuilder {
    type V = TrackBuilderView;

    closed spec fn view(&self) -> TrackBuilderView {
        TrackBuilderView { track: self.inner@, release: self.release@ }
    }
}

impl TrackBuilder {
    pub fn duration(self, duration: &str) -> (builder: Self)
        ensures
            builder@ == (TrackBuilderView {
                track: TrackView { duration: Some(duration@), ..self@.track },
                ..self@
            }),
    {
        let mut builder = self;
        builder.inner.duration = Some(duration.to_owned());
        builder
    }

    pub fn artist(self, credit: ArtistCreditBuilder) -> (builder: Self)
        ensures
            builder@ == (TrackBuilderView {
                track: TrackView { artists: self@.track.artists.push(credit@), ..self@.track },
                ..self@
            }),
    {
        let mut builder = self;
        push_back(&mut builder.inner.artists, credit.build());
        builder
    }

    pub fn extraartist(self, credit: ArtistCreditBuilder) -> (builder: Self)
        ensures
            builder@ == (TrackBuilderView {
                track: TrackView {
                    extraartists: self@.track.extraartists.push(credit@),
                    ..self@.track
                },
                ..self@
            }),
    {
        let mut builder = self;
        push_back(&mut builder.inner.extraartists, credit.build());
        builder
    }

    /// Ends the track and puts it at the end of the track list of its
    /// release.
    pub fn build_track(self) -> (builder: ReleaseBuilder)
        ensures
            builder@ == (ReleaseView {
                tracklist: self@.release.tracklist.push(self@.track),
                ..self@.release
            }),
    {
        let mut builder = self;
        push_back(&mut builder.release.inner.tracklist, builder.inner);
        builder.release
    }
}

/// The start tags of the fields and sections that a release knows, each
/// with the state that it leads to from between the fields.
pub proof fn lemma_release_fields(tag: &Tag)
    ensures
        tag.is("title") ==> ReleaseParserView::field(tag) == ParserState::Title,
        tag.is("country") ==> ReleaseParserView::field(tag) == ParserState::Country,
        tag.is("released") ==> ReleaseParserView::field(tag) == ParserState::Released,
        tag.is("notes") ==> ReleaseParserView::field(tag) == ParserState::Notes,
        tag.is("genres") ==> ReleaseParserView::field(tag) == ParserState::Genres,
        tag.is("styles") ==> ReleaseParserView::field(tag) == ParserState::Styles,
        tag.is("data_quality") ==> ReleaseParserView::field(tag) == ParserState::DataQuality,
        tag.is("labels") ==> ReleaseParserView::field(tag) == ParserState::Labels,
        tag.is("series") ==> ReleaseParserView::field(tag) == ParserState::Series,
        tag.is("videos") ==> ReleaseParserView::field(tag) == ParserState::Videos,
        tag.is("artists") ==> ReleaseParserView::field(tag) == ParserState::Artists,
        tag.is("extraartists") ==> ReleaseParserView::field(tag) == ParserState::ExtraArtists,
        tag.is("tracklist") ==> ReleaseParserView::field(tag) == ParserState::TrackList,
        tag.is("formats") ==> ReleaseParserView::field(tag) == ParserState::Format,
        tag.is("identifiers") ==> ReleaseParserView::field(tag) == ParserState::Identifiers,
        tag.is("companies") ==> ReleaseParserView::field(tag) == ParserState::Companies,
        tag.is("images") ==> ReleaseParserView::field(tag) == ParserState::Images,
{
    lemma_words_differ();
    reveal_strlit("title");
    reveal_strlit("country");
    reveal_strlit("released");
    reveal_strlit("notes");
    reveal_strlit("genres");
    reveal_strlit("styles");
    reveal_strlit("data_quality");
    reveal_strlit("labels");
    reveal_strlit("series");
    reveal_strlit("videos");
    reveal_strlit("artists");
    reveal_strlit("extraartists");
    reveal_strlit("tracklist");
    reveal_strlit("formats");
    reveal_strlit("identifiers");
    reveal_strlit("companies");
    reveal_strlit("images");
    assert("series"@[1] != "styles"@[1]);
}

/// Only between the fields can a release become complete.
pub proof fn lemma_release_completes_between(model: ReleaseParserView, token: &Token)
    requires
        !model.ready,
        model.state != ParserState::Release,
    ensures
        model.step(token) matches Ok(next) ==> !next.ready,
{
    match model.state {
        ParserState::Artists | ParserState::ExtraArtists | ParserState::Videos
        | ParserState::TrackList | ParserState::Companies => {
            assert(model.nested(token) matches Ok(next) ==> !next.ready);
        },
        ParserState::Genres | ParserState::Styles | ParserState::Format
        | ParserState::Identifiers | ParserState::Labels | ParserState::Series
        | ParserState::Images => {
            assert(model.listed(token) matches Ok(next) ==> !next.ready);
        },
        ParserState::MasterId => {
            assert(model.master_id(token) matches Ok(next) ==> !next.ready);
        },
        _ => {
            assert(model.scalar(token) matches Ok(next) ==> !next.ready);
        },
    }
}

/// A release does not leak into the next: the token that completes a
/// record leaves the parser, whose parsers of nested groups are at rest, as
/// a fresh one, and the record that is handed out is the one that was being
/// built.
pub proof fn lemma_release_rests(model: ReleaseParserView, token: &Token)
    requires
        !model.ready,
        model.credits == ArtistCreditParser::fresh(),
        model.videos == VideoParser::fresh(),
        model.tracks == TrackParser::fresh(),
        model.companies == CompanyParser::fresh(),
    ensures
        fed::<ReleaseParser>(model, token) matches Ok((next, Some(item))) ==> next
            == ReleaseParser::fresh() && item == model.item,
{
    if model.state != ParserState::Release {
        lemma_release_completes_between(model, token);
    } else {
        assert(model.step(token) == model.between(token));
    }
}

/// Notes that are there with nothing in them, or with white space only,
/// leave a release as it is, as if the element were absent.
pub proof fn lemma_release_blank_is_absent(
    model: ReleaseParserView,
    open: Tag,
    text: Vec<u8>,
    close: Vec<u8>,
)
    requires
        !model.ready,
        model.state == ParserState::Release,
        open.is("notes"),
        model.item.notes is None,
        optional_text_of(text@) == Ok::<Option<Seq<char>>, ParserError>(None),
    ensures
        passes_over::<ReleaseParser>(model, bare_element(open, close)),
        passes_over::<ReleaseParser>(model, element(open, text, close)),
        passes_over::<ReleaseParser>(model, seq![Token::Empty(open)]),
{
    lemma_release_fields(&open);
    lemma_words_differ();
    reveal_strlit("notes");
    reveal_strlit("release");
    reveal_strlit("master_id");
    lemma_quiet_element::<ReleaseParser>(model, open, text, close);
}

/// A release cannot do without its id and its status, nor the element of
/// the master id without the flag of the main release: a tag that lacks
/// one of them, or has it empty, is an error that names it.
pub proof fn lemma_release_needs_attributes(model: ReleaseParserView, tag: Tag)
    requires
        model.state == ParserState::Release,
    ensures
        tag.is("release") && optional_attribute(&tag, "id") == Ok::<
            Option<Seq<char>>,
            ParserError,
        >(None) ==> model.step(&Token::Start(tag)) == Err::<ReleaseParserView, ParserError>(
            ParserError::MissingAttr("id"),
        ),
        tag.is("release") && u32_attribute(&tag, "id") is Ok && optional_attribute(
            &tag,
            "status",
        ) == Ok::<Option<Seq<char>>, ParserError>(None) ==> model.step(&Token::Start(tag))
            == Err::<ReleaseParserView, ParserError>(ParserError::MissingAttr("status")),
        tag.is("master_id") && optional_attribute(&tag, "is_main_release") == Ok::<
            Option<Seq<char>>,
            ParserError,
        >(None) ==> model.step(&Token::Start(tag)) == Err::<ReleaseParserView, ParserError>(
            ParserError::MissingAttr("is_main_release"),
        ),
{
    lemma_words_differ();
    reveal_strlit("release");
    reveal_strlit("master_id");
}

/// The lists of labels, of series and of identifiers stay open until
/// their own end tag: a text, a start tag, an end tag of another name and
/// an empty tag of another name than that of an entry are passed over, and
/// the entries that follow still join the list.
pub proof fn lemma_release_sections_stay_open(model: ReleaseParserView, token: &Token)
    requires
        model.state == ParserState::Labels || model.state == ParserState::Series || model.state
            == ParserState::Identifiers,
        match token {
            Token::Empty(tag) => !tag.is(model.entry_name()),
            Token::End(name) => !named(name@, model.section_name()),
            _ => true,
        },
    ensures
        model.step(token) == Ok::<ReleaseParserView, ParserError>(model),
{
}

/// The end tag of the list of labels, of series or of identifiers closes
/// it and changes nothing else.
pub proof fn lemma_release_sections_close(model: ReleaseParserView, name: Vec<u8>)
    requires
        model.state == ParserState::Labels || model.state == ParserState::Series || model.state
            == ParserState::Identifiers,
        named(name@, model.section_name()),
    ensures
        model.step(&Token::End(name)) == Ok::<ReleaseParserView, ParserError>(
            model.at(ParserState::Release),
        ),
{
}

/// A description cannot belong to a format that was never opened: in a
/// list of formats that is still empty, a text that can be read is an
/// error.
pub proof fn lemma_format_text_needs_format(model: ReleaseParserView, text: Vec<u8>)
    requires
        model.state == ParserState::Format,
        model.item.formats.len() == 0,
        text_of(text@) is Ok,
    ensures
        model.step(&Token::Text(text)) == Err::<ReleaseParserView, ParserError>(
            ParserError::MissingData("Release format"),
        ),
{
}

/// The element of the master id gives two fields at once: its attribute
/// the flag of the main release, its text the id of the master.
pub proof fn lemma_master_id_element(
    model: ReleaseParserView,
    open: Tag,
    text: Vec<u8>,
    close: Vec<u8>,
    flag: bool,
    id: u32,
)
    requires
        model.state == ParserState::Release,
        open.is("master_id"),
        bool_attribute(&open, "is_main_release") == Ok::<bool, ParserError>(flag),
        u32_text(text@) == Ok::<u32, ParserError>(id),
    ensures
        run::<ReleaseParser>(model, element(open, text, close)) == Ok::<
            ReleaseParserView,
            ParserError,
        >(
            ReleaseParserView {
                item: ReleaseView { master_id: Some(id), is_main_release: flag, ..model.item },
                ..model
            },
        ),
{
    lemma_words_differ();
    reveal_strlit("release");
    reveal_strlit("master_id");
    lemma_run_element::<ReleaseParser>(model, open, text, close);
}

/// An element that a release does not know is passed over with its text,
/// so a dump that has gained an element gives the same release as before.
pub proof fn lemma_release_skips_unknown(
    model: ReleaseParserView,
    open: Tag,
    text: Vec<u8>,
    close: Vec<u8>,
)
    requires
        !model.ready,
        model.state == ParserState::Release,
        !open.is("release"),
        !open.is("master_id"),
        ReleaseParserView::field(&open) == ParserState::Release,
        !named(close@, "release"),
    ensures
        passes_over::<ReleaseParser>(model, element(open, text, close)),
        passes_over::<ReleaseParser>(model, bare_element(open, close)),
        passes_over::<ReleaseParser>(model, seq![Token::Empty(open)]),
{
    lemma_quiet_element::<ReleaseParser>(model, open, text, close);
}

/// Whether `after` holds all the formats that `before` held, in the same
/// places, but that the last of them may have gained descriptions.
pub open spec fn formats_kept(
    before: Seq<ReleaseFormatView>,
    after: Seq<ReleaseFormatView>,
) -> bool {
    &&& before.len() <= after.len()
    &&& forall|i: int| 0 <= i < before.len() - 1 ==> #[trigger] after[i] == before[i]
    &&& before.len() > 0 ==> {
        let was = before.last();
        let is = after[before.len() - 1];
        &&& is.qty == was.qty
        &&& is.name == was.name
        &&& is.text == was.text
        &&& was.descriptions.is_prefix_of(is.descriptions)
    }
}

/// The list of formats keeps document order: a token never takes a format
/// away and never puts one before another; the one thing that can change
/// in a format is that the last gains a description, at the end of its
/// descriptions.
pub proof fn lemma_formats_grow(list: Seq<ReleaseFormatView>, token: &Token)
    ensures
        formats(list, token) matches Ok((after, _)) ==> formats_kept(list, after),
{
    match formats(list, token) {
        Ok((after, _)) => {
            if list.len() > 0 {
                let was = list.last().descriptions;
                let is = after[list.len() - 1].descriptions;
                assert(was =~= is.subrange(0, was.len() as int));
            }
        },
        Err(_) => {},
    }
}

/// The lists of labels, of series and of identifiers only grow, and at
/// their end.
pub proof fn lemma_entries_grow(
    some_labels: Seq<ReleaseLabelView>,
    some_identifiers: Seq<ReleaseIdentifierView>,
    token: &Token,
    section: &str,
    entry: &str,
)
    ensures
        labels(some_labels, token, section, entry) matches Ok((after, _))
            ==> some_labels.is_prefix_of(after),
        identifiers(some_identifiers, token) matches Ok((after, _))
            ==> some_identifiers.is_prefix_of(after),
{
    match labels(some_labels, token, section, entry) {
        Ok((after, _)) => {
            assert(some_labels =~= after.subrange(0, some_labels.len() as int));
        },
        Err(_) => {},
    }
    match identifiers(some_identifiers, token) {
        Ok((after, _)) => {
            assert(some_identifiers =~= after.subrange(0, some_identifiers.len() as int));
        },
        Err(_) => {},
    }
}

/// Every list of the item before the step is a prefix of itself.
proof fn lemma_release_lists_same(item: ReleaseView)
    ensures
        item.artists.is_prefix_of(item.artists),
        item.extraartists.is_prefix_of(item.extraartists),
        item.labels.is_prefix_of(item.labels),
        item.series.is_prefix_of(item.series),
        item.genres.is_prefix_of(item.genres),
        item.styles.is_prefix_of(item.styles),
        item.images.is_prefix_of(item.images),
        item.videos.is_prefix_of(item.videos),
        item.tracklist.is_prefix_of(item.tracklist),
        item.companies.is_prefix_of(item.companies),
        item.identifiers.is_prefix_of(item.identifiers),
        formats_kept(item.formats, item.formats),
{
    assert(item.artists =~= item.artists.subrange(0, item.artists.len() as int));
    assert(item.extraartists =~= item.extraartists.subrange(0, item.extraartists.len() as int));
    assert(item.labels =~= item.labels.subrange(0, item.labels.len() as int));
    assert(item.series =~= item.series.subrange(0, item.series.len() as int));
    assert(item.genres =~= item.genres.subrange(0, item.genres.len() as int));
    assert(item.styles =~= item.styles.subrange(0, item.styles.len() as int));
    assert(item.images =~= item.images.subrange(0, item.images.len() as int));
    assert(item.videos =~= item.videos.subrange(0, item.videos.len() as int));
    assert(item.tracklist =~= item.tracklist.subrange(0, item.tracklist.len() as int));
    assert(item.companies =~= item.companies.subrange(0, item.companies.len() as int));
    assert(item.identifiers =~= item.identifiers.subrange(0, item.identifiers.len() as int));
    if item.formats.len() > 0 {
        let descriptions = item.formats.last().descriptions;
        assert(descriptions =~= descriptions.subrange(0, descriptions.len() as int));
    }
}

/// Whether `next` holds, in every list, all that `item` held, in the same
/// places.
pub open spec fn lists_kept(item: ReleaseView, next: ReleaseView) -> bool {
    &&& item.artists.is_prefix_of(next.artists)
    &&& item.extraartists.is_prefix_of(next.extraartists)
    &&& item.labels.is_prefix_of(next.labels)
    &&& item.series.is_prefix_of(next.series)
    &&& item.genres.is_prefix_of(next.genres)
    &&& item.styles.is_prefix_of(next.styles)
    &&& item.images.is_prefix_of(next.images)
    &&& item.videos.is_prefix_of(next.videos)
    &&& item.tracklist.is_prefix_of(next.tracklist)
    &&& item.companies.is_prefix_of(next.companies)
    &&& item.identifiers.is_prefix_of(next.identifiers)
    &&& formats_kept(item.formats, next.formats)
}

/// The lists of a release keep document order: a token never takes an
/// entry away and never puts one before another. Every list only grows at
/// its end; in the list of formats, the last format may gain a description.
pub proof fn lemma_release_lists_grow(model: ReleaseParserView, token: &Token)
    ensures
        model.step(token) matches Ok(next) ==> lists_kept(model.item, next.item),
{
    lemma_release_lists_same(model.item);
    match model.state {
        ParserState::Release => {
            assert(model.step(token) == model.between(token));
        },
        ParserState::MasterId => {
            assert(model.step(token) == model.master_id(token));
        },
        ParserState::Artists => {
            lemma_harvested_grows::<ArtistCreditParser>(model.credits, model.item.artists, token);
            assert(model.step(token) == model.nested(token));
        },
        ParserState::ExtraArtists => {
            lemma_harvested_grows::<ArtistCreditParser>(
                model.credits,
                model.item.extraartists,
                token,
            );
            assert(model.step(token) == model.nested(token));
        },
        ParserState::Videos => {
            lemma_harvested_grows::<VideoParser>(model.videos, model.item.videos, token);
            assert(model.step(token) == model.nested(token));
        },
        ParserState::TrackList => {
            lemma_harvested_grows::<TrackParser>(model.tracks, model.item.tracklist, token);
            assert(model.step(token) == model.nested(token));
        },
        ParserState::Companies => {
            lemma_harvested_grows::<CompanyParser>(model.companies, model.item.companies, token);
            assert(model.step(token) == model.nested(token));
        },
        ParserState::Genres => {
            lemma_texts_grow(model.item.genres, token, "genres");
            assert(model.step(token) == model.listed(token));
        },
        ParserState::Styles => {
            lemma_texts_grow(model.item.styles, token, "styles");
            assert(model.step(token) == model.listed(token));
        },
        ParserState::Format => {
            lemma_formats_grow(model.item.formats, token);
            assert(model.step(token) == model.listed(token));
        },
        ParserState::Identifiers => {
            lemma_entries_grow(
                model.item.labels,
                model.item.identifiers,
                token,
                "labels",
                "label",
            );
            assert(model.step(token) == model.listed(token));
        },
        ParserState::Labels => {
            lemma_entries_grow(
                model.item.labels,
                model.item.identifiers,
                token,
                "labels",
                "label",
            );
            assert(model.step(token) == model.listed(token));
        },
        ParserState::Series => {
            lemma_entries_grow(
                model.item.series,
                model.item.identifiers,
                token,
                "series",
                "series",
            );
            assert(model.step(token) == model.listed(token));
        },
        ParserState::Images => {
            lemma_pictures_grow(model.item.images, token);
            assert(model.step(token) == model.listed(token));
        },
        _ => {
            assert(model.step(token) == model.scalar(token));
        },
    }
}

} // verus!
