//! Artists: the record, its parser and its builder.
use crate::parser::{bare_element, element, fed, Parser, ParserError};
use crate::reader::{lemma_quiet_element, passes_over};
use crate::shared::{
    Image, ImageView, lemma_pictures_grow, lemma_texts_grow, pictures, read_pictures, read_texts,
    texts,
};
use crate::token::{Tag, Token, is_named, is_word, lemma_words_differ, local_name, named};
use crate::util::{
    attr_u32, empty_list, maybe_text, optional_attribute, optional_text_of, push_back, text,
    text_of, text_u32, u32_attribute, u32_text,
};
use vstd::prelude::*;
use vstd::string::*;

verus! {

/// Another artist that an artist is tied to: an alias, a member, a group.
#[derive(Clone, Debug, PartialEq, Eq)]
pub struct ArtistInfo {
    pub id: u32,
    pub name: String,
}

/// The value of an [`ArtistInfo`].
pub struct ArtistInfoView {
    pub id: u32,
    pub name: Seq<char>,
}

impl View for ArtistInfo {
    type V = ArtistInfoView;

    open spec fn view(&self) -> ArtistInfoView {
        ArtistInfoView { id: self.id, name: self.name@ }
    }
}

impl DeepView for ArtistInfo {
    type V = ArtistInfoView;

    open spec fn deep_view(&self) -> ArtistInfoView {
        self@
    }
}

impl Default for ArtistInfo {
    fn default() -> (info: ArtistInfo)
        ensures
            info@ == (ArtistInfoView { id: 0, name: Seq::empty() }),
    {
        ArtistInfo { id: 0, name: String::new() }
    }
}

/// One artist of the catalog.
#[derive(Clone, Debug, PartialEq, Eq)]
pub struct Artist {
    pub id: u32,
    pub name: String,
    pub real_name: Option<String>,
    pub profile: Option<String>,
    pub data_quality: String,
    pub name_variations: Vec<String>,
    pub urls: Vec<String>,
    pub aliases: Vec<ArtistInfo>,
    pub members: Vec<ArtistInfo>,
    pub groups: Vec<ArtistInfo>,
    pub images: Vec<Image>,
}

/// The value of an [`Artist`]. Every list is in document order.
pub struct ArtistView {
    pub id: u32,
    pub name: Seq<char>,
    pub real_name: Option<Seq<char>>,
    pub profile: Option<Seq<char>>,
    pub data_quality: Seq<char>,
    pub name_variations: Seq<Seq<char>>,
    pub urls: Seq<Seq<char>>,
    pub aliases: Seq<ArtistInfoView>,
    pub members: Seq<ArtistInfoView>,
    pub groups: Seq<ArtistInfoView>,
    pub images: Seq<ImageView>,
}

impl View for Artist {
    type V = ArtistView;

    open spec fn view(&self) -> ArtistView {
        ArtistView {
            id: self.id,
            name: self.name@,
            real_name: self.real_name.deep_view(),
            profile: self.profile.deep_view(),
            data_quality: self.data_quality@,
            name_variations: self.name_variations.deep_view(),
            urls: self.urls.deep_view(),
            aliases: self.aliases.deep_view(),
            members: self.members.deep_view(),
            groups: self.groups.deep_view(),
            images: self.images.deep_view(),
        }
    }
}

impl DeepView for Artist {
    type V = ArtistView;

    open spec fn deep_view(&self) -> ArtistView {
        self@
    }
}

impl ArtistView {
    /// The artist with no field set.
    pub open spec fn empty() -> ArtistView {
        ArtistView {
            id: 0,
            name: Seq::empty(),
            real_name: None,
            profile: None,
            data_quality: Seq::empty(),
            name_variations: Seq::empty(),
            urls: Seq::empty(),
            aliases: Seq::empty(),
            members: Seq::empty(),
            groups: Seq::empty(),
            images: Seq::empty(),
        }
    }
}

impl Default for Artist {
    fn default() -> (artist: Artist)
        ensures
            artist@ == ArtistView::empty(),
    {
        Artist {
            id: 0,
            name: String::new(),
            real_name: None,
            profile: None,
            data_quality: String::new(),
            name_variations: empty_list(),
            urls: empty_list(),
            aliases: empty_list(),
            members: empty_list(),
            groups: empty_list(),
            images: empty_list(),
        }
    }
}

impl Artist {
    /// Starts an artist with the given id and name, all else empty.
    pub fn builder(id: u32, name: &str) -> (builder: ArtistBuilder)
        ensures
            builder@ == (ArtistView { id, name: name@, ..ArtistView::empty() }),
    {
        let mut inner = Artist::default();
        inner.id = id;
        inner.name = name.to_owned();
        ArtistBuilder { inner }
    }

    /// The line that stands for the artist in a listing: the name.
    pub fn display(&self) -> (line: String)
        ensures
            line@ == self@.name,
    {
        self.name.clone()
    }
}

/// The entries of `list` with `name` as the name of the last one.
pub open spec fn named_last(list: Seq<ArtistInfoView>, name: Seq<char>) -> Seq<ArtistInfoView>
    recommends
        list.len() > 0,
{
    list.drop_last().push(ArtistInfoView { id: list.last().id, name })
}

/// Gives the last entry of `list` its name.
fn name_last(list: &mut Vec<ArtistInfo>, name: String)
    requires
        old(list).len() > 0,
    ensures
        final(list).deep_view() == named_last(old(list).deep_view(), name@),
{
    let ghost before = list.deep_view();
    match list.pop() {
        Some(last) => {
            assert(list.deep_view() =~= before.drop_last());
            push_back(list, ArtistInfo { id: last.id, name });
        },
        None => {},
    }
}

/// Where an artist parser stands in the record.
#[derive(Clone, Copy, Debug, PartialEq, Eq)]
pub enum ParserState {
    /// Between the fields of the record, or between records.
    Artist,
    Id,
    Name,
    RealName,
    Profile,
    DataQuality,
    NameVariations,
    Urls,
    Aliases,
    Members,
    /// Inside the `id` element that older dumps put before each member.
    MemberId,
    MemberName,
    Groups,
    Images,
}

/// The state machine that builds artists.
#[derive(Debug)]
pub struct ArtistParser {
    state: ParserState,
    current_item: Artist,
    item_ready: bool,
}

/// The state of an [`ArtistParser`].
pub struct ArtistParserView {
    pub state: ParserState,
    pub item: ArtistView,
    pub ready: bool,
}

impl View for ArtistParser {
    type V = ArtistParserView;

    closed spec fn view(&self) -> ArtistParserView {
        ArtistParserView {
            state: self.state,
            item: self.current_item@,
            ready: self.item_ready,
        }
    }
}

impl ArtistParserView {
    /// The same parser in another state.
    pub open spec fn at(self, state: ParserState) -> ArtistParserView {
        ArtistParserView { state, ..self }
    }

    /// The same parser in another state and with another record.
    pub open spec fn with(self, state: ParserState, item: ArtistView) -> ArtistParserView {
        ArtistParserView { state, item, ..self }
    }

    /// The state that a start tag leads to from between the fields. A tag
    /// that the record does not know leads nowhere.
    pub open spec fn opened(tag: &Tag) -> ParserState {
        if tag.is("artist") {
            ParserState::Artist
        } else if tag.is("id") {
            ParserState::Id
        } else if tag.is("name") {
            ParserState::Name
        } else if tag.is("realname") {
            ParserState::RealName
        } else if tag.is("profile") {
            ParserState::Profile
        } else if tag.is("data_quality") {
            ParserState::DataQuality
        } else if tag.is("urls") {
            ParserState::Urls
        } else if tag.is("namevariations") {
            ParserState::NameVariations
        } else if tag.is("aliases") {
            ParserState::Aliases
        } else if tag.is("members") {
            ParserState::Members
        } else if tag.is("groups") {
            ParserState::Groups
        } else if tag.is("images") {
            ParserState::Images
        } else {
            ParserState::Artist
        }
    }

    /// One token between the fields: a start tag opens its field, the end
    /// tag of the record completes it, anything else is passed over.
    pub open spec fn between(self, token: &Token) -> Result<ArtistParserView, ParserError> {
        match token {
            Token::Start(tag) => Ok(self.at(Self::opened(tag))),
            Token::End(name) => if named(name@, "artist") {
                Ok(ArtistParserView { ready: true, ..self })
            } else {
                Ok(self)
            },
            _ => Ok(self),
        }
    }

    /// One token inside a list of related artists (`section`), whose
    /// entries so far are `list`: a `name` tag opens an entry with the id of
    /// its attribute, a text names the last entry, the end tag of the
    /// section closes it. The result is the new list and whether the section
    /// is still open.
    pub open spec fn related(
        list: Seq<ArtistInfoView>,
        token: &Token,
        section: &str,
        what: &'static str,
    ) -> Result<(Seq<ArtistInfoView>, bool), ParserError> {
        match token {
            Token::Start(tag) => if tag.is("name") {
                match u32_attribute(tag, "id") {
                    Ok(id) => Ok((list.push(ArtistInfoView { id, name: Seq::empty() }), true)),
                    Err(error) => Err(error),
                }
            } else {
                Ok((list, true))
            },
            Token::Text(raw) => if list.len() == 0 {
                Err(ParserError::MissingData(what))
            } else {
                match text_of(raw@) {
                    Ok(name) => Ok((named_last(list, name), true)),
                    Err(error) => Err(error),
                }
            },
            Token::End(name) => Ok((list, !named(name@, section))),
            _ => Ok((list, true)),
        }
    }

    /// One token inside the list of members. Unlike an alias or a group, a
    /// member may be preceded by an `id` element, and its text is read only
    /// right after its `name` tag. A text that stands in the list itself is
    /// an error while the list is empty, and is passed over afterwards.
    pub open spec fn members(self, token: &Token) -> Result<ArtistParserView, ParserError> {
        match token {
            Token::Start(tag) => if tag.is("name") {
                match u32_attribute(tag, "id") {
                    Ok(id) => Ok(
                        self.with(
                            ParserState::MemberName,
                            ArtistView {
                                members: self.item.members.push(
                                    ArtistInfoView { id, name: Seq::empty() },
                                ),
                                ..self.item
                            },
                        ),
                    ),
                    Err(error) => Err(error),
                }
            } else if tag.is("id") {
                Ok(self.at(ParserState::MemberId))
            } else {
                Ok(self)
            },
            Token::Text(_) => if self.item.members.len() == 0 {
                Err(ParserError::MissingData("Artist member ID"))
            } else {
                Ok(self)
            },
            Token::End(name) => if named(name@, "members") {
                Ok(self.at(ParserState::Artist))
            } else {
                Ok(self)
            },
            _ => Ok(self),
        }
    }

    /// One token right after the `name` tag of a member.
    pub open spec fn member_name(self, token: &Token) -> Result<ArtistParserView, ParserError> {
        match token {
            Token::Text(raw) => if self.item.members.len() == 0 {
                Err(ParserError::MissingData("Artist member ID"))
            } else {
                match text_of(raw@) {
                    Ok(name) => Ok(
                        self.with(
                            ParserState::Members,
                            ArtistView {
                                members: named_last(self.item.members, name),
                                ..self.item
                            },
                        ),
                    ),
                    Err(error) => Err(error),
                }
            },
            _ => Ok(self.at(ParserState::Members)),
        }
    }

    /// The state after a token inside a section: the one it was in while
    /// the section is open, between the fields once it is closed.
    pub open spec fn section(self, open: bool, item: ArtistView) -> ArtistParserView {
        self.with(
            if open {
                self.state
            } else {
                ParserState::Artist
            },
            item,
        )
    }

    /// The transition function of the artist parser.
    pub open spec fn step(self, token: &Token) -> Result<ArtistParserView, ParserError> {
        match self.state {
            ParserState::Artist => self.between(token),
            ParserState::Id => match token {
                Token::Text(raw) => match u32_text(raw@) {
                    Ok(id) => Ok(self.with(self.state, ArtistView { id, ..self.item })),
                    Err(error) => Err(error),
                },
                _ => Ok(self.at(ParserState::Artist)),
            },
            ParserState::Name => match token {
                Token::Text(raw) => match text_of(raw@) {
                    Ok(name) => Ok(self.with(self.state, ArtistView { name, ..self.item })),
                    Err(error) => Err(error),
                },
                _ => Ok(self.at(ParserState::Artist)),
            },
            ParserState::RealName => match token {
                Token::Text(raw) => match optional_text_of(raw@) {
                    Ok(real_name) => Ok(
                        self.with(self.state, ArtistView { real_name, ..self.item }),
                    ),
                    Err(error) => Err(error),
                },
                _ => Ok(self.at(ParserState::Artist)),
            },
            ParserState::Profile => match token {
                Token::Text(raw) => match optional_text_of(raw@) {
                    Ok(profile) => Ok(self.with(self.state, ArtistView { profile, ..self.item })),
                    Err(error) => Err(error),
                },
                _ => Ok(self.at(ParserState::Artist)),
            },
            ParserState::DataQuality => match token {
                Token::Text(raw) => match text_of(raw@) {
                    Ok(data_quality) => Ok(
                        self.with(self.state, ArtistView { data_quality, ..self.item }),
                    ),
                    Err(error) => Err(error),
                },
                _ => Ok(self.at(ParserState::Artist)),
            },
            ParserState::Urls => match texts(self.item.urls, token, "urls") {
                Ok((urls, open)) => Ok(self.section(open, ArtistView { urls, ..self.item })),
                Err(error) => Err(error),
            },
            ParserState::NameVariations => match texts(
                self.item.name_variations,
                token,
                "namevariations",
            ) {
                Ok((name_variations, open)) => Ok(
                    self.section(open, ArtistView { name_variations, ..self.item }),
                ),
                Err(error) => Err(error),
            },
            ParserState::Aliases => match Self::related(
                self.item.aliases,
                token,
                "aliases",
                "Artist alias ID",
            ) {
                Ok((aliases, open)) => Ok(self.section(open, ArtistView { aliases, ..self.item })),
                Err(error) => Err(error),
            },
            ParserState::Groups => match Self::related(
                self.item.groups,
                token,
                "groups",
                "Artist group ID",
            ) {
                Ok((groups, open)) => Ok(self.section(open, ArtistView { groups, ..self.item })),
                Err(error) => Err(error),
            },
            ParserState::Members => self.members(token),
            ParserState::MemberId => match token {
                Token::Text(_) => Ok(self),
                _ => Ok(self.at(ParserState::Members)),
            },
            ParserState::MemberName => self.member_name(token),
            ParserState::Images => match pictures(self.item.images, token) {
                Ok((images, open)) => Ok(self.section(open, ArtistView { images, ..self.item })),
                Err(error) => Err(error),
            },
        }
    }
}

/// Reads one token inside a list of related artists; see
/// [`ArtistParserView::related`].
fn read_related(
    list: &mut Vec<ArtistInfo>,
    token: &Token,
    section: &str,
    what: &'static str,
) -> (result: Result<bool, ParserError>)
    ensures
        match ArtistParserView::related(old(list).deep_view(), token, section, what) {
            Ok((entries, open)) => result == Ok::<bool, ParserError>(open)
                && final(list).deep_view() == entries,
            Err(error) => result == Err::<bool, ParserError>(error) && final(list).deep_view()
                == old(list).deep_view(),
        },
{
    match token {
        Token::Start(tag) => {
            if is_named(tag.name.as_slice(), "name") {
                match attr_u32(tag, "id") {
                    Ok(id) => {
                        push_back(list, ArtistInfo { id, name: String::new() });
                        Ok(true)
                    },
                    Err(error) => Err(error),
                }
            } else {
                Ok(true)
            }
        },
        Token::Text(raw) => {
            if list.len() == 0 {
                Err(ParserError::MissingData(what))
            } else {
                match text(raw.as_slice()) {
                    Ok(name) => {
                        name_last(list, name);
                        Ok(true)
                    },
                    Err(error) => Err(error),
                }
            }
        },
        Token::End(name) => Ok(!is_named(name.as_slice(), section)),
        _ => Ok(true),
    }
}

impl ArtistParser {
    /// The state that a start tag leads to from between the fields.
    fn opened(tag: &Tag) -> (state: ParserState)
        ensures
            state == ArtistParserView::opened(tag),
    {
        let name = local_name(tag.name.as_slice());
        if is_word(name, "artist") {
            ParserState::Artist
        } else if is_word(name, "id") {
            ParserState::Id
        } else if is_word(name, "name") {
            ParserState::Name
        } else if is_word(name, "realname") {
            ParserState::RealName
        } else if is_word(name, "profile") {
            ParserState::Profile
        } else if is_word(name, "data_quality") {
            ParserState::DataQuality
        } else if is_word(name, "urls") {
            ParserState::Urls
        } else if is_word(name, "namevariations") {
            ParserState::NameVariations
        } else if is_word(name, "aliases") {
            ParserState::Aliases
        } else if is_word(name, "members") {
            ParserState::Members
        } else if is_word(name, "groups") {
            ParserState::Groups
        } else if is_word(name, "images") {
            ParserState::Images
        } else {
            ParserState::Artist
        }
    }

    /// Leaves the section where `open` says that it is closed.
    fn leave(&mut self, open: bool)
        ensures
            final(self)@ == old(self)@.section(open, old(self)@.item),
    {
        if !open {
            self.state = ParserState::Artist;
        }
    }

    fn between(&mut self, token: &Token)
        requires
            old(self)@.state == ParserState::Artist,
        ensures
            Ok::<ArtistParserView, ParserError>(final(self)@) == old(self)@.between(token),
    {
        match token {
            Token::Start(tag) => {
                self.state = Self::opened(tag);
            },
            Token::End(name) => {
                if is_named(name.as_slice(), "artist") {
                    self.item_ready = true;
                }
            },
            _ => {},
        }
    }

    fn members(&mut self, token: &Token) -> (result: Result<(), ParserError>)
        ensures
            match old(self)@.members(token) {
                Ok(next) => result is Ok && final(self)@ == next,
                Err(error) => result == Err::<(), ParserError>(error) && final(self)@ == old(self)@,
            },
    {
        match token {
            Token::Start(tag) => {
                if is_named(tag.name.as_slice(), "name") {
                    match attr_u32(tag, "id") {
                        Ok(id) => {
                            push_back(
                                &mut self.current_item.members,
                                ArtistInfo { id, name: String::new() },
                            );
                            self.state = ParserState::MemberName;
                        },
                        Err(error) => return Err(error),
                    }
                } else if is_named(tag.name.as_slice(), "id") {
                    self.state = ParserState::MemberId;
                }
            },
            Token::Text(_) => {
                if self.current_item.members.len() == 0 {
                    return Err(ParserError::MissingData("Artist member ID"));
                }
            },
            Token::End(name) => {
                if is_named(name.as_slice(), "members") {
                    self.state = ParserState::Artist;
                }
            },
            _ => {},
        }
        Ok(())
    }

    fn member_name(&mut self, token: &Token) -> (result: Result<(), ParserError>)
        ensures
            match old(self)@.member_name(token) {
                Ok(next) => result is Ok && final(self)@ == next,
                Err(error) => result == Err::<(), ParserError>(error) && final(self)@ == old(self)@,
            },
    {
        match token {
            Token::Text(raw) => {
                if self.current_item.members.len() == 0 {
                    return Err(ParserError::MissingData("Artist member ID"));
                }
                match text(raw.as_slice()) {
                    Ok(name) => {
                        name_last(&mut self.current_item.members, name);
                        self.state = ParserState::Members;
                    },
                    Err(error) => return Err(error),
                }
            },
            _ => {
                self.state = ParserState::Members;
            },
        }
        Ok(())
    }
}

impl Parser for ArtistParser {
    type Item = Artist;

    open spec fn fresh() -> ArtistParserView {
        ArtistParserView { state: ParserState::Artist, item: ArtistView::empty(), ready: false }
    }

    open spec fn step(model: ArtistParserView, token: &Token) -> Result<
        ArtistParserView,
        ParserError,
    > {
        model.step(token)
    }

    open spec fn ready(model: ArtistParserView) -> bool {
        model.ready
    }

    open spec fn item(model: ArtistParserView) -> ArtistView {
        model.item
    }

    open spec fn emptied(model: ArtistParserView) -> ArtistParserView {
        ArtistParserView { item: ArtistView::empty(), ready: false, ..model }
    }

    proof fn lemma_emptied_slot(model: ArtistParserView) {
    }

    proof fn lemma_step_alike(model: ArtistParserView, a: &Token, b: &Token) {
    }

    proof fn lemma_fresh_not_ready() {
    }

    fn new() -> (parser: Self) {
        ArtistParser {
            state: ParserState::Artist,
            current_item: Artist::default(),
            item_ready: false,
        }
    }

    fn item_ready(&self) -> (ready: bool) {
        self.item_ready
    }

    fn take(&mut self) -> (item: Artist) {
        self.item_ready = false;
        let mut item = Artist::default();
        std::mem::swap(&mut self.current_item, &mut item);
        item
    }

    fn process(&mut self, token: &Token) -> (result: Result<(), ParserError>) {
        match self.state {
            ParserState::Artist => {
                self.between(token);
            },
            ParserState::Id => match token {
                Token::Text(raw) => match text_u32(raw.as_slice()) {
                    Ok(id) => {
                        self.current_item.id = id;
                    },
                    Err(error) => return Err(error),
                },
                _ => {
                    self.state = ParserState::Artist;
                },
            },
            ParserState::Name => match token {
                Token::Text(raw) => match text(raw.as_slice()) {
                    Ok(name) => {
                        self.current_item.name = name;
                    },
                    Err(error) => return Err(error),
                },
                _ => {
                    self.state = ParserState::Artist;
                },
            },
            ParserState::RealName => match token {
                Token::Text(raw) => match maybe_text(raw.as_slice()) {
                    Ok(real_name) => {
                        self.current_item.real_name = real_name;
                    },
                    Err(error) => return Err(error),
                },
                _ => {
                    self.state = ParserState::Artist;
                },
            },
            ParserState::Profile => match token {
                Token::Text(raw) => match maybe_text(raw.as_slice()) {
                    Ok(profile) => {
                        self.current_item.profile = profile;
                    },
                    Err(error) => return Err(error),
                },
                _ => {
                    self.state = ParserState::Artist;
                },
            },
            ParserState::DataQuality => match token {
                Token::Text(raw) => match text(raw.as_slice()) {
                    Ok(data_quality) => {
                        self.current_item.data_quality = data_quality;
                    },
                    Err(error) => return Err(error),
                },
                _ => {
                    self.state = ParserState::Artist;
                },
            },
            ParserState::Urls => match read_texts(&mut self.current_item.urls, token, "urls") {
                Ok(open) => self.leave(open),
                Err(error) => return Err(error),
            },
            ParserState::NameVariations => match read_texts(
                &mut self.current_item.name_variations,
                token,
                "namevariations",
            ) {
                Ok(open) => self.leave(open),
                Err(error) => return Err(error),
            },
            ParserState::Aliases => match read_related(
                &mut self.current_item.aliases,
                token,
                "aliases",
                "Artist alias ID",
            ) {
                Ok(open) => self.leave(open),
                Err(error) => return Err(error),
            },
            ParserState::Groups => match read_related(
                &mut self.current_item.groups,
                token,
                "groups",
                "Artist group ID",
            ) {
                Ok(open) => self.leave(open),
                Err(error) => return Err(error),
            },
            ParserState::Members => return self.members(token),
            ParserState::MemberId => match token {
                Token::Text(_) => {},
                _ => {
                    self.state = ParserState::Members;
                },
            },
            ParserState::MemberName => return self.member_name(token),
            ParserState::Images => match read_pictures(&mut self.current_item.images, token) {
                Ok(open) => self.leave(open),
                Err(error) => return Err(error),
            },
        }
        Ok(())
    }
}

/// The start tags that an artist knows, each with the state that it leads
/// to from between the fields.
pub proof fn lemma_artist_fields(tag: &Tag)
    ensures
        tag.is("artist") ==> ArtistParserView::opened(tag) == ParserState::Artist,
        tag.is("id") ==> ArtistParserView::opened(tag) == ParserState::Id,
        tag.is("name") ==> ArtistParserView::opened(tag) == ParserState::Name,
        tag.is("realname") ==> ArtistParserView::opened(tag) == ParserState::RealName,
        tag.is("profile") ==> ArtistParserView::opened(tag) == ParserState::Profile,
        tag.is("data_quality") ==> ArtistParserView::opened(tag) == ParserState::DataQuality,
        tag.is("urls") ==> ArtistParserView::opened(tag) == ParserState::Urls,
        tag.is("namevariations") ==> ArtistParserView::opened(tag) == ParserState::NameVariations,
        tag.is("aliases") ==> ArtistParserView::opened(tag) == ParserState::Aliases,
        tag.is("members") ==> ArtistParserView::opened(tag) == ParserState::Members,
        tag.is("groups") ==> ArtistParserView::opened(tag) == ParserState::Groups,
        tag.is("images") ==> ArtistParserView::opened(tag) == ParserState::Images,
{
    lemma_words_differ();
    reveal_strlit("artist");
    reveal_strlit("id");
    reveal_strlit("name");
    reveal_strlit("realname");
    reveal_strlit("profile");
    reveal_strlit("data_quality");
    reveal_strlit("urls");
    reveal_strlit("namevariations");
    reveal_strlit("aliases");
    reveal_strlit("members");
    reveal_strlit("groups");
    reveal_strlit("images");
}

/// An artist does not leak into the next: the token that completes a
/// record leaves the parser as a fresh one, and the record that is handed
/// out is the one that was being built.
pub proof fn lemma_artist_rests(model: ArtistParserView, token: &Token)
    requires
        !model.ready,
    ensures
        fed::<ArtistParser>(model, token) matches Ok((next, Some(item))) ==> next
            == ArtistParser::fresh() && item == model.item,
        fed::<ArtistParser>(model, token) matches Ok((next, _)) ==> !next.ready,
{
}

/// An optional element that is there with nothing in it, or with white
/// space only, leaves an artist as it is, as if the element were absent:
/// `<realname></realname>`, `<realname> </realname>` and `<realname/>`, and
/// the same for the profile.
pub proof fn lemma_artist_blank_is_absent(
    model: ArtistParserView,
    open: Tag,
    text: Vec<u8>,
    close: Vec<u8>,
)
    requires
        !model.ready,
        model.state == ParserState::Artist,
        open.is("realname") && model.item.real_name is None || open.is("profile")
            && model.item.profile is None,
        optional_text_of(text@) == Ok::<Option<Seq<char>>, ParserError>(None),
    ensures
        passes_over::<ArtistParser>(model, bare_element(open, close)),
        passes_over::<ArtistParser>(model, element(open, text, close)),
        passes_over::<ArtistParser>(model, seq![Token::Empty(open)]),
{
    lemma_artist_fields(&open);
    lemma_quiet_element::<ArtistParser>(model, open, text, close);
}

/// An entry of a list of related artists cannot do without its id: a
/// `name` tag whose `id` attribute is absent or empty is an error.
pub proof fn lemma_artist_entry_needs_id(model: ArtistParserView, tag: Tag)
    requires
        model.state == ParserState::Aliases || model.state == ParserState::Groups || model.state
            == ParserState::Members,
        tag.is("name"),
        optional_attribute(&tag, "id") == Ok::<Option<Seq<char>>, ParserError>(None),
    ensures
        model.step(&Token::Start(tag)) == Err::<ArtistParserView, ParserError>(
            ParserError::MissingAttr("id"),
        ),
{
}

/// A text cannot name an entry that was never opened: in a list of related
/// artists that is still empty, a text is an error.
pub proof fn lemma_artist_text_needs_entry(model: ArtistParserView, text: Vec<u8>)
    ensures
        model.state == ParserState::Aliases && model.item.aliases.len() == 0 ==> model.step(
            &Token::Text(text),
        ) == Err::<ArtistParserView, ParserError>(ParserError::MissingData("Artist alias ID")),
        model.state == ParserState::Groups && model.item.groups.len() == 0 ==> model.step(
            &Token::Text(text),
        ) == Err::<ArtistParserView, ParserError>(ParserError::MissingData("Artist group ID")),
        (model.state == ParserState::Members || model.state == ParserState::MemberName)
            && model.item.members.len() == 0 ==> model.step(&Token::Text(text)) == Err::<
            ArtistParserView,
            ParserError,
        >(ParserError::MissingData("Artist member ID")),
{
}

/// Older dumps put an `id` element before each member, newer ones do not.
/// The element is passed over, so both give the same artist.
pub proof fn lemma_member_id_is_skipped(
    model: ArtistParserView,
    open: Tag,
    text: Vec<u8>,
    close: Vec<u8>,
)
    requires
        !model.ready,
        model.state == ParserState::Members,
        open.is("id"),
    ensures
        passes_over::<ArtistParser>(model, element(open, text, close)),
        passes_over::<ArtistParser>(model, bare_element(open, close)),
{
    lemma_words_differ();
    reveal_strlit("id");
    reveal_strlit("name");
    lemma_quiet_element::<ArtistParser>(model, open, text, close);
}

/// An element that an artist does not know is passed over with its text,
/// so a dump that has gained an element gives the same artist as before.
pub proof fn lemma_artist_skips_unknown(
    model: ArtistParserView,
    open: Tag,
    text: Vec<u8>,
    close: Vec<u8>,
)
    requires
        !model.ready,
        model.state == ParserState::Artist,
        ArtistParserView::opened(&open) == ParserState::Artist,
        !named(close@, "artist"),
    ensures
        passes_over::<ArtistParser>(model, element(open, text, close)),
        passes_over::<ArtistParser>(model, bare_element(open, close)),
        passes_over::<ArtistParser>(model, seq![Token::Empty(open)]),
{
    lemma_quiet_element::<ArtistParser>(model, open, text, close);
}

/// Builds an [`Artist`] field by field.
pub struct ArtistBuilder {
    inner: Artist,
}

impl View for ArtistBuilder {
    type V = ArtistView;

    closed spec fn view(&self) -> ArtistView {
        self.inner@
    }
}

impl ArtistBuilder {
    pub fn id(self, id: u32) -> (builder: Self)
        ensures
            builder@ == (ArtistView { id, ..self@ }),
    {
        let mut builder = self;
        builder.inner.id = id;
        builder
    }

    pub fn name(self, name: &str) -> (builder: Self)
        ensures
            builder@ == (ArtistView { name: name@, ..self@ }),
    {
        let mut builder = self;
        builder.inner.name = name.to_owned();
        builder
    }

    pub fn real_name(self, real_name: &str) -> (builder: Self)
        ensures
            builder@ == (ArtistView { real_name: Some(real_name@), ..self@ }),
    {
        let mut builder = self;
        builder.inner.real_name = Some(real_name.to_owned());
        builder
    }

    pub fn profile(self, profile: &str) -> (builder: Self)
        ensures
            builder@ == (ArtistView { profile: Some(profile@), ..self@ }),
    {
        let mut builder = self;
        builder.inner.profile = Some(profile.to_owned());
        builder
    }

    pub fn data_quality(self, data_quality: &str) -> (builder: Self)
        ensures
            builder@ == (ArtistView { data_quality: data_quality@, ..self@ }),
    {
        let mut builder = self;
        builder.inner.data_quality = data_quality.to_owned();
        builder
    }

    pub fn name_variation(self, name_variation: &str) -> (builder: Self)
        ensures
            builder@ == (ArtistView {
                name_variations: self@.name_variations.push(name_variation@),
                ..self@
            }),
    {
        let mut builder = self;
        push_back(&mut builder.inner.name_variations, name_variation.to_owned());
        builder
    }

    pub fn url(self, url: &str) -> (builder: Self)
        ensures
            builder@ == (ArtistView { urls: self@.urls.push(url@), ..self@ }),
    {
        let mut builder = self;
        push_back(&mut builder.inner.urls, url.to_owned());
        builder
    }

    pub fn alias(self, id: u32, name: &str) -> (builder: Self)
        ensures
            builder@ == (ArtistView {
                aliases: self@.aliases.push(ArtistInfoView { id, name: name@ }),
                ..self@
            }),
    {
        let mut builder = self;
        push_back(&mut builder.inner.aliases, ArtistInfo { id, name: name.to_owned() });
        builder
    }

    pub fn member(self, id: u32, name: &str) -> (builder: Self)
        ensures
            builder@ == (ArtistView {
                members: self@.members.push(ArtistInfoView { id, name: name@ }),
                ..self@
            }),
    {
        let mut builder = self;
        push_back(&mut builder.inner.members, ArtistInfo { id, name: name.to_owned() });
        builder
    }

    pub fn group(self, id: u32, name: &str) -> (builder: Self)
        ensures
            builder@ == (ArtistView {
                groups: self@.groups.push(ArtistInfoView { id, name: name@ }),
                ..self@
            }),
    {
        let mut builder = self;
        push_back(&mut builder.inner.groups, ArtistInfo { id, name: name.to_owned() });
        builder
    }

    pub fn image(self, ty: &str, width: i16, height: i16) -> (builder: Self)
        ensures
            builder@ == (ArtistView {
                images: self@.images.push(
                    ImageView { ty: ty@, uri: None, uri150: None, width, height },
                ),
                ..self@
            }),
    {
        let mut builder = self;
        push_back(&mut builder.inner.images, Image::sized(ty, width, height));
        builder
    }

    pub fn build(self) -> (artist: Artist)
        ensures
            artist@ == self@,
    {
        self.inner
    }
}

/// Whether `after` holds all that `before` held, in the same places, but
/// that the name of the last entry of `before` may have changed.
pub open spec fn entries_kept(before: Seq<ArtistInfoView>, after: Seq<ArtistInfoView>) -> bool {
    &&& before.len() <= after.len()
    &&& forall|i: int| 0 <= i < before.len() ==> (#[trigger] after[i]).id == before[i].id
    &&& forall|i: int| 0 <= i < before.len() - 1 ==> #[trigger] after[i] == before[i]
}

/// Whether `next` holds, in every list, all that `item` held, in the same
/// places: plain lists only grow at their end; in a list of related
/// artists, the one thing that can change in an entry is the name of the
/// last.
pub open spec fn lists_kept(item: ArtistView, next: ArtistView) -> bool {
    &&& item.name_variations.is_prefix_of(next.name_variations)
    &&& item.urls.is_prefix_of(next.urls)
    &&& item.images.is_prefix_of(next.images)
    &&& entries_kept(item.aliases, next.aliases)
    &&& entries_kept(item.members, next.members)
    &&& entries_kept(item.groups, next.groups)
}

/// A record keeps all of its own lists.
proof fn lemma_artist_lists_same(item: ArtistView)
    ensures
        lists_kept(item, item),
{
    assert(item.urls =~= item.urls.subrange(0, item.urls.len() as int));
    assert(item.name_variations =~= item.name_variations.subrange(
        0,
        item.name_variations.len() as int,
    ));
    assert(item.images =~= item.images.subrange(0, item.images.len() as int));
}

/// A list of related artists keeps its entries: a token may add one at
/// the end or name the last, and nothing else.
pub proof fn lemma_related_kept(
    list: Seq<ArtistInfoView>,
    token: &Token,
    section: &str,
    what: &'static str,
)
    ensures
        ArtistParserView::related(list, token, section, what) matches Ok((after, _))
            ==> entries_kept(list, after),
{
}

/// The lists of an artist keep document order: a token never takes an
/// entry away and never puts one before another.
pub proof fn lemma_artist_lists_grow(model: ArtistParserView, token: &Token)
    ensures
        model.step(token) matches Ok(next) ==> lists_kept(model.item, next.item),
{
    lemma_artist_lists_same(model.item);
    match model.state {
        ParserState::Artist => {
            assert(model.step(token) == model.between(token));
        },
        ParserState::Urls => {
            lemma_texts_grow(model.item.urls, token, "urls");
        },
        ParserState::NameVariations => {
            lemma_texts_grow(model.item.name_variations, token, "namevariations");
        },
        ParserState::Images => {
            lemma_pictures_grow(model.item.images, token);
        },
        ParserState::Aliases => {
            lemma_related_kept(model.item.aliases, token, "aliases", "Artist alias ID");
        },
        ParserState::Groups => {
            lemma_related_kept(model.item.groups, token, "groups", "Artist group ID");
        },
        ParserState::Members => {
            assert(model.step(token) == model.members(token));
            assert(model.members(token) matches Ok(next) ==> entries_kept(
                model.item.members,
                next.item.members,
            ));
        },
        ParserState::MemberName => {
            assert(model.step(token) == model.member_name(token));
            assert(model.member_name(token) matches Ok(next) ==> entries_kept(
                model.item.members,
                next.item.members,
            ));
        },
        _ => {},
    }
}

} // verus!
