//! Labels: the record, its parser and its builder.
use crate::parser::{bare_element, element, fed, Parser, ParserError};
use crate::reader::{lemma_quiet_element, passes_over};
use crate::shared::{
    Image, ImageView, lemma_pictures_grow, lemma_texts_grow, pictures, read_pictures, read_texts,
    texts,
};
use crate::token::{Tag, Token, is_named, is_word, lemma_words_differ, local_name, named};
use crate::util::{
    attr_u32, empty_list, maybe_text, optional_attribute, optional_text_of, push_back, text,
    text_of, text_u32, u32_attribute, u32_text,
};
use vstd::prelude::*;
use vstd::string::*;

verus! {

/// Another label that a label is tied to: its parent, a sublabel.
#[derive(Clone, Debug, PartialEq, Eq)]
pub struct LabelInfo {
    pub id: u32,
    pub name: String,
}

/// The value of a [`LabelInfo`].
pub struct LabelInfoView {
    pub id: u32,
    pub name: Seq<char>,
}

impl View for LabelInfo {
    type V = LabelInfoView;

    open spec fn view(&self) -> LabelInfoView {
        LabelInfoView { id: self.id, name: self.name@ }
    }
}

impl DeepView for LabelInfo {
    type V = LabelInfoView;

    open spec fn deep_view(&self) -> LabelInfoView {
        self@
    }
}

impl Default for LabelInfo {
    fn default() -> (info: LabelInfo)
        ensures
            info@ == (LabelInfoView { id: 0, name: Seq::empty() }),
    {
        LabelInfo { id: 0, name: String::new() }
    }
}

/// One label of the catalog.
#[derive(Clone, Debug, PartialEq, Eq)]
pub struct Label {
    pub id: u32,
    pub name: String,
    pub contactinfo: Option<String>,
    pub profile: Option<String>,
    pub parent_label: Option<LabelInfo>,
    pub sublabels: Vec<LabelInfo>,
    pub urls: Vec<String>,
    pub data_quality: String,
    pub images: Vec<Image>,
}

/// The value of a [`Label`]. Every list is in document order.
pub struct LabelView {
    pub id: u32,
    pub name: Seq<char>,
    pub contactinfo: Option<Seq<char>>,
    pub profile: Option<Seq<char>>,
    pub parent_label: Option<LabelInfoView>,
    pub sublabels: Seq<LabelInfoView>,
    pub urls: Seq<Seq<char>>,
    pub data_quality: Seq<char>,
    pub images: Seq<ImageView>,
}

impl View for Label {
    type V = LabelView;

    open spec fn view(&self) -> LabelView {
        LabelView {
            id: self.id,
            name: self.name@,
            contactinfo: self.contactinfo.deep_view(),
            profile: self.profile.deep_view(),
            parent_label: self.parent_label.deep_view(),
            sublabels: self.sublabels.deep_view(),
            urls: self.urls.deep_view(),
            data_quality: self.data_quality@,
            images: self.images.deep_view(),
        }
    }
}

impl DeepView for Label {
    type V = LabelView;

    open spec fn deep_view(&self) -> LabelView {
        self@
    }
}

impl LabelView {
    /// The label with no field set.
    pub open spec fn empty() -> LabelView {
        LabelView {
            id: 0,
            name: Seq::empty(),
            contactinfo: None,
            profile: None,
            parent_label: None,
            sublabels: Seq::empty(),
            urls: Seq::empty(),
            data_quality: Seq::empty(),
            images: Seq::empty(),
        }
    }
}

impl Default for Label {
    fn default() -> (label: Label)
        ensures
            label@ == LabelView::empty(),
    {
        Label {
            id: 0,
            name: String::new(),
            contactinfo: None,
            profile: None,
            parent_label: None,
            sublabels: empty_list(),
            urls: empty_list(),
            data_quality: String::new(),
            images: empty_list(),
        }
    }
}

impl Label {
    /// Starts a label with the given id and name, all else empty.
    pub fn builder(id: u32, name: &str) -> (builder: LabelBuilder)
        ensures
            builder@ == (LabelView { id, name: name@, ..LabelView::empty() }),
    {
        let mut inner = Label::default();
        inner.id = id;
        inner.name = name.to_owned();
        LabelBuilder { inner }
    }

    /// The line that stands for the label in a listing: the name.
    pub fn display(&self) -> (line: String)
        ensures
            line@ == self@.name,
    {
        self.name.clone()
    }
}

/// Where a label parser stands in the record.
#[derive(Clone, Copy, Debug, PartialEq, Eq)]
pub enum ParserState {
    /// Between the fields of the record, or between records.
    Label,
    Name,
    Id,
    Images,
    Contactinfo,
    Profile,
    ParentLabel,
    /// Inside the list of sublabels, between two of them.
    Sublabels,
    /// Inside one sublabel.
    Sublabel,
    Urls,
    DataQuality,
}

/// The state machine that builds labels.
#[derive(Debug)]
pub struct LabelParser {
    state: ParserState,
    current_item: Label,
    current_sublabel_id: Option<u32>,
    current_parent_id: Option<u32>,
    item_ready: bool,
}

/// The state of a [`LabelParser`].
pub struct LabelParserView {
    pub state: ParserState,
    pub item: LabelView,
    /// The id of the sublabel whose name is awaited.
    pub sublabel_id: Option<u32>,
    /// The id of the parent whose name is awaited.
    pub parent_id: Option<u32>,
    pub ready: bool,
}

impl View for LabelParser {
    type V = LabelParserView;

    closed spec fn view(&self) -> LabelParserView {
        LabelParserView {
            state: self.state,
            item: self.current_item@,
            sublabel_id: self.current_sublabel_id,
            parent_id: self.current_parent_id,
            ready: self.item_ready,
        }
    }
}

impl LabelParserView {
    /// The same parser in another state.
    pub open spec fn at(self, state: ParserState) -> LabelParserView {
        LabelParserView { state, ..self }
    }

    /// The same parser in another state and with another record.
    pub open spec fn with(self, state: ParserState, item: LabelView) -> LabelParserView {
        LabelParserView { state, item, ..self }
    }

    /// The state after a token inside a section: the one it was in while
    /// the section is open, between the fields once it is closed.
    pub open spec fn section(self, open: bool, item: LabelView) -> LabelParserView {
        self.with(
            if open {
                self.state
            } else {
                ParserState::Label
            },
            item,
        )
    }

    /// The state that the start tag of a field or of a section leads to
    /// from between the fields. A tag that the record does not know leads
    /// nowhere.
    pub open spec fn field(tag: &Tag) -> ParserState {
        if tag.is("name") {
            ParserState::Name
        } else if tag.is("id") {
            ParserState::Id
        } else if tag.is("contactinfo") {
            ParserState::Contactinfo
        } else if tag.is("profile") {
            ParserState::Profile
        } else if tag.is("sublabels") {
            ParserState::Sublabels
        } else if tag.is("urls") {
            ParserState::Urls
        } else if tag.is("images") {
            ParserState::Images
        } else if tag.is("data_quality") {
            ParserState::DataQuality
        } else {
            ParserState::Label
        }
    }

    /// One start tag between the fields. The tag of the label itself opens
    /// nothing. The tag of the parent carries the id of the parent, which
    /// must be there, and opens the field of the parent. Any other tag opens
    /// its field.
    pub open spec fn opened(self, tag: &Tag) -> Result<LabelParserView, ParserError> {
        if tag.is("label") {
            Ok(self)
        } else if tag.is("parentLabel") {
            match u32_attribute(tag, "id") {
                Ok(id) => Ok(
                    LabelParserView {
                        state: ParserState::ParentLabel,
                        parent_id: Some(id),
                        ..self
                    },
                ),
                Err(error) => Err(error),
            }
        } else {
            Ok(self.at(Self::field(tag)))
        }
    }

    /// One token between the fields.
    pub open spec fn between(self, token: &Token) -> Result<LabelParserView, ParserError> {
        match token {
            Token::Start(tag) => self.opened(tag),
            Token::End(name) => if named(name@, "label") {
                Ok(LabelParserView { ready: true, ..self })
            } else {
                Ok(self)
            },
            _ => Ok(self),
        }
    }

    /// One token inside a field that holds one text or one number: the
    /// text is read into the field and the field stays open; any other
    /// token closes it.
    pub open spec fn scalar(self, token: &Token) -> Result<LabelParserView, ParserError> {
        match token {
            Token::Text(raw) => match self.state {
                ParserState::Id => match u32_text(raw@) {
                    Ok(id) => Ok(self.with(self.state, LabelView { id, ..self.item })),
                    Err(error) => Err(error),
                },
                ParserState::Name => match text_of(raw@) {
                    Ok(name) => Ok(self.with(self.state, LabelView { name, ..self.item })),
                    Err(error) => Err(error),
                },
                ParserState::Contactinfo => match optional_text_of(raw@) {
                    Ok(contactinfo) => Ok(
                        self.with(self.state, LabelView { contactinfo, ..self.item }),
                    ),
                    Err(error) => Err(error),
                },
                ParserState::Profile => match optional_text_of(raw@) {
                    Ok(profile) => Ok(self.with(self.state, LabelView { profile, ..self.item })),
                    Err(error) => Err(error),
                },
                ParserState::DataQuality => match text_of(raw@) {
                    Ok(data_quality) => Ok(
                        self.with(self.state, LabelView { data_quality, ..self.item }),
                    ),
                    Err(error) => Err(error),
                },
                _ => Ok(self),
            },
            _ => Ok(self.at(ParserState::Label)),
        }
    }

    /// One token inside the field of the parent: a text is the name of the
    /// parent whose id the tag gave, and uses that id up; any other token
    /// closes the field.
    pub open spec fn parent(self, token: &Token) -> Result<LabelParserView, ParserError> {
        match token {
            Token::Text(raw) => match self.parent_id {
                Some(id) => match text_of(raw@) {
                    Ok(name) => Ok(
                        LabelParserView {
                            item: LabelView {
                                parent_label: Some(LabelInfoView { id, name }),
                                ..self.item
                            },
                            parent_id: None,
                            ..self
                        },
                    ),
                    Err(error) => Err(error),
                },
                None => Err(ParserError::MissingData("Label parent ID")),
            },
            _ => Ok(self.at(ParserState::Label)),
        }
    }

    /// One token inside the list of sublabels, between two of them: a
    /// `label` tag carries the id of a sublabel, which must be there, and
    /// opens it; the end tag of the list closes it. A text that stands in
    /// the list itself is an error while the list is empty, and is passed
    /// over afterwards.
    pub open spec fn sublabels(self, token: &Token) -> Result<LabelParserView, ParserError> {
        match token {
            Token::Start(tag) => if tag.is("label") {
                match u32_attribute(tag, "id") {
                    Ok(id) => Ok(
                        LabelParserView {
                            state: ParserState::Sublabel,
                            sublabel_id: Some(id),
                            ..self
                        },
                    ),
                    Err(error) => Err(error),
                }
            } else {
                Ok(self)
            },
            Token::Text(_) => if self.item.sublabels.len() == 0 {
                Err(ParserError::MissingData("Label sublabel ID"))
            } else {
                Ok(self)
            },
            Token::End(name) => if named(name@, "sublabels") {
                Ok(self.at(ParserState::Label))
            } else {
                Ok(self)
            },
            _ => Ok(self),
        }
    }

    /// One token inside a sublabel: a text is the name of the sublabel
    /// whose id the tag gave, and uses that id up; whatever the token, the
    /// sublabel is closed afterwards.
    pub open spec fn sublabel(self, token: &Token) -> Result<LabelParserView, ParserError> {
        match token {
            Token::Text(raw) => match self.sublabel_id {
                Some(id) => match text_of(raw@) {
                    Ok(name) => Ok(
                        LabelParserView {
                            state: ParserState::Sublabels,
                            item: LabelView {
                                sublabels: self.item.sublabels.push(LabelInfoView { id, name }),
                                ..self.item
                            },
                            sublabel_id: None,
                            ..self
                        },
                    ),
                    Err(error) => Err(error),
                },
                None => Err(ParserError::MissingData("Label sublabel ID")),
            },
            _ => Ok(self.at(ParserState::Sublabels)),
        }
    }

    /// The transition function of the label parser.
    pub open spec fn step(self, token: &Token) -> Result<LabelParserView, ParserError> {
        match self.state {
            ParserState::Label => self.between(token),
            ParserState::Id | ParserState::Name | ParserState::Contactinfo | ParserState::Profile
            | ParserState::DataQuality => self.scalar(token),
            ParserState::ParentLabel => self.parent(token),
            ParserState::Sublabels => self.sublabels(token),
            ParserState::Sublabel => self.sublabel(token),
            ParserState::Urls => match texts(self.item.urls, token, "urls") {
                Ok((urls, open)) => Ok(self.section(open, LabelView { urls, ..self.item })),
                Err(error) => Err(error),
            },
            ParserState::Images => match pictures(self.item.images, token) {
                Ok((images, open)) => Ok(self.section(open, LabelView { images, ..self.item })),
                Err(error) => Err(error),
            },
        }
    }
}

impl LabelParser {
    fn field(tag: &Tag) -> (state: ParserState)
        ensures
            state == LabelParserView::field(tag),
    {
        let name = local_name(tag.name.as_slice());
        if is_word(name, "name") {
            ParserState::Name
        } else if is_word(name, "id") {
            ParserState::Id
        } else if is_word(name, "contactinfo") {
            ParserState::Contactinfo
        } else if is_word(name, "profile") {
            ParserState::Profile
        } else if is_word(name, "sublabels") {
            ParserState::Sublabels
        } else if is_word(name, "urls") {
            ParserState::Urls
        } else if is_word(name, "images") {
            ParserState::Images
        } else if is_word(name, "data_quality") {
            ParserState::DataQuality
        } else {
            ParserState::Label
        }
    }

    fn opened(&mut self, tag: &Tag) -> (result: Result<(), ParserError>)
        ensures
            match old(self)@.opened(tag) {
                Ok(next) => result is Ok && final(self)@ == next,
                Err(error) => result == Err::<(), ParserError>(error)
                    && final(self)@ == old(self)@,
            },
    {
        let name = local_name(tag.name.as_slice());
        if is_word(name, "label") {
        } else if is_word(name, "parentLabel") {
            match attr_u32(tag, "id") {
                Ok(id) => {
                    self.current_parent_id = Some(id);
                    self.state = ParserState::ParentLabel;
                },
                Err(error) => return Err(error),
            }
        } else {
            self.state = Self::field(tag);
        }
        Ok(())
    }

    fn scalar(&mut self, token: &Token) -> (result: Result<(), ParserError>)
        ensures
            match old(self)@.scalar(token) {
                Ok(next) => result is Ok && final(self)@ == next,
                Err(error) => result == Err::<(), ParserError>(error)
                    && final(self)@ == old(self)@,
            },
    {
        match token {
            Token::Text(raw) => match self.state {
                ParserState::Id => match text_u32(raw.as_slice()) {
                    Ok(id) => {
                        self.current_item.id = id;
                    },
                    Err(error) => return Err(error),
                },
                ParserState::Name => match text(raw.as_slice()) {
                    Ok(name) => {
                        self.current_item.name = name;
                    },
                    Err(error) => return Err(error),
                },
                ParserState::Contactinfo => match maybe_text(raw.as_slice()) {
                    Ok(contactinfo) => {
                        self.current_item.contactinfo = contactinfo;
                    },
                    Err(error) => return Err(error),
                },
                ParserState::Profile => match maybe_text(raw.as_slice()) {
                    Ok(profile) => {
                        self.current_item.profile = profile;
                    },
                    Err(error) => return Err(error),
                },
                ParserState::DataQuality => match text(raw.as_slice()) {
                    Ok(data_quality) => {
                        self.current_item.data_quality = data_quality;
                    },
                    Err(error) => return Err(error),
                },
                _ => {},
            },
            _ => {
                self.state = ParserState::Label;
            },
        }
        Ok(())
    }

    fn parent(&mut self, token: &Token) -> (result: Result<(), ParserError>)
        ensures
            match old(self)@.parent(token) {
                Ok(next) => result is Ok && final(self)@ == next,
                Err(error) => result == Err::<(), ParserError>(error)
                    && final(self)@ == old(self)@,
            },
    {
        match token {
            Token::Text(raw) => match self.current_parent_id {
                Some(id) => match text(raw.as_slice()) {
                    Ok(name) => {
                        self.current_item.parent_label = Some(LabelInfo { id, name });
                        self.current_parent_id = None;
                    },
                    Err(error) => return Err(error),
                },
                None => return Err(ParserError::MissingData("Label parent ID")),
            },
            _ => {
                self.state = ParserState::Label;
            },
        }
        Ok(())
    }

    fn sublabels(&mut self, token: &Token) -> (result: Result<(), ParserError>)
        ensures
            match old(self)@.sublabels(token) {
                Ok(next) => result is Ok && final(self)@ == next,
                Err(error) => result == Err::<(), ParserError>(error)
                    && final(self)@ == old(self)@,
            },
    {
        match token {
            Token::Start(tag) => {
                if is_named(tag.name.as_slice(), "label") {
                    match attr_u32(tag, "id") {
                        Ok(id) => {
                            self.current_sublabel_id = Some(id);
                            self.state = ParserState::Sublabel;
                        },
                        Err(error) => return Err(error),
                    }
                }
            },
            Token::Text(_) => {
                if self.current_item.sublabels.len() == 0 {
                    return Err(ParserError::MissingData("Label sublabel ID"));
                }
            },
            Token::End(name) => {
                if is_named(name.as_slice(), "sublabels") {
                    self.state = ParserState::Label;
                }
            },
            _ => {},
        }
        Ok(())
    }

    fn sublabel(&mut self, token: &Token) -> (result: Result<(), ParserError>)
        ensures
            match old(self)@.sublabel(token) {
                Ok(next) => result is Ok && final(self)@ == next,
                Err(error) => result == Err::<(), ParserError>(error)
                    && final(self)@ == old(self)@,
            },
    {
        match token {
            Token::Text(raw) => match self.current_sublabel_id {
                Some(id) => match text(raw.as_slice()) {
                    Ok(name) => {
                        push_back(&mut self.current_item.sublabels, LabelInfo { id, name });
                        self.current_sublabel_id = None;
                        self.state = ParserState::Sublabels;
                    },
                    Err(error) => return Err(error),
                },
                None => return Err(ParserError::MissingData("Label sublabel ID")),
            },
            _ => {
                self.state = ParserState::Sublabels;
            },
        }
        Ok(())
    }
}

impl Parser for LabelParser {
    type Item = Label;

    open spec fn fresh() -> LabelParserView {
        LabelParserView {
            state: ParserState::Label,
            item: LabelView::empty(),
            sublabel_id: None,
            parent_id: None,
            ready: false,
        }
    }

    open spec fn step(model: LabelParserView, token: &Token) -> Result<
        LabelParserView,
        ParserError,
    > {
        model.step(token)
    }

    open spec fn ready(model: LabelParserView) -> bool {
        model.ready
    }

    open spec fn item(model: LabelParserView) -> LabelView {
        model.item
    }

    open spec fn emptied(model: LabelParserView) -> LabelParserView {
        LabelParserView { item: LabelView::empty(), ready: false, ..model }
    }

    proof fn lemma_emptied_slot(model: LabelParserView) {
    }

    proof fn lemma_step_alike(model: LabelParserView, a: &Token, b: &Token) {
    }

    proof fn lemma_fresh_not_ready() {
    }

    fn new() -> (parser: Self) {
        LabelParser {
            state: ParserState::Label,
            current_item: Label::default(),
            current_sublabel_id: None,
            current_parent_id: None,
            item_ready: false,
        }
    }

    fn item_ready(&self) -> (ready: bool) {
        self.item_ready
    }

    fn take(&mut self) -> (item: Label) {
        self.item_ready = false;
        let mut item = Label::default();
        std::mem::swap(&mut self.current_item, &mut item);
        item
    }

    fn process(&mut self, token: &Token) -> (result: Result<(), ParserError>) {
        match self.state {
            ParserState::Label => match token {
                Token::Start(tag) => self.opened(tag),
                Token::End(name) => {
                    if is_named(name.as_slice(), "label") {
                        self.item_ready = true;
                    }
                    Ok(())
                },
                _ => Ok(()),
            },
            ParserState::Id | ParserState::Name | ParserState::Contactinfo | ParserState::Profile
            | ParserState::DataQuality => self.scalar(token),
            ParserState::ParentLabel => self.parent(token),
            ParserState::Sublabels => self.sublabels(token),
            ParserState::Sublabel => self.sublabel(token),
            ParserState::Urls => match read_texts(&mut self.current_item.urls, token, "urls") {
                Ok(open) => {
                    if !open {
                        self.state = ParserState::Label;
                    }
                    Ok(())
                },
                Err(error) => Err(error),
            },
            ParserState::Images => match read_pictures(&mut self.current_item.images, token) {
                Ok(open) => {
                    if !open {
                        self.state = ParserState::Label;
                    }
                    Ok(())
                },
                Err(error) => Err(error),
            },
        }
    }
}

/// Builds a [`Label`] field by field.
pub struct LabelBuilder {
    inner: Label,
}

impl View for LabelBuilder {
    type V = LabelView;

    closed spec fn view(&self) -> LabelView {
        self.inner@
    }
}

impl LabelBuilder {
    pub fn id(self, id: u32) -> (builder: Self)
        ensures
            builder@ == (LabelView { id, ..self@ }),
    {
        let mut builder = self;
        builder.inner.id = id;
        builder
    }

    pub fn name(self, name: &str) -> (builder: Self)
        ensures
            builder@ == (LabelView { name: name@, ..self@ }),
    {
        let mut builder = self;
        builder.inner.name = name.to_owned();
        builder
    }

    pub fn contactinfo(self, contactinfo: &str) -> (builder: Self)
        ensures
            builder@ == (LabelView { contactinfo: Some(contactinfo@), ..self@ }),
    {
        let mut builder = self;
        builder.inner.contactinfo = Some(contactinfo.to_owned());
        builder
    }

    pub fn profile(self, profile: &str) -> (builder: Self)
        ensures
            builder@ == (LabelView { profile: Some(profile@), ..self@ }),
    {
        let mut builder = self;
        builder.inner.profile = Some(profile.to_owned());
        builder
    }

    pub fn parent_label(self, id: u32, name: &str) -> (builder: Self)
        ensures
            builder@ == (LabelView {
                parent_label: Some(LabelInfoView { id, name: name@ }),
                ..self@
            }),
    {
        let mut builder = self;
        builder.inner.parent_label = Some(LabelInfo { id, name: name.to_owned() });
        builder
    }

    pub fn sublabel(self, id: u32, name: &str) -> (builder: Self)
        ensures
            builder@ == (LabelView {
                sublabels: self@.sublabels.push(LabelInfoView { id, name: name@ }),
                ..self@
            }),
    {
        let mut builder = self;
        push_back(&mut builder.inner.sublabels, LabelInfo { id, name: name.to_owned() });
        builder
    }

    pub fn url(self, url: &str) -> (builder: Self)
        ensures
            builder@ == (LabelView { urls: self@.urls.push(url@), ..self@ }),
    {
        let mut builder = self;
        push_back(&mut builder.inner.urls, url.to_owned());
        builder
    }

    pub fn data_quality(self, data_quality: &str) -> (builder: Self)
        ensures
            builder@ == (LabelView { data_quality: data_quality@, ..self@ }),
    {
        let mut builder = self;
        builder.inner.data_quality = data_quality.to_owned();
        builder
    }

    pub fn image(self, ty: &str, width: i16, height: i16) -> (builder: Self)
        ensures
            builder@ == (LabelView {
                images: self@.images.push(
                    ImageView { ty: ty@, uri: None, uri150: None, width, height },
                ),
                ..self@
            }),
    {
        let mut builder = self;
        push_back(&mut builder.inner.images, Image::sized(ty, width, height));
        builder
    }

    pub fn build(self) -> (label: Label)
        ensures
            label@ == self@,
    {
        self.inner
    }
}

/// The start tags that a label knows, each with the state that it leads to
/// from between the fields.
pub proof fn lemma_label_fields(tag: &Tag)
    ensures
        tag.is("name") ==> LabelParserView::field(tag) == ParserState::Name,
        tag.is("id") ==> LabelParserView::field(tag) == ParserState::Id,
        tag.is("contactinfo") ==> LabelParserView::field(tag) == ParserState::Contactinfo,
        tag.is("profile") ==> LabelParserView::field(tag) == ParserState::Profile,
        tag.is("sublabels") ==> LabelParserView::field(tag) == ParserState::Sublabels,
        tag.is("urls") ==> LabelParserView::field(tag) == ParserState::Urls,
        tag.is("images") ==> LabelParserView::field(tag) == ParserState::Images,
        tag.is("data_quality") ==> LabelParserView::field(tag) == ParserState::DataQuality,
        tag.is("name") || tag.is("id") || tag.is("contactinfo") || tag.is("profile") || tag.is(
            "sublabels",
        ) || tag.is("urls") || tag.is("images") || tag.is("data_quality") ==> !tag.is("label")
            && !tag.is("parentLabel"),
        tag.is("parentLabel") ==> !tag.is("label"),
{
    lemma_words_differ();
    reveal_strlit("label");
    reveal_strlit("parentLabel");
    reveal_strlit("name");
    reveal_strlit("id");
    reveal_strlit("contactinfo");
    reveal_strlit("profile");
    reveal_strlit("sublabels");
    reveal_strlit("urls");
    reveal_strlit("images");
    reveal_strlit("data_quality");
    assert("contactinfo"@[0] != "parentLabel"@[0]);
}

/// A label does not leak into the next: the token that completes a record
/// leaves the parser, where no id waits for its name, as a fresh one, and
/// the record that is handed out is the one that was being built.
pub proof fn lemma_label_rests(model: LabelParserView, token: &Token)
    requires
        !model.ready,
        model.sublabel_id is None,
        model.parent_id is None,
    ensures
        fed::<LabelParser>(model, token) matches Ok((next, Some(item))) ==> next
            == LabelParser::fresh() && item == model.item,
        fed::<LabelParser>(model, token) matches Ok((next, _)) ==> !next.ready,
{
}

/// An optional element that is there with nothing in it, or with white
/// space only, leaves a label as it is, as if the element were absent. This
/// holds of the contact information and of the profile.
pub proof fn lemma_label_blank_is_absent(
    model: LabelParserView,
    open: Tag,
    text: Vec<u8>,
    close: Vec<u8>,
)
    requires
        !model.ready,
        model.state == ParserState::Label,
        open.is("contactinfo") && model.item.contactinfo is None || open.is("profile")
            && model.item.profile is None,
        optional_text_of(text@) == Ok::<Option<Seq<char>>, ParserError>(None),
    ensures
        passes_over::<LabelParser>(model, bare_element(open, close)),
        passes_over::<LabelParser>(model, element(open, text, close)),
        passes_over::<LabelParser>(model, seq![Token::Empty(open)]),
{
    lemma_label_fields(&open);
    lemma_quiet_element::<LabelParser>(model, open, text, close);
}

/// A sublabel and a parent cannot do without their ids: a `label` tag in
/// the list of sublabels, or a `parentLabel` tag, whose `id` attribute is
/// absent or empty is an error.
pub proof fn lemma_label_entry_needs_id(model: LabelParserView, tag: Tag)
    requires
        model.state == ParserState::Sublabels && tag.is("label") || model.state
            == ParserState::Label && tag.is("parentLabel"),
        optional_attribute(&tag, "id") == Ok::<Option<Seq<char>>, ParserError>(None),
    ensures
        model.step(&Token::Start(tag)) == Err::<LabelParserView, ParserError>(
            ParserError::MissingAttr("id"),
        ),
{
    lemma_label_fields(&tag);
}

/// A text cannot name a sublabel or a parent whose id was never given, nor
/// stand in a list of sublabels that is still empty: it is an error.
pub proof fn lemma_label_text_needs_id(model: LabelParserView, text: Vec<u8>)
    ensures
        model.state == ParserState::Sublabel && model.sublabel_id is None ==> model.step(
            &Token::Text(text),
        ) == Err::<LabelParserView, ParserError>(ParserError::MissingData("Label sublabel ID")),
        model.state == ParserState::Sublabels && model.item.sublabels.len() == 0 ==> model.step(
            &Token::Text(text),
        ) == Err::<LabelParserView, ParserError>(ParserError::MissingData("Label sublabel ID")),
        model.state == ParserState::ParentLabel && model.parent_id is None ==> model.step(
            &Token::Text(text),
        ) == Err::<LabelParserView, ParserError>(ParserError::MissingData("Label parent ID")),
{
}

/// An element that a label does not know is passed over with its text, so
/// a dump that has gained an element gives the same label as before.
pub proof fn lemma_label_skips_unknown(
    model: LabelParserView,
    open: Tag,
    text: Vec<u8>,
    close: Vec<u8>,
)
    requires
        !model.ready,
        model.state == ParserState::Label,
        !open.is("parentLabel"),
        LabelParserView::field(&open) == ParserState::Label,
        !named(close@, "label"),
    ensures
        passes_over::<LabelParser>(model, element(open, text, close)),
        passes_over::<LabelParser>(model, bare_element(open, close)),
        passes_over::<LabelParser>(model, seq![Token::Empty(open)]),
{
    lemma_quiet_element::<LabelParser>(model, open, text, close);
}

/// Whether `next` holds, in every list, all that `item` held, in the same
/// places.
pub open spec fn lists_kept(item: LabelView, next: LabelView) -> bool {
    &&& item.sublabels.is_prefix_of(next.sublabels)
    &&& item.urls.is_prefix_of(next.urls)
    &&& item.images.is_prefix_of(next.images)
}

/// A record keeps all of its own lists.
proof fn lemma_label_lists_same(item: LabelView)
    ensures
        lists_kept(item, item),
{
    assert(item.sublabels =~= item.sublabels.subrange(0, item.sublabels.len() as int));
    assert(item.urls =~= item.urls.subrange(0, item.urls.len() as int));
    assert(item.images =~= item.images.subrange(0, item.images.len() as int));
}

/// The lists of a label keep document order: a token never takes an entry
/// away, never changes one and never puts one before another.
pub proof fn lemma_label_lists_grow(model: LabelParserView, token: &Token)
    ensures
        model.step(token) matches Ok(next) ==> lists_kept(model.item, next.item),
{
    lemma_label_lists_same(model.item);
    match model.state {
        ParserState::Label => {
            assert(model.step(token) == model.between(token));
        },
        ParserState::Urls => {
            lemma_texts_grow(model.item.urls, token, "urls");
        },
        ParserState::Images => {
            lemma_pictures_grow(model.item.images, token);
        },
        ParserState::ParentLabel => {
            assert(model.step(token) == model.parent(token));
        },
        ParserState::Sublabels => {
            assert(model.step(token) == model.sublabels(token));
        },
        ParserState::Sublabel => {
            assert(model.step(token) == model.sublabel(token));
            match model.sublabel(token) {
                Ok(next) => {
                    assert(model.item.sublabels =~= next.item.sublabels.subrange(
                        0,
                        model.item.sublabels.len() as int,
                    ));
                },
                Err(_) => {},
            }
        },
        _ => {
            assert(model.step(token) == model.scalar(token));
        },
    }
}

} // verus!
