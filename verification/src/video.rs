//! Videos that go with a master or a release.
use crate::parser::{fed, Parser, ParserError};
use crate::token::{Tag, Token, is_named, is_word, local_name, named};
use crate::util::{
    attr_bool, attr_u32, bool_attribute, find_attr, optional_attribute, required_attribute, text,
    text_of, u32_attribute,
};
use vstd::prelude::*;

verus! {

/// One video.
#[derive(Clone, Debug, PartialEq, Eq)]
pub struct Video {
    pub src: String,
    /// In seconds.
    pub duration: u32,
    pub title: String,
    pub description: String,
    pub embed: bool,
}

/// The value of a [`Video`].
pub struct VideoView {
    pub src: Seq<char>,
    pub duration: u32,
    pub title: Seq<char>,
    pub description: Seq<char>,
    pub embed: bool,
}

impl View for Video {
    type V = VideoView;

    open spec fn view(&self) -> VideoView {
        VideoView {
            src: self.src@,
            duration: self.duration,
            title: self.title@,
            description: self.description@,
            embed: self.embed,
        }
    }
}

impl DeepView for Video {
    type V = VideoView;

    open spec fn deep_view(&self) -> VideoView {
        self@
    }
}

impl VideoView {
    /// The video with no field set.
    pub open spec fn empty() -> VideoView {
        VideoView {
            src: Seq::empty(),
            duration: 0,
            title: Seq::empty(),
            description: Seq::empty(),
            embed: false,
        }
    }

    /// This video with the address, the duration and the embed flag that
    /// the attributes of `tag` give. All three must be there; the first
    /// that cannot be read, in that order, gives the error.
    pub open spec fn described(self, tag: &Tag) -> Result<VideoView, ParserError> {
        let src = required_attribute(tag, "src");
        let duration = u32_attribute(tag, "duration");
        let embed = bool_attribute(tag, "embed");
        if src is Err {
            Err(src->Err_0)
        } else if duration is Err {
            Err(duration->Err_0)
        } else if embed is Err {
            Err(embed->Err_0)
        } else {
            Ok(VideoView { src: src->Ok_0, duration: duration->Ok_0, embed: embed->Ok_0, ..self })
        }
    }
}

impl Default for Video {
    fn default() -> (video: Video)
        ensures
            video@ == VideoView::empty(),
    {
        Video {
            src: String::new(),
            duration: 0,
            title: String::new(),
            description: String::new(),
            embed: false,
        }
    }
}

impl Video {
    /// A video that may be embedded.
    pub fn embedded(src: &str, duration: u32, title: &str, description: &str) -> (video: Video)
        ensures
            video@ == (VideoView {
                src: src@,
                duration,
                title: title@,
                description: description@,
                embed: true,
            }),
    {
        Video {
            src: src.to_owned(),
            duration,
            title: title.to_owned(),
            description: description.to_owned(),
            embed: true,
        }
    }
}

/// Where a video parser stands in the video.
#[derive(Clone, Copy, Debug, PartialEq, Eq)]
pub enum ParserState {
    /// Between the fields of the video, or between videos.
    Video,
    Title,
    Description,
}

/// The state machine that builds videos.
#[derive(Debug)]
pub struct VideoParser {
    state: ParserState,
    current_item: Video,
    item_ready: bool,
}

/// The state of a [`VideoParser`].
pub struct VideoParserView {
    pub state: ParserState,
    pub item: VideoView,
    pub ready: bool,
}

impl View for VideoParser {
    type V = VideoParserView;

    closed spec fn view(&self) -> VideoParserView {
        VideoParserView { state: self.state, item: self.current_item@, ready: self.item_ready }
    }
}

impl VideoParserView {
    /// The parser between the fields again, with `item` as its video.
    pub open spec fn back(self, item: VideoView) -> VideoParserView {
        VideoParserView { state: ParserState::Video, item, ..self }
    }

    /// One start tag between the fields: the tag of the video itself
    /// carries three of its fields, the tags of the title and of the
    /// description open theirs.
    pub open spec fn opened(self, tag: &Tag) -> Result<VideoParserView, ParserError> {
        if tag.is("video") {
            match self.item.described(tag) {
                Ok(item) => Ok(self.back(item)),
                Err(error) => Err(error),
            }
        } else if tag.is("title") {
            Ok(VideoParserView { state: ParserState::Title, ..self })
        } else if tag.is("description") {
            Ok(VideoParserView { state: ParserState::Description, ..self })
        } else {
            Ok(self)
        }
    }

    /// The transition function of the video parser.
    pub open spec fn step(self, token: &Token) -> Result<VideoParserView, ParserError> {
        match self.state {
            ParserState::Video => match token {
                Token::Start(tag) => self.opened(tag),
                Token::End(name) => if named(name@, "video") {
                    Ok(VideoParserView { ready: true, ..self })
                } else {
                    Ok(self)
                },
                _ => Ok(self),
            },
            ParserState::Title => match token {
                Token::Text(raw) => match text_of(raw@) {
                    Ok(title) => Ok(self.back(VideoView { title, ..self.item })),
                    Err(error) => Err(error),
                },
                _ => Ok(self.back(self.item)),
            },
            ParserState::Description => match token {
                Token::Text(raw) => match text_of(raw@) {
                    Ok(description) => Ok(self.back(VideoView { description, ..self.item })),
                    Err(error) => Err(error),
                },
                _ => Ok(self.back(self.item)),
            },
        }
    }
}

impl VideoParser {
    fn opened(&mut self, tag: &Tag) -> (result: Result<(), ParserError>)
        requires
            old(self)@.state == ParserState::Video,
        ensures
            match old(self)@.opened(tag) {
                Ok(next) => result is Ok && final(self)@ == next,
                Err(error) => result == Err::<(), ParserError>(error)
                    && final(self)@ == old(self)@,
            },
    {
        let name = local_name(tag.name.as_slice());
        if is_word(name, "video") {
            let src = match find_attr(tag, "src") {
                Ok(src) => src,
                Err(error) => return Err(error),
            };
            let duration = match attr_u32(tag, "duration") {
                Ok(duration) => duration,
                Err(error) => return Err(error),
            };
            let embed = match attr_bool(tag, "embed") {
                Ok(embed) => embed,
                Err(error) => return Err(error),
            };
            self.current_item.src = src;
            self.current_item.duration = duration;
            self.current_item.embed = embed;
        } else if is_word(name, "title") {
            self.state = ParserState::Title;
        } else if is_word(name, "description") {
            self.state = ParserState::Description;
        }
        Ok(())
    }
}

impl Parser for VideoParser {
    type Item = Video;

    open spec fn fresh() -> VideoParserView {
        VideoParserView { state: ParserState::Video, item: VideoView::empty(), ready: false }
    }

    open spec fn step(model: VideoParserView, token: &Token) -> Result<
        VideoParserView,
        ParserError,
    > {
        model.step(token)
    }

    open spec fn ready(model: VideoParserView) -> bool {
        model.ready
    }

    open spec fn item(model: VideoParserView) -> VideoView {
        model.item
    }

    open spec fn emptied(model: VideoParserView) -> VideoParserView {
        VideoParserView { item: VideoView::empty(), ready: false, ..model }
    }

    proof fn lemma_emptied_slot(model: VideoParserView) {
    }

    proof fn lemma_step_alike(model: VideoParserView, a: &Token, b: &Token) {
    }

    proof fn lemma_fresh_not_ready() {
    }

    fn new() -> (parser: Self) {
        VideoParser { state: ParserState::Video, current_item: Video::default(), item_ready: false }
    }

    fn item_ready(&self) -> (ready: bool) {
        self.item_ready
    }

    fn take(&mut self) -> (item: Video) {
        self.item_ready = false;
        let mut item = Video::default();
        std::mem::swap(&mut self.current_item, &mut item);
        item
    }

    fn process(&mut self, token: &Token) -> (result: Result<(), ParserError>) {
        match self.state {
            ParserState::Video => match token {
                Token::Start(tag) => return self.opened(tag),
                Token::End(name) => {
                    if is_named(name.as_slice(), "video") {
                        self.item_ready = true;
                    }
                },
                _ => {},
            },
            ParserState::Title => {
                match token {
                    Token::Text(raw) => match text(raw.as_slice()) {
                        Ok(title) => {
                            self.current_item.title = title;
                        },
                        Err(error) => return Err(error),
                    },
                    _ => {},
                }
                self.state = ParserState::Video;
            },
            ParserState::Description => {
                match token {
                    Token::Text(raw) => match text(raw.as_slice()) {
                        Ok(description) => {
                            self.current_item.description = description;
                        },
                        Err(error) => return Err(error),
                    },
                    _ => {},
                }
                self.state = ParserState::Video;
            },
        }
        Ok(())
    }
}

/// A video does not leak into the next: the token that completes a video
/// leaves the parser as a fresh one, and the video that is handed out is
/// the one that was being built.
pub proof fn lemma_video_rests(model: VideoParserView, token: &Token)
    requires
        !model.ready,
    ensures
        fed::<VideoParser>(model, token) matches Ok((next, Some(item))) ==> next
            == VideoParser::fresh() && item == model.item,
        fed::<VideoParser>(model, token) matches Ok((next, _)) ==> !next.ready,
{
}

/// A video cannot do without its address, its duration and its embed
/// flag: a `video` tag that lacks one of them, or has it empty, is an error
/// that names the first that is missing.
pub proof fn lemma_video_needs_attributes(model: VideoParserView, tag: Tag)
    requires
        model.state == ParserState::Video,
        tag.is("video"),
    ensures
        optional_attribute(&tag, "src") == Ok::<Option<Seq<char>>, ParserError>(None)
            ==> model.step(&Token::Start(tag)) == Err::<VideoParserView, ParserError>(
            ParserError::MissingAttr("src"),
        ),
        required_attribute(&tag, "src") is Ok && optional_attribute(&tag, "duration") == Ok::<
            Option<Seq<char>>,
            ParserError,
        >(None) ==> model.step(&Token::Start(tag)) == Err::<VideoParserView, ParserError>(
            ParserError::MissingAttr("duration"),
        ),
        required_attribute(&tag, "src") is Ok && u32_attribute(&tag, "duration") is Ok
            && optional_attribute(&tag, "embed") == Ok::<Option<Seq<char>>, ParserError>(None)
            ==> model.step(&Token::Start(tag)) == Err::<VideoParserView, ParserError>(
            ParserError::MissingAttr("embed"),
        ),
{
}

} // verus!
