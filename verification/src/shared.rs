//! Records that several kinds of dump share.
use crate::parser::{yields, ParserError};
use crate::token::{is_named, named, Tag, Token};
use crate::util::{
    alike_tokens, attr_i16, find_attr, find_attr_optional, i16_attribute, optional_attribute,
    push_back, required_attribute, text, text_of,
};
use vstd::prelude::*;

verus! {

/// A label or a series that a release came out on.
#[derive(Clone, Debug, PartialEq, Eq)]
pub struct ReleaseLabel {
    pub id: Option<u32>,
    pub name: String,
    pub catno: Option<String>,
    pub entity_type: u8,
    pub entity_type_name: String,
}

/// The value of a [`ReleaseLabel`].
pub struct ReleaseLabelView {
    pub id: Option<u32>,
    pub name: Seq<char>,
    pub catno: Option<Seq<char>>,
    pub entity_type: u8,
    pub entity_type_name: Seq<char>,
}

impl View for ReleaseLabel {
    type V = ReleaseLabelView;

    open spec fn view(&self) -> ReleaseLabelView {
        ReleaseLabelView {
            id: self.id,
            name: self.name@,
            catno: self.catno.deep_view(),
            entity_type: self.entity_type,
            entity_type_name: self.entity_type_name@,
        }
    }
}

impl DeepView for ReleaseLabel {
    type V = ReleaseLabelView;

    open spec fn deep_view(&self) -> ReleaseLabelView {
        self@
    }
}

impl ReleaseLabelView {
    /// The label with no field set.
    pub open spec fn empty() -> ReleaseLabelView {
        ReleaseLabelView {
            id: None,
            name: Seq::empty(),
            catno: None,
            entity_type: 0,
            entity_type_name: Seq::empty(),
        }
    }
}

impl Default for ReleaseLabel {
    fn default() -> (label: ReleaseLabel)
        ensures
            label@ == ReleaseLabelView::empty(),
    {
        ReleaseLabel {
            id: None,
            name: String::new(),
            catno: None,
            entity_type: 0,
            entity_type_name: String::new(),
        }
    }
}

/// A picture of an artist, a label, a master or a release.
#[derive(Clone, Debug, PartialEq, Eq)]
pub struct Image {
    pub ty: String,
    pub uri: Option<String>,
    pub uri150: Option<String>,
    pub width: i16,
    pub height: i16,
}

/// The value of an [`Image`].
pub struct ImageView {
    pub ty: Seq<char>,
    pub uri: Option<Seq<char>>,
    pub uri150: Option<Seq<char>>,
    pub width: i16,
    pub height: i16,
}

impl View for Image {
    type V = ImageView;

    open spec fn view(&self) -> ImageView {
        ImageView {
            ty: self.ty@,
            uri: self.uri.deep_view(),
            uri150: self.uri150.deep_view(),
            width: self.width,
            height: self.height,
        }
    }
}

impl DeepView for Image {
    type V = ImageView;

    open spec fn deep_view(&self) -> ImageView {
        self@
    }
}

impl ImageView {
    /// The image with no field set.
    pub open spec fn empty() -> ImageView {
        ImageView { ty: Seq::empty(), uri: None, uri150: None, width: 0, height: 0 }
    }

    /// The image that the attributes of `tag` describe. The kind, the
    /// width and the height must be there; the two addresses may be absent
    /// or empty. The first attribute that cannot be read, in the order
    /// kind, addresses, width, height, gives the error.
    pub open spec fn of_tag(tag: &Tag) -> Result<ImageView, ParserError> {
        let ty = required_attribute(tag, "type");
        let uri = optional_attribute(tag, "uri");
        let uri150 = optional_attribute(tag, "uri150");
        let width = i16_attribute(tag, "width");
        let height = i16_attribute(tag, "height");
        if ty is Err {
            Err(ty->Err_0)
        } else if uri is Err {
            Err(uri->Err_0)
        } else if uri150 is Err {
            Err(uri150->Err_0)
        } else if width is Err {
            Err(width->Err_0)
        } else if height is Err {
            Err(height->Err_0)
        } else {
            Ok(
                ImageView {
                    ty: ty->Ok_0,
                    uri: uri->Ok_0,
                    uri150: uri150->Ok_0,
                    width: width->Ok_0,
                    height: height->Ok_0,
                },
            )
        }
    }
}

impl Default for Image {
    fn default() -> (image: Image)
        ensures
            image@ == ImageView::empty(),
    {
        Image { ty: String::new(), uri: None, uri150: None, width: 0, height: 0 }
    }
}

impl Image {
    /// Reads an image from the attributes of its tag.
    pub fn from_event(tag: &Tag) -> (result: Result<Image, ParserError>)
        ensures
            yields(result, ImageView::of_tag(tag)),
    {
        let ty = match find_attr(tag, "type") {
            Ok(ty) => ty,
            Err(error) => return Err(error),
        };
        let uri = match find_attr_optional(tag, "uri") {
            Ok(uri) => uri,
            Err(error) => return Err(error),
        };
        let uri150 = match find_attr_optional(tag, "uri150") {
            Ok(uri150) => uri150,
            Err(error) => return Err(error),
        };
        let width = match attr_i16(tag, "width") {
            Ok(width) => width,
            Err(error) => return Err(error),
        };
        let height = match attr_i16(tag, "height") {
            Ok(height) => height,
            Err(error) => return Err(error),
        };
        Ok(Image { ty, uri, uri150, width, height })
    }

    /// An image of the given kind and size, without addresses.
    pub fn sized(ty: &str, width: i16, height: i16) -> (image: Image)
        ensures
            image@ == (ImageView { ty: ty@, uri: None, uri150: None, width, height }),
    {
        Image { ty: ty.to_owned(), uri: None, uri150: None, width, height }
    }
}

/// One token inside a list of plain texts (`section`) whose entries so far
/// are `list`: each text is one more entry, the end tag of the section
/// closes it, anything else is passed over. The result is the new list and
/// whether the section is still open.
pub open spec fn texts(list: Seq<Seq<char>>, token: &Token, section: &str) -> Result<
    (Seq<Seq<char>>, bool),
    ParserError,
> {
    match token {
        Token::End(name) => Ok((list, !named(name@, section))),
        Token::Text(raw) => match text_of(raw@) {
            Ok(entry) => Ok((list.push(entry), true)),
            Err(error) => Err(error),
        },
        _ => Ok((list, true)),
    }
}

/// One token inside the list of images: each empty `image` tag is one more
/// image, the end tag of the section closes it, anything else is passed
/// over.
pub open spec fn pictures(list: Seq<ImageView>, token: &Token) -> Result<
    (Seq<ImageView>, bool),
    ParserError,
> {
    match token {
        Token::Empty(tag) => if tag.is("image") {
            match ImageView::of_tag(tag) {
                Ok(image) => Ok((list.push(image), true)),
                Err(error) => Err(error),
            }
        } else {
            Ok((list, true))
        },
        Token::End(name) => Ok((list, !named(name@, "images"))),
        _ => Ok((list, true)),
    }
}

/// Reads one token inside a list of plain texts. Returns whether the
/// section is still open.
pub fn read_texts(list: &mut Vec<String>, token: &Token, section: &str) -> (result: Result<
    bool,
    ParserError,
>)
    ensures
        match texts(old(list).deep_view(), token, section) {
            Ok((entries, open)) => result == Ok::<bool, ParserError>(open)
                && final(list).deep_view() == entries,
            Err(error) => result == Err::<bool, ParserError>(error)
                && final(list).deep_view() == old(list).deep_view(),
        },
{
    match token {
        Token::End(name) => Ok(!is_named(name.as_slice(), section)),
        Token::Text(raw) => match text(raw.as_slice()) {
            Ok(entry) => {
                push_back(list, entry);
                Ok(true)
            },
            Err(error) => Err(error),
        },
        _ => Ok(true),
    }
}

/// Reads one token inside the list of images. Returns whether the section
/// is still open.
pub fn read_pictures(list: &mut Vec<Image>, token: &Token) -> (result: Result<bool, ParserError>)
    ensures
        match pictures(old(list).deep_view(), token) {
            Ok((images, open)) => result == Ok::<bool, ParserError>(open)
                && final(list).deep_view() == images,
            Err(error) => result == Err::<bool, ParserError>(error)
                && final(list).deep_view() == old(list).deep_view(),
        },
{
    match token {
        Token::Empty(tag) => {
            if is_named(tag.name.as_slice(), "image") {
                match Image::from_event(tag) {
                    Ok(image) => {
                        push_back(list, image);
                        Ok(true)
                    },
                    Err(error) => Err(error),
                }
            } else {
                Ok(true)
            }
        },
        Token::End(name) => Ok(!is_named(name.as_slice(), "images")),
        _ => Ok(true),
    }
}

/// A list of images is read alike from tokens that are alike.
pub proof fn lemma_pictures_alike(list: Seq<ImageView>, a: &Token, b: &Token)
    requires
        alike_tokens(a, b),
    ensures
        pictures(list, a) == pictures(list, b),
{
}

/// A list of plain texts only grows, and at its end: what it held before a
/// token, it holds after it, in the same places.
pub proof fn lemma_texts_grow(list: Seq<Seq<char>>, token: &Token, section: &str)
    ensures
        texts(list, token, section) matches Ok((after, _)) ==> list.is_prefix_of(after),
{
    match texts(list, token, section) {
        Ok((after, _)) => {
            assert(list =~= after.subrange(0, list.len() as int));
        },
        Err(_) => {},
    }
}

/// A list of images only grows, and at its end.
pub proof fn lemma_pictures_grow(list: Seq<ImageView>, token: &Token)
    ensures
        pictures(list, token) matches Ok((after, _)) ==> list.is_prefix_of(after),
{
    match pictures(list, token) {
        Ok((after, _)) => {
            assert(list =~= after.subrange(0, list.len() as int));
        },
        Err(_) => {},
    }
}

} // verus!
