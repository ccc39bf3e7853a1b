//! Typed, fallible access to what a token holds.
//!
//! This is the one place where "empty means absent" is decided: an
//! attribute that is there with an empty value, and a text that is blank,
//! are both read as no value at all.
use crate::number::{
    bool_of, i16_of, parse_bool, parse_i16, parse_u16, parse_u32, parse_u8, u16_of, u32_of, u8_of,
};
use crate::parser::{yields, ParserError, XmlFault};
use crate::token::{bytes_eq, Attribute, Tag, Token};
use quick_xml::escape::EscapeError::{InvalidCharRef, UnrecognizedEntity, UnterminatedEntity};
use quick_xml::name::QName;
use quick_xml::Error::{Encoding, Escape};
use vstd::prelude::*;
use vstd::string::*;

verus! {

/// What the raw bytes of an attribute value or of character data stand
/// for: the bytes read as UTF-8, with each character reference and each
/// predefined entity replaced by what it names; or, where the bytes are not
/// UTF-8 or a reference is malformed or unknown, the fault and its place.
pub uninterp spec fn unescaped(raw: Seq<u8>) -> Result<Seq<char>, XmlFault>;

/// Decodes and unescapes raw bytes.
///
/// Calls `quick_xml::events::attributes::Attribute::unescape_value` on an
/// attribute whose value is `raw`. That method reads the value as UTF-8 and
/// then resolves the references in it; its result depends on the value
/// alone. An error is told apart by its variant, and the range that it
/// holds is handed on. The contract gives the outcome the name `unescaped`;
/// what the name holds on given bytes is not stated here.
#[verifier::external_body]
fn unescape_value(raw: &[u8]) -> (result: Result<String, XmlFault>)
    ensures
        match result {
            Ok(text) => unescaped(raw@) == Ok::<Seq<char>, XmlFault>(text@),
            Err(fault) => unescaped(raw@) == Err::<Seq<char>, XmlFault>(fault),
        },
{
    let value = std::borrow::Cow::Borrowed(raw);
    let attribute = quick_xml::events::attributes::Attribute { key: QName(&[]), value };
    match attribute.unescape_value() {
        Ok(text) => Ok(text.into_owned()),
        Err(Encoding(_)) => Err(XmlFault::Encoding),
        Err(Escape(UnrecognizedEntity(at, _))) => Err(XmlFault::UnrecognizedEntity(at.start, at.end)),
        Err(Escape(UnterminatedEntity(at))) => Err(XmlFault::UnterminatedEntity(at.start, at.end)),
        Err(Escape(InvalidCharRef(_))) => Err(XmlFault::InvalidCharRef),
        Err(_) => Err(XmlFault::Other),
    }
}

/// Whether `c` is white space as XML defines it: a space, a tab, a line
/// feed or a carriage return.
pub open spec fn is_space(c: char) -> bool {
    c == ' ' || c == '\t' || c == '\n' || c == '\r'
}

/// Whether `text` holds white space only. The empty text is blank.
pub open spec fn is_blank(text: Seq<char>) -> bool {
    forall|i: int| 0 <= i < text.len() ==> is_space(#[trigger] text[i])
}

/// `text` without the white space at its start.
pub open spec fn trim_start(text: Seq<char>) -> Seq<char>
    decreases text.len(),
{
    if text.len() > 0 && is_space(text.first()) {
        trim_start(text.drop_first())
    } else {
        text
    }
}

/// `text` without the white space at its end.
pub open spec fn trim_end(text: Seq<char>) -> Seq<char>
    decreases text.len(),
{
    if text.len() > 0 && is_space(text.last()) {
        trim_end(text.drop_last())
    } else {
        text
    }
}

/// `text` without the white space at either end.
pub open spec fn trimmed(text: Seq<char>) -> Seq<char> {
    trim_end(trim_start(text))
}

/// The text of raw character data, or the error of reading it.
pub open spec fn text_of(raw: Seq<u8>) -> Result<Seq<char>, ParserError> {
    match unescaped(raw) {
        Ok(text) => Ok(text),
        Err(fault) => Err(ParserError::QuickXml(fault)),
    }
}

/// A text as the value of an optional field: none where it is blank.
pub open spec fn present(text: Seq<char>) -> Option<Seq<char>> {
    if is_blank(text) {
        None
    } else {
        Some(text)
    }
}

/// The text of raw character data as the value of an optional field.
pub open spec fn optional_text_of(raw: Seq<u8>) -> Result<Option<Seq<char>>, ParserError> {
    match text_of(raw) {
        Ok(text) => Ok(present(text)),
        Err(error) => Err(error),
    }
}

/// The raw value of the first attribute at or after `from` whose key is
/// `key`.
pub open spec fn value_from(attributes: Seq<Attribute>, key: Seq<u8>, from: int) -> Option<
    Seq<u8>,
>
    decreases attributes.len() - from,
{
    if from < 0 || from >= attributes.len() {
        None
    } else if attributes[from].key@ == key {
        Some(attributes[from].value@)
    } else {
        value_from(attributes, key, from + 1)
    }
}

/// The raw value of the first attribute of `tag` whose key is `name`.
pub open spec fn raw_attribute(tag: &Tag, name: &str) -> Option<Seq<u8>> {
    value_from(tag.attributes@, name.spec_bytes(), 0)
}

/// The value of an attribute that a record can do without: none where the
/// attribute is absent, and none where it is there with an empty value.
pub open spec fn optional_attribute(tag: &Tag, name: &str) -> Result<
    Option<Seq<char>>,
    ParserError,
> {
    match raw_attribute(tag, name) {
        None => Ok(None),
        Some(raw) => if raw.len() == 0 {
            Ok(None)
        } else {
            match text_of(raw) {
                Ok(text) => Ok(Some(text)),
                Err(error) => Err(error),
            }
        },
    }
}

/// The value of an attribute that a record cannot do without, trimmed.
pub open spec fn required_attribute(tag: &Tag, name: &'static str) -> Result<
    Seq<char>,
    ParserError,
> {
    match optional_attribute(tag, name) {
        Ok(Some(text)) => Ok(trimmed(text)),
        Ok(None) => Err(ParserError::MissingAttr(name)),
        Err(error) => Err(error),
    }
}

/// The number that raw character data writes, read as a `u32`.
pub open spec fn u32_text(raw: Seq<u8>) -> Result<u32, ParserError> {
    match text_of(raw) {
        Ok(text) => u32_of(text),
        Err(error) => Err(error),
    }
}

/// The number that raw character data writes, read as a `u16`.
pub open spec fn u16_text(raw: Seq<u8>) -> Result<u16, ParserError> {
    match text_of(raw) {
        Ok(text) => u16_of(text),
        Err(error) => Err(error),
    }
}

/// The number that raw character data writes, read as a `u8`.
pub open spec fn u8_text(raw: Seq<u8>) -> Result<u8, ParserError> {
    match text_of(raw) {
        Ok(text) => u8_of(text),
        Err(error) => Err(error),
    }
}

/// The number that a required attribute writes, read as a `u32`.
pub open spec fn u32_attribute(tag: &Tag, name: &'static str) -> Result<u32, ParserError> {
    match required_attribute(tag, name) {
        Ok(text) => u32_of(text),
        Err(error) => Err(error),
    }
}

/// The number that a required attribute writes, read as an `i16`.
pub open spec fn i16_attribute(tag: &Tag, name: &'static str) -> Result<i16, ParserError> {
    match required_attribute(tag, name) {
        Ok(text) => i16_of(text),
        Err(error) => Err(error),
    }
}

/// The boolean that a required attribute writes.
pub open spec fn bool_attribute(tag: &Tag, name: &'static str) -> Result<bool, ParserError> {
    match required_attribute(tag, name) {
        Ok(text) => bool_of(text),
        Err(error) => Err(error),
    }
}

/// The number that an optional attribute writes, read as a `u32`; none
/// where the attribute is absent or empty.
pub open spec fn optional_u32_attribute(tag: &Tag, name: &str) -> Result<
    Option<u32>,
    ParserError,
> {
    match optional_attribute(tag, name) {
        Ok(Some(text)) => match u32_of(text) {
            Ok(value) => Ok(Some(value)),
            Err(error) => Err(error),
        },
        Ok(None) => Ok(None),
        Err(error) => Err(error),
    }
}

/// Whether two tags cannot be told apart by their names and by the values
/// of their optional attributes: what is empty in the one may be absent
/// from the other.
pub open spec fn alike(a: &Tag, b: &Tag) -> bool {
    &&& a.name@ == b.name@
    &&& forall|name: &str| #[trigger] optional_attribute(a, name) == optional_attribute(b, name)
}

/// Whether two tokens are of one kind and cannot be told apart: the same
/// name, the same text, tags that are alike.
pub open spec fn alike_tokens(a: &Token, b: &Token) -> bool {
    match (a, b) {
        (Token::Start(a), Token::Start(b)) => alike(a, b),
        (Token::Empty(a), Token::Empty(b)) => alike(a, b),
        (Token::End(a), Token::End(b)) => a@ == b@,
        (Token::Text(a), Token::Text(b)) => a@ == b@,
        (Token::Other, Token::Other) => true,
        (Token::Eof, Token::Eof) => true,
        _ => false,
    }
}

/// Whether none of the attributes from `from` up to `to` has the key.
pub open spec fn none_between(
    attributes: Seq<Attribute>,
    key: Seq<u8>,
    from: int,
    to: int,
) -> bool {
    forall|j: int| from <= j < to ==> (#[trigger] attributes[j]).key@ != key
}

/// Whether `c` is XML white space.
pub fn is_space_char(c: char) -> (space: bool)
    ensures
        space == is_space(c),
{
    c == ' ' || c == '\t' || c == '\n' || c == '\r'
}

/// Whether `text` holds white space only.
pub fn is_blank_text(text: &str) -> (blank: bool)
    ensures
        blank == is_blank(text@),
{
    for c in iter: text.chars()
        invariant
            iter.seq() == text@,
            forall|k: int| 0 <= k < iter.index() ==> is_space(#[trigger] text@[k]),
    {
        if !is_space_char(c) {
            return false;
        }
    }
    true
}

/// `text` without the white space at either end.
pub fn trim(text: String) -> (out: String)
    ensures
        out@ == trimmed(text@),
{
    let len = text.as_str().unicode_len();
    let mut start: usize = 0;
    assert(text@.subrange(0, len as int) =~= text@);
    while start < len
        invariant
            len == text@.len(),
            start <= len,
            trim_start(text@) == trim_start(text@.subrange(start as int, len as int)),
        ensures
            start < len ==> !is_space(text@[start as int]),
        decreases len - start,
    {
        let ghost rest = text@.subrange(start as int, len as int);
        assert(rest.first() == text@[start as int]);
        if !is_space_char(text.as_str().get_char(start)) {
            break;
        }
        assert(rest.drop_first() =~= text@.subrange(start + 1, len as int));
        start += 1;
    }
    let ghost middle = text@.subrange(start as int, len as int);
    assert(trim_start(text@) == middle) by {
        if start < len {
            assert(middle.first() == text@[start as int]);
        }
    }
    let mut end: usize = len;
    while end > start
        invariant
            len == text@.len(),
            start <= end <= len,
            middle == text@.subrange(start as int, len as int),
            trim_end(middle) == trim_end(text@.subrange(start as int, end as int)),
        ensures
            end > start ==> !is_space(text@[end - 1]),
        decreases end - start,
    {
        let ghost rest = text@.subrange(start as int, end as int);
        assert(rest.last() == text@[end - 1]);
        if !is_space_char(text.as_str().get_char(end - 1)) {
            break;
        }
        assert(rest.drop_last() =~= text@.subrange(start as int, end - 1));
        end -= 1;
    }
    assert(trim_end(middle) == text@.subrange(start as int, end as int)) by {
        if end > start {
            assert(text@.subrange(start as int, end as int).last() == text@[end - 1]);
        }
    }
    if start == 0 && end == len {
        assert(text@.subrange(0, len as int) =~= text@);
        text
    } else {
        String::from_str(text.as_str().substring_char(start, end))
    }
}

/// Reads raw character data as text.
pub fn text(raw: &[u8]) -> (result: Result<String, ParserError>)
    ensures
        yields(result, text_of(raw@)),
{
    match unescape_value(raw) {
        Ok(text) => Ok(text),
        Err(fault) => Err(ParserError::QuickXml(fault)),
    }
}

/// A text as the value of an optional field: none where it is blank.
pub fn non_blank(text: String) -> (value: Option<String>)
    ensures
        value.deep_view() == present(text@),
{
    if is_blank_text(text.as_str()) {
        None
    } else {
        Some(text)
    }
}

/// Reads raw character data as the value of an optional field.
pub fn maybe_text(raw: &[u8]) -> (result: Result<Option<String>, ParserError>)
    ensures
        yields(result, optional_text_of(raw@)),
{
    match text(raw) {
        Ok(text) => Ok(non_blank(text)),
        Err(error) => Err(error),
    }
}

/// Looks for the attribute `name` of `tag` and reads its value, if it has
/// one.
pub fn find_attr_optional(tag: &Tag, name: &str) -> (result: Result<Option<String>, ParserError>)
    ensures
        yields(result, optional_attribute(tag, name)),
{
    let key = name.as_bytes();
    let mut i: usize = 0;
    while i < tag.attributes.len()
        invariant
            i <= tag.attributes.len(),
            key@ == name.spec_bytes(),
            raw_attribute(tag, name) == value_from(tag.attributes@, key@, i as int),
        decreases tag.attributes.len() - i,
    {
        let attribute = &tag.attributes[i];
        if bytes_eq(attribute.key.as_slice(), key) {
            if attribute.value.len() == 0 {
                return Ok(None);
            }
            return match text(attribute.value.as_slice()) {
                Ok(value) => Ok(Some(value)),
                Err(error) => Err(error),
            };
        }
        i += 1;
    }
    Ok(None)
}

/// Looks for the attribute `name` of `tag`, which must be there with a
/// value, and reads it.
pub fn find_attr(tag: &Tag, name: &'static str) -> (result: Result<String, ParserError>)
    ensures
        yields(result, required_attribute(tag, name)),
{
    match find_attr_optional(tag, name) {
        Ok(Some(value)) => Ok(trim(value)),
        Ok(None) => Err(ParserError::MissingAttr(name)),
        Err(error) => Err(error),
    }
}

/// Reads raw character data as a `u32`.
pub fn text_u32(raw: &[u8]) -> (result: Result<u32, ParserError>)
    ensures
        result == u32_text(raw@),
{
    match text(raw) {
        Ok(text) => parse_u32(text.as_str()),
        Err(error) => Err(error),
    }
}

/// Reads raw character data as a `u16`.
pub fn text_u16(raw: &[u8]) -> (result: Result<u16, ParserError>)
    ensures
        result == u16_text(raw@),
{
    match text(raw) {
        Ok(text) => parse_u16(text.as_str()),
        Err(error) => Err(error),
    }
}

/// Reads raw character data as a `u8`.
pub fn text_u8(raw: &[u8]) -> (result: Result<u8, ParserError>)
    ensures
        result == u8_text(raw@),
{
    match text(raw) {
        Ok(text) => parse_u8(text.as_str()),
        Err(error) => Err(error),
    }
}

/// Reads a required attribute as a `u32`.
pub fn attr_u32(tag: &Tag, name: &'static str) -> (result: Result<u32, ParserError>)
    ensures
        result == u32_attribute(tag, name),
{
    match find_attr(tag, name) {
        Ok(text) => parse_u32(text.as_str()),
        Err(error) => Err(error),
    }
}

/// Reads a required attribute as an `i16`.
pub fn attr_i16(tag: &Tag, name: &'static str) -> (result: Result<i16, ParserError>)
    ensures
        result == i16_attribute(tag, name),
{
    match find_attr(tag, name) {
        Ok(text) => parse_i16(text.as_str()),
        Err(error) => Err(error),
    }
}

/// Reads a required attribute as a boolean.
pub fn attr_bool(tag: &Tag, name: &'static str) -> (result: Result<bool, ParserError>)
    ensures
        result == bool_attribute(tag, name),
{
    match find_attr(tag, name) {
        Ok(text) => parse_bool(text.as_str()),
        Err(error) => Err(error),
    }
}

/// Reads an optional attribute as a `u32`.
pub fn attr_u32_optional(tag: &Tag, name: &str) -> (result: Result<Option<u32>, ParserError>)
    ensures
        result == optional_u32_attribute(tag, name),
{
    match find_attr_optional(tag, name) {
        Ok(Some(text)) => match parse_u32(text.as_str()) {
            Ok(value) => Ok(Some(value)),
            Err(error) => Err(error),
        },
        Ok(None) => Ok(None),
        Err(error) => Err(error),
    }
}

/// Appends `item` to `list`.
pub fn push_back<T: DeepView>(list: &mut Vec<T>, item: T)
    ensures
        final(list).deep_view() == old(list).deep_view().push(item.deep_view()),
{
    list.push(item);
    assert(list.deep_view() =~= old(list).deep_view().push(item.deep_view()));
}

/// An empty list.
pub fn empty_list<T: DeepView>() -> (list: Vec<T>)
    ensures
        list.deep_view() == Seq::<T::V>::empty(),
{
    let list = Vec::new();
    assert(list.deep_view() =~= Seq::<T::V>::empty());
    list
}

/// Past the place where an attribute was taken out, the search goes on as
/// it did one place further in the full list.
pub proof fn lemma_value_from_removed(
    attributes: Seq<Attribute>,
    at: int,
    key: Seq<u8>,
    from: int,
)
    requires
        0 <= at < attributes.len(),
        at <= from,
    ensures
        value_from(attributes.remove(at), key, from) == value_from(attributes, key, from + 1),
    decreases attributes.len() - from,
{
    let rest = attributes.remove(at);
    if from < rest.len() {
        assert(rest[from] == attributes[from + 1]);
        if rest[from].key@ != key {
            lemma_value_from_removed(attributes, at, key, from + 1);
        }
    }
}

/// An attribute with an empty value is as good as absent: taking it out
/// of a tag, where no later attribute has its key, gives a tag that is alike.
pub proof fn lemma_empty_attribute_is_absent(with: &Tag, without: &Tag, at: int)
    requires
        with.name@ == without.name@,
        0 <= at < with.attributes@.len(),
        with.attributes@[at].value@.len() == 0,
        forall|j: int|
            at < j < with.attributes@.len() ==> (#[trigger] with.attributes@[j]).key@
                != with.attributes@[at].key@,
        without.attributes@ == with.attributes@.remove(at),
    ensures
        alike(with, without),
{
    let full = with.attributes@;
    let rest = without.attributes@;
    assert forall|name: &str| #[trigger]
        optional_attribute(with, name) == optional_attribute(without, name) by {
        let key = name.spec_bytes();
        lemma_value_from_before(full, at, key, 0);
        lemma_value_from_removed(full, at, key, at);
        if full[at].key@ == key {
            lemma_value_from_none(full, key, at + 1);
        }
        assert(raw_attribute(with, name) == value_from(full, key, 0));
        assert(raw_attribute(without, name) == value_from(rest, key, 0));
    }
}

/// Up to the place where an attribute was taken out, the search goes as
/// in the full list: it ends at the same attribute, or it reaches that place.
pub proof fn lemma_value_from_before(attributes: Seq<Attribute>, at: int, key: Seq<u8>, from: int)
    requires
        0 <= from <= at < attributes.len(),
    ensures
        none_between(attributes, key, from, at) ==> value_from(attributes, key, from)
            == value_from(attributes, key, at) && value_from(attributes.remove(at), key, from)
            == value_from(attributes.remove(at), key, at),
        !none_between(attributes, key, from, at) ==> value_from(attributes.remove(at), key, from)
            == value_from(attributes, key, from),
    decreases at - from,
{
    let rest = attributes.remove(at);
    if from < at {
        assert(rest[from] == attributes[from]);
        if attributes[from].key@ != key {
            lemma_value_from_before(attributes, at, key, from + 1);
            assert(none_between(attributes, key, from, at) == none_between(
                attributes,
                key,
                from + 1,
                at,
            ));
        }
    }
}

/// The first attribute with the key decides: where the attribute at
/// `index` has the key and none between `from` and it has, the search finds
/// its value.
pub proof fn lemma_value_from_first(
    attributes: Seq<Attribute>,
    key: Seq<u8>,
    from: int,
    index: int,
)
    requires
        0 <= from <= index < attributes.len(),
        attributes[index].key@ == key,
        none_between(attributes, key, from, index),
    ensures
        value_from(attributes, key, from) == Some(attributes[index].value@),
    decreases index - from,
{
    if from < index {
        assert(attributes[from].key@ != key);
        lemma_value_from_first(attributes, key, from + 1, index);
    }
}

/// Where no attribute from `from` on has the key, the search finds
/// nothing.
pub proof fn lemma_value_from_none(attributes: Seq<Attribute>, key: Seq<u8>, from: int)
    requires
        0 <= from,
        forall|j: int| from <= j < attributes.len() ==> (#[trigger] attributes[j]).key@ != key,
    ensures
        value_from(attributes, key, from) is None,
    decreases attributes.len() - from,
{
    if from < attributes.len() {
        assert(attributes[from].key@ != key);
        lemma_value_from_none(attributes, key, from + 1);
    }
}

/// Trimming takes white space away and nothing else, and leaves none at
/// either end.
pub proof fn lemma_trimmed(text: Seq<char>)
    ensures
        trimmed(text).len() <= text.len(),
        trimmed(text).len() > 0 ==> !is_space(trimmed(text).first()) && !is_space(
            trimmed(text).last(),
        ),
        exists|lead: Seq<char>, trail: Seq<char>|
            is_blank(lead) && is_blank(trail) && text == lead + trimmed(text) + trail,
{
    lemma_trim_start(text);
    let (lead, middle) = choose|lead: Seq<char>, middle: Seq<char>|
        is_blank(lead) && middle == trim_start(text) && text == lead + middle;
    lemma_trim_end(middle);
    let trail = choose|trail: Seq<char>| is_blank(trail) && middle == trim_end(middle) + trail;
    assert(text =~= lead + trimmed(text) + trail);
    if trimmed(text).len() > 0 {
        assert(trimmed(text).first() == middle.first());
    }
}

/// What `trim_start` takes away is blank, and what it leaves does not
/// start with white space.
pub proof fn lemma_trim_start(text: Seq<char>)
    ensures
        trim_start(text).len() > 0 ==> !is_space(trim_start(text).first()),
        exists|lead: Seq<char>, rest: Seq<char>|
            is_blank(lead) && rest == trim_start(text) && text == lead + rest,
    decreases text.len(),
{
    if text.len() > 0 && is_space(text.first()) {
        lemma_trim_start(text.drop_first());
        let (lead, rest) = choose|lead: Seq<char>, rest: Seq<char>|
            is_blank(lead) && rest == trim_start(text.drop_first()) && text.drop_first() == lead
                + rest;
        let longer = seq![text.first()] + lead;
        assert(is_blank(longer)) by {
            assert forall|i: int| 0 <= i < longer.len() implies is_space(#[trigger] longer[i]) by {
                if i > 0 {
                    assert(longer[i] == lead[i - 1]);
                }
            }
        }
        assert(text =~= seq![text.first()] + text.drop_first());
        assert(text =~= longer + rest);
    } else {
        assert(is_blank(Seq::<char>::empty()));
        assert(text =~= Seq::<char>::empty() + text);
    }
}

/// What `trim_end` takes away is blank, and what it leaves neither ends
/// with white space nor starts otherwise than `text` does.
pub proof fn lemma_trim_end(text: Seq<char>)
    ensures
        trim_end(text).len() > 0 ==> !is_space(trim_end(text).last()) && trim_end(text).first()
            == text.first(),
        exists|trail: Seq<char>| is_blank(trail) && text == trim_end(text) + trail,
    decreases text.len(),
{
    if text.len() > 0 && is_space(text.last()) {
        lemma_trim_end(text.drop_last());
        let trail = choose|trail: Seq<char>|
            is_blank(trail) && text.drop_last() == trim_end(text.drop_last()) + trail;
        let longer = trail.push(text.last());
        assert(is_blank(longer)) by {
            assert forall|i: int| 0 <= i < longer.len() implies is_space(#[trigger] longer[i]) by {
                if i < trail.len() {
                    assert(longer[i] == trail[i]);
                }
            }
        }
        assert(text =~= text.drop_last().push(text.last()));
        assert(text =~= trim_end(text) + longer);
    } else {
        assert(is_blank(Seq::<char>::empty()));
        assert(text =~= text + Seq::<char>::empty());
    }
}

} // verus!
