//! The structural tokens that the parsers consume.
//!
//! A token holds bytes as they stand in the document: names are qualified,
//! attribute values and text are still escaped. Nothing here is decoded
//! before a parser asks for it, so a malformed value is an error only where
//! a record needs it.
use vstd::prelude::*;
use vstd::string::StringSliceAdditionalSpecFns;

verus! {

/// One attribute of a tag: its qualified key and its raw value.
#[derive(Clone, Debug, PartialEq, Eq)]
pub struct Attribute {
    pub key: Vec<u8>,
    pub value: Vec<u8>,
}

/// The inside of a start tag or of an empty-element tag: the qualified name
/// and the well-formed attributes, in document order.
#[derive(Clone, Debug, PartialEq, Eq)]
pub struct Tag {
    pub name: Vec<u8>,
    pub attributes: Vec<Attribute>,
}

/// One structural event of the document.
#[derive(Clone, Debug, PartialEq, Eq)]
pub enum Token {
    /// `<name key="value">`
    Start(Tag),
    /// `</name>`, with the qualified name.
    End(Vec<u8>),
    /// `<name key="value"/>`
    Empty(Tag),
    /// Character data between tags, still escaped.
    Text(Vec<u8>),
    /// Anything else: a comment, a declaration, a processing instruction,
    /// a document type, a CDATA section.
    Other,
    /// The end of the document.
    Eof,
}

/// The byte `:` that parts a prefix from a local name.
pub const COLON: u8 = 58;

/// The index of the first colon of `name` at or after `from`, or the length
/// of `name` if there is none.
pub open spec fn colon_from(name: Seq<u8>, from: int) -> int
    decreases name.len() - from,
{
    if from < 0 || from >= name.len() {
        name.len() as int
    } else if name[from] == COLON {
        from
    } else {
        colon_from(name, from + 1)
    }
}

/// The local part of a qualified name: what follows its first colon, or the
/// whole name where it has none.
pub open spec fn local_part(name: Seq<u8>) -> Seq<u8> {
    let colon = colon_from(name, 0);
    if colon < name.len() {
        name.subrange(colon + 1, name.len() as int)
    } else {
        name
    }
}

/// Whether the local part of `name` is the ASCII word `word`.
pub open spec fn named(name: Seq<u8>, word: &str) -> bool {
    local_part(name) == word.spec_bytes()
}

/// `colon_from` finds the least index that holds a colon.
pub proof fn lemma_colon_from(name: Seq<u8>, from: int)
    requires
        0 <= from <= name.len(),
    ensures
        from <= colon_from(name, from) <= name.len(),
        colon_from(name, from) < name.len() ==> name[colon_from(name, from)] == COLON,
        forall|i: int| from <= i < colon_from(name, from) ==> name[i] != COLON,
    decreases name.len() - from,
{
    if from < name.len() && name[from] != COLON {
        lemma_colon_from(name, from + 1);
    }
}

/// A name without a colon is its own local part.
pub proof fn lemma_local_part_unqualified(name: Seq<u8>)
    requires
        forall|i: int| 0 <= i < name.len() ==> name[i] != COLON,
    ensures
        local_part(name) == name,
{
    lemma_colon_from(name, 0);
}

/// The local part of `prefix:rest`, where `prefix` holds no colon, is `rest`.
pub proof fn lemma_local_part_qualified(prefix: Seq<u8>, rest: Seq<u8>)
    requires
        forall|i: int| 0 <= i < prefix.len() ==> prefix[i] != COLON,
    ensures
        local_part(prefix + seq![COLON] + rest) == rest,
{
    let name = prefix + seq![COLON] + rest;
    lemma_colon_from(name, 0);
    let colon = colon_from(name, 0);
    assert(name[prefix.len() as int] == COLON);
    assert(colon == prefix.len()) by {
        if colon < prefix.len() {
            assert(name[colon] == prefix[colon]);
        }
    }
    assert(name.subrange(colon + 1, name.len() as int) =~= rest);
}

/// Whether two runs of bytes are the same.
pub fn bytes_eq(a: &[u8], b: &[u8]) -> (same: bool)
    ensures
        same == (a@ == b@),
{
    if a.len() != b.len() {
        return false;
    }
    let mut i: usize = 0;
    while i < a.len()
        invariant
            a.len() == b.len(),
            i <= a.len(),
            forall|k: int| 0 <= k < i ==> a[k] == b[k],
        decreases a.len() - i,
    {
        if a[i] != b[i] {
            return false;
        }
        i += 1;
    }
    assert(a@ =~= b@);
    true
}

/// The local part of a qualified name.
///
/// Calls `quick_xml::name::QName::local_name`, which looks for the first
/// colon of the name and returns what follows it, or the whole name where
/// there is no colon. The contract states that result; it is not proved.
#[verifier::external_body]
pub(crate) fn local_name(name: &[u8]) -> (local: &[u8])
    ensures
        local@ == local_part(name@),
{
    quick_xml::name::QName(name).local_name().into_inner()
}

/// Whether two strings hold the same characters.
pub fn str_eq(a: &str, b: &str) -> (same: bool)
    ensures
        same == (a@ == b@),
{
    broadcast use vstd::utf8::encode_utf8_decode_utf8;

    let left = a.as_bytes();
    let right = b.as_bytes();
    assert(vstd::utf8::decode_utf8(left@) == a@);
    assert(vstd::utf8::decode_utf8(right@) == b@);
    bytes_eq(left, right)
}

/// Whether `name` is the word `word`, byte for byte.
pub fn is_word(name: &[u8], word: &str) -> (same: bool)
    ensures
        same == (name@ == word.spec_bytes()),
{
    bytes_eq(name, word.as_bytes())
}

/// Whether the local part of `name` is `word`.
pub fn is_named(name: &[u8], word: &str) -> (same: bool)
    ensures
        same == named(name@, word),
{
    is_word(local_name(name), word)
}

impl Tag {
    /// Whether the local part of the tag's name is `word`.
    pub open spec fn is(&self, word: &str) -> bool {
        named(self.name@, word)
    }
}

/// Whether `token` is the end tag whose local name is `word`.
pub fn closes(token: &Token, word: &str) -> (closing: bool)
    ensures
        closing == (token matches Token::End(name) && named(name@, word)),
{
    match token {
        Token::End(name) => is_named(name.as_slice(), word),
        _ => false,
    }
}

/// Words that differ are written with bytes that differ.
pub proof fn lemma_words_differ()
    ensures
        forall|a: &str, b: &str| #[trigger]
            a.spec_bytes() == #[trigger] b.spec_bytes() ==> a@ == b@,
{
    broadcast use vstd::utf8::encode_utf8_decode_utf8;

    assert forall|a: &str, b: &str| #[trigger]
        a.spec_bytes() == #[trigger] b.spec_bytes() implies a@ == b@ by {
        assert(vstd::utf8::decode_utf8(a.spec_bytes()) == a@);
        assert(vstd::utf8::decode_utf8(b.spec_bytes()) == b@);
    }
}

} // verus!
