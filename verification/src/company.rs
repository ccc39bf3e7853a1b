//! Companies that had a part in a release.
use crate::parser::{bare_element, element, fed, Parser, ParserError};
use crate::reader::{lemma_quiet_element, passes_over};
use crate::token::{Tag, Token, is_named, is_word, lemma_words_differ, local_name, named};
use crate::util::{
    maybe_text, optional_text_of, text, text_of, text_u32, text_u8, u32_text, u8_text,
};
use vstd::prelude::*;
use vstd::string::*;

verus! {

/// One company and the part it had.
#[derive(Clone, Debug, PartialEq, Eq)]
pub struct ReleaseCompany {
    pub id: Option<u32>,
    pub name: String,
    pub catno: Option<String>,
    /// The code of the part that the company had.
    pub entity_type: u8,
    /// That part in words.
    pub entity_type_name: String,
}

/// The value of a [`ReleaseCompany`].
pub struct ReleaseCompanyView {
    pub id: Option<u32>,
    pub name: Seq<char>,
    pub catno: Option<Seq<char>>,
    pub entity_type: u8,
    pub entity_type_name: Seq<char>,
}

impl View for ReleaseCompany {
    type V = ReleaseCompanyView;

    open spec fn view(&self) -> ReleaseCompanyView {
        ReleaseCompanyView {
            id: self.id,
            name: self.name@,
            catno: self.catno.deep_view(),
            entity_type: self.entity_type,
            entity_type_name: self.entity_type_name@,
        }
    }
}

impl DeepView for ReleaseCompany {
    type V = ReleaseCompanyView;

    open spec fn deep_view(&self) -> ReleaseCompanyView {
        self@
    }
}

impl ReleaseCompanyView {
    /// The company with no field set.
    pub open spec fn empty() -> ReleaseCompanyView {
        ReleaseCompanyView {
            id: None,
            name: Seq::empty(),
            catno: None,
            entity_type: 0,
            entity_type_name: Seq::empty(),
        }
    }
}

impl Default for ReleaseCompany {
    fn default() -> (company: ReleaseCompany)
        ensures
            company@ == ReleaseCompanyView::empty(),
    {
        ReleaseCompany {
            id: None,
            name: String::new(),
            catno: None,
            entity_type: 0,
            entity_type_name: String::new(),
        }
    }
}

/// Where a company parser stands in the company.
#[derive(Clone, Copy, Debug, PartialEq, Eq)]
pub enum ParserState {
    /// Between the fields of the company, or between companies.
    Company,
    Id,
    Name,
    Catno,
    EntityType,
    EntityTypeName,
}

/// The state machine that builds the companies of a release.
#[derive(Debug)]
pub struct CompanyParser {
    state: ParserState,
    current_item: ReleaseCompany,
    item_ready: bool,
}

/// The state of a [`CompanyParser`].
pub struct CompanyParserView {
    pub state: ParserState,
    pub item: ReleaseCompanyView,
    pub ready: bool,
}

impl View for CompanyParser {
    type V = CompanyParserView;

    closed spec fn view(&self) -> CompanyParserView {
        CompanyParserView { state: self.state, item: self.current_item@, ready: self.item_ready }
    }
}

impl CompanyParserView {
    /// The state that a start tag leads to from between the fields.
    pub open spec fn opened(tag: &Tag) -> ParserState {
        if tag.is("id") {
            ParserState::Id
        } else if tag.is("name") {
            ParserState::Name
        } else if tag.is("catno") {
            ParserState::Catno
        } else if tag.is("entity_type") {
            ParserState::EntityType
        } else if tag.is("entity_type_name") {
            ParserState::EntityTypeName
        } else {
            ParserState::Company
        }
    }

    /// The parser between the fields again, with `item` as its company.
    pub open spec fn back(self, item: ReleaseCompanyView) -> CompanyParserView {
        CompanyParserView { state: ParserState::Company, item, ..self }
    }

    /// The company after the text `raw` was read in the field that the
    /// state stands for.
    pub open spec fn filled(self, raw: Seq<u8>) -> Result<ReleaseCompanyView, ParserError> {
        match self.state {
            ParserState::Company => Ok(self.item),
            ParserState::Id => match u32_text(raw) {
                Ok(id) => Ok(ReleaseCompanyView { id: Some(id), ..self.item }),
                Err(error) => Err(error),
            },
            ParserState::Name => match text_of(raw) {
                Ok(name) => Ok(ReleaseCompanyView { name, ..self.item }),
                Err(error) => Err(error),
            },
            ParserState::Catno => match optional_text_of(raw) {
                Ok(catno) => Ok(ReleaseCompanyView { catno, ..self.item }),
                Err(error) => Err(error),
            },
            ParserState::EntityType => match u8_text(raw) {
                Ok(entity_type) => Ok(ReleaseCompanyView { entity_type, ..self.item }),
                Err(error) => Err(error),
            },
            ParserState::EntityTypeName => match text_of(raw) {
                Ok(entity_type_name) => Ok(ReleaseCompanyView { entity_type_name, ..self.item }),
                Err(error) => Err(error),
            },
        }
    }

    /// The transition function of the company parser. Between the fields a
    /// start tag opens its field and the end tag of the company completes
    /// it. Inside a field a text is read into the field; whatever the token,
    /// the parser is between the fields afterwards.
    pub open spec fn step(self, token: &Token) -> Result<CompanyParserView, ParserError> {
        match self.state {
            ParserState::Company => match token {
                Token::Start(tag) => Ok(CompanyParserView { state: Self::opened(tag), ..self }),
                Token::End(name) => if named(name@, "company") {
                    Ok(CompanyParserView { ready: true, ..self })
                } else {
                    Ok(self)
                },
                _ => Ok(self),
            },
            _ => match token {
                Token::Text(raw) => match self.filled(raw@) {
                    Ok(item) => Ok(self.back(item)),
                    Err(error) => Err(error),
                },
                _ => Ok(self.back(self.item)),
            },
        }
    }
}

impl CompanyParser {
    fn opened(tag: &Tag) -> (state: ParserState)
        ensures
            state == CompanyParserView::opened(tag),
    {
        let name = local_name(tag.name.as_slice());
        if is_word(name, "id") {
            ParserState::Id
        } else if is_word(name, "name") {
            ParserState::Name
        } else if is_word(name, "catno") {
            ParserState::Catno
        } else if is_word(name, "entity_type") {
            ParserState::EntityType
        } else if is_word(name, "entity_type_name") {
            ParserState::EntityTypeName
        } else {
            ParserState::Company
        }
    }

    /// Reads the text `raw` into the field that the state stands for.
    fn fill(&mut self, raw: &[u8]) -> (result: Result<(), ParserError>)
        ensures
            match old(self)@.filled(raw@) {
                Ok(item) => result is Ok && final(self)@ == (CompanyParserView {
                    item,
                    ..old(self)@
                }),
                Err(error) => result == Err::<(), ParserError>(error)
                    && final(self)@ == old(self)@,
            },
    {
        match self.state {
            ParserState::Company => {},
            ParserState::Id => match text_u32(raw) {
                Ok(id) => {
                    self.current_item.id = Some(id);
                },
                Err(error) => return Err(error),
            },
            ParserState::Name => match text(raw) {
                Ok(name) => {
                    self.current_item.name = name;
                },
                Err(error) => return Err(error),
            },
            ParserState::Catno => match maybe_text(raw) {
                Ok(catno) => {
                    self.current_item.catno = catno;
                },
                Err(error) => return Err(error),
            },
            ParserState::EntityType => match text_u8(raw) {
                Ok(entity_type) => {
                    self.current_item.entity_type = entity_type;
                },
                Err(error) => return Err(error),
            },
            ParserState::EntityTypeName => match text(raw) {
                Ok(entity_type_name) => {
                    self.current_item.entity_type_name = entity_type_name;
                },
                Err(error) => return Err(error),
            },
        }
        Ok(())
    }
}

impl Parser for CompanyParser {
    type Item = ReleaseCompany;

    open spec fn fresh() -> CompanyParserView {
        CompanyParserView {
            state: ParserState::Company,
            item: ReleaseCompanyView::empty(),
            ready: false,
        }
    }

    open spec fn step(model: CompanyParserView, token: &Token) -> Result<
        CompanyParserView,
        ParserError,
    > {
        model.step(token)
    }

    open spec fn ready(model: CompanyParserView) -> bool {
        model.ready
    }

    open spec fn item(model: CompanyParserView) -> ReleaseCompanyView {
        model.item
    }

    open spec fn emptied(model: CompanyParserView) -> CompanyParserView {
        CompanyParserView { item: ReleaseCompanyView::empty(), ready: false, ..model }
    }

    proof fn lemma_emptied_slot(model: CompanyParserView) {
    }

    proof fn lemma_step_alike(model: CompanyParserView, a: &Token, b: &Token) {
    }

    proof fn lemma_fresh_not_ready() {
    }

    fn new() -> (parser: Self) {
        CompanyParser {
            state: ParserState::Company,
            current_item: ReleaseCompany::default(),
            item_ready: false,
        }
    }

    fn item_ready(&self) -> (ready: bool) {
        self.item_ready
    }

    fn take(&mut self) -> (item: ReleaseCompany) {
        self.item_ready = false;
        let mut item = ReleaseCompany::default();
        std::mem::swap(&mut self.current_item, &mut item);
        item
    }

    fn process(&mut self, token: &Token) -> (result: Result<(), ParserError>) {
        match self.state {
            ParserState::Company => match token {
                Token::Start(tag) => {
                    self.state = Self::opened(tag);
                },
                Token::End(name) => {
                    if is_named(name.as_slice(), "company") {
                        self.item_ready = true;
                    }
                },
                _ => {},
            },
            _ => {
                match token {
                    Token::Text(raw) => match self.fill(raw.as_slice()) {
                        Ok(()) => {},
                        Err(error) => return Err(error),
                    },
                    _ => {},
                }
                self.state = ParserState::Company;
            },
        }
        Ok(())
    }
}

/// The start tags that a company knows, each with the state that it leads
/// to from between the fields.
pub proof fn lemma_company_fields(tag: &Tag)
    ensures
        tag.is("id") ==> CompanyParserView::opened(tag) == ParserState::Id,
        tag.is("name") ==> CompanyParserView::opened(tag) == ParserState::Name,
        tag.is("catno") ==> CompanyParserView::opened(tag) == ParserState::Catno,
        tag.is("entity_type") ==> CompanyParserView::opened(tag) == ParserState::EntityType,
        tag.is("entity_type_name") ==> CompanyParserView::opened(tag)
            == ParserState::EntityTypeName,
{
    lemma_words_differ();
    reveal_strlit("id");
    reveal_strlit("name");
    reveal_strlit("catno");
    reveal_strlit("entity_type");
    reveal_strlit("entity_type_name");
}

/// A company does not leak into the next: the token that completes a
/// company leaves the parser as a fresh one, and the company that is handed
/// out is the one that was being built.
pub proof fn lemma_company_rests(model: CompanyParserView, token: &Token)
    requires
        !model.ready,
    ensures
        fed::<CompanyParser>(model, token) matches Ok((next, Some(item))) ==> next
            == CompanyParser::fresh() && item == model.item,
        fed::<CompanyParser>(model, token) matches Ok((next, _)) ==> !next.ready,
{
}

/// A catalogue number that is there with nothing in it, or with white
/// space only, leaves the company as it is, as if the element were absent.
/// So does an id that is there with nothing in it.
pub proof fn lemma_company_blank_is_absent(
    model: CompanyParserView,
    open: Tag,
    text: Vec<u8>,
    close: Vec<u8>,
)
    requires
        !model.ready,
        model.state == ParserState::Company,
        !named(close@, "company"),
    ensures
        open.is("catno") && model.item.catno is None ==> passes_over::<CompanyParser>(
            model,
            bare_element(open, close),
        ) && passes_over::<CompanyParser>(model, seq![Token::Empty(open)]),
        open.is("catno") && model.item.catno is None && optional_text_of(text@) == Ok::<
            Option<Seq<char>>,
            ParserError,
        >(None) ==> passes_over::<CompanyParser>(model, element(open, text, close)),
        open.is("id") ==> passes_over::<CompanyParser>(model, bare_element(open, close))
            && passes_over::<CompanyParser>(model, seq![Token::Empty(open)]),
{
    lemma_company_fields(&open);
    lemma_quiet_element::<CompanyParser>(model, open, text, close);
}

} // verus!
