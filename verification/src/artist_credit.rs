//! Artist credits: who took part in a release, a master or a track, and
//! how the credit is worded.
use crate::parser::{bare_element, element, fed, Parser, ParserError};
use crate::reader::{lemma_quiet_element, passes_over};
use crate::token::{Tag, Token, is_named, is_word, lemma_words_differ, local_name, named, str_eq};
use crate::util::{maybe_text, optional_text_of, text, text_of, text_u32, u32_text};
use vstd::prelude::*;
use vstd::string::*;

verus! {

/// One credited artist.
#[derive(Clone, Debug, PartialEq, Eq)]
pub struct ArtistCredit {
    pub id: u32,
    pub name: String,
    /// The name as the credit words it, where that differs.
    pub anv: Option<String>,
    /// The word or sign that links this credit to the next.
    pub join: Option<String>,
    pub role: Option<String>,
    /// The tracks that the credit is for.
    pub tracks: Option<String>,
}

/// The value of an [`ArtistCredit`].
pub struct ArtistCreditView {
    pub id: u32,
    pub name: Seq<char>,
    pub anv: Option<Seq<char>>,
    pub join: Option<Seq<char>>,
    pub role: Option<Seq<char>>,
    pub tracks: Option<Seq<char>>,
}

impl View for ArtistCredit {
    type V = ArtistCreditView;

    open spec fn view(&self) -> ArtistCreditView {
        ArtistCreditView {
            id: self.id,
            name: self.name@,
            anv: self.anv.deep_view(),
            join: self.join.deep_view(),
            role: self.role.deep_view(),
            tracks: self.tracks.deep_view(),
        }
    }
}

impl DeepView for ArtistCredit {
    type V = ArtistCreditView;

    open spec fn deep_view(&self) -> ArtistCreditView {
        self@
    }
}

impl ArtistCreditView {
    /// The credit with no field set.
    pub open spec fn empty() -> ArtistCreditView {
        ArtistCreditView {
            id: 0,
            name: Seq::empty(),
            anv: None,
            join: None,
            role: None,
            tracks: None,
        }
    }

    /// What this credit adds to a credit line: the name, and after it the
    /// join between two spaces. A comma stands right behind the name.
    pub open spec fn worded(self) -> Seq<char> {
        match self.join {
            Some(join) => if join == ","@ {
                self.name + join + " "@
            } else {
                self.name + " "@ + join + " "@
            },
            None => self.name,
        }
    }
}

impl Default for ArtistCredit {
    fn default() -> (credit: ArtistCredit)
        ensures
            credit@ == ArtistCreditView::empty(),
    {
        ArtistCredit {
            id: 0,
            name: String::new(),
            anv: None,
            join: None,
            role: None,
            tracks: None,
        }
    }
}

impl ArtistCredit {
    /// Starts a credit with the given id and name, all else empty.
    pub fn builder(id: u32, name: &str) -> (builder: ArtistCreditBuilder)
        ensures
            builder@ == (ArtistCreditView { id, name: name@, ..ArtistCreditView::empty() }),
    {
        let mut inner = ArtistCredit::default();
        inner.id = id;
        inner.name = name.to_owned();
        ArtistCreditBuilder { inner }
    }
}

/// The credits worded one after the other.
pub open spec fn credit_line(credits: Seq<ArtistCreditView>) -> Seq<char>
    decreases credits.len(),
{
    if credits.len() == 0 {
        Seq::empty()
    } else {
        credit_line(credits.drop_last()) + credits.last().worded()
    }
}

/// The line that names the artists of a release or a master: the name
/// alone where there is one credit, the credits worded one after the other
/// where there are more, nothing where there is none.
pub open spec fn credit_string(credits: Seq<ArtistCreditView>) -> Seq<char> {
    if credits.len() == 1 {
        credits[0].name
    } else {
        credit_line(credits)
    }
}

/// The line that names the credited artists.
pub fn get_credit_string(credits: &Vec<ArtistCredit>) -> (line: String)
    ensures
        line@ == credit_string(credits.deep_view()),
{
    if credits.len() == 1 {
        return credits[0].name.clone();
    }
    let mut line = String::new();
    let mut i: usize = 0;
    assert(credits.deep_view().take(0) =~= Seq::empty());
    while i < credits.len()
        invariant
            i <= credits.len(),
            line@ == credit_line(credits.deep_view().take(i as int)),
        decreases credits.len() - i,
    {
        let credit = &credits[i];
        let ghost before = line@;
        let ghost seen = credits.deep_view().take(i + 1);
        assert(seen.drop_last() =~= credits.deep_view().take(i as int));
        assert(seen.last() == credit@);
        line.append(credit.name.as_str());
        match &credit.join {
            Some(join) => {
                if !str_eq(join.as_str(), ",") {
                    line.append(" ");
                }
                line.append(join.as_str());
                line.append(" ");
            },
            None => {},
        }
        assert(line@ =~= before + credit@.worded());
        i += 1;
    }
    assert(credits.deep_view().take(i as int) =~= credits.deep_view());
    line
}

/// Where a credit parser stands in the credit.
#[derive(Clone, Copy, Debug, PartialEq, Eq)]
pub enum ParserState {
    /// Between the fields of the credit, or between credits.
    Artist,
    Id,
    Name,
    Anv,
    Join,
    Role,
    Tracks,
}

/// The state machine that builds artist credits. One instance serves every
/// list of credits of its container, one list at a time.
#[derive(Debug)]
pub struct ArtistCreditParser {
    state: ParserState,
    current_item: ArtistCredit,
    item_ready: bool,
}

/// The state of an [`ArtistCreditParser`].
pub struct ArtistCreditParserView {
    pub state: ParserState,
    pub item: ArtistCreditView,
    pub ready: bool,
}

impl View for ArtistCreditParser {
    type V = ArtistCreditParserView;

    closed spec fn view(&self) -> ArtistCreditParserView {
        ArtistCreditParserView {
            state: self.state,
            item: self.current_item@,
            ready: self.item_ready,
        }
    }
}

impl ArtistCreditParserView {
    /// The state that a start tag leads to from between the fields.
    pub open spec fn opened(tag: &Tag) -> ParserState {
        if tag.is("artist") {
            ParserState::Artist
        } else if tag.is("id") {
            ParserState::Id
        } else if tag.is("name") {
            ParserState::Name
        } else if tag.is("anv") {
            ParserState::Anv
        } else if tag.is("join") {
            ParserState::Join
        } else if tag.is("role") {
            ParserState::Role
        } else if tag.is("tracks") {
            ParserState::Tracks
        } else {
            ParserState::Artist
        }
    }

    /// The parser between the fields again, with `item` as its credit.
    pub open spec fn back(self, item: ArtistCreditView) -> ArtistCreditParserView {
        ArtistCreditParserView { state: ParserState::Artist, item, ..self }
    }

    /// The credit after the text `raw` was read in the field that the state
    /// stands for.
    pub open spec fn filled(self, raw: Seq<u8>) -> Result<ArtistCreditView, ParserError> {
        match self.state {
            ParserState::Artist => Ok(self.item),
            ParserState::Id => match u32_text(raw) {
                Ok(id) => Ok(ArtistCreditView { id, ..self.item }),
                Err(error) => Err(error),
            },
            ParserState::Name => match text_of(raw) {
                Ok(name) => Ok(ArtistCreditView { name, ..self.item }),
                Err(error) => Err(error),
            },
            ParserState::Anv => match optional_text_of(raw) {
                Ok(anv) => Ok(ArtistCreditView { anv, ..self.item }),
                Err(error) => Err(error),
            },
            ParserState::Join => match optional_text_of(raw) {
                Ok(join) => Ok(ArtistCreditView { join, ..self.item }),
                Err(error) => Err(error),
            },
            ParserState::Role => match optional_text_of(raw) {
                Ok(role) => Ok(ArtistCreditView { role, ..self.item }),
                Err(error) => Err(error),
            },
            ParserState::Tracks => match optional_text_of(raw) {
                Ok(tracks) => Ok(ArtistCreditView { tracks, ..self.item }),
                Err(error) => Err(error),
            },
        }
    }

    /// The transition function of the credit parser. Between the fields a
    /// start tag opens its field and the end tag of the credit completes
    /// it. Inside a field a text is read into the field; whatever the token,
    /// the parser is between the fields afterwards.
    pub open spec fn step(self, token: &Token) -> Result<ArtistCreditParserView, ParserError> {
        match self.state {
            ParserState::Artist => match token {
                Token::Start(tag) => Ok(
                    ArtistCreditParserView { state: Self::opened(tag), ..self },
                ),
                Token::End(name) => if named(name@, "artist") {
                    Ok(ArtistCreditParserView { ready: true, ..self })
                } else {
                    Ok(self)
                },
                _ => Ok(self),
            },
            _ => match token {
                Token::Text(raw) => match self.filled(raw@) {
                    Ok(item) => Ok(self.back(item)),
                    Err(error) => Err(error),
                },
                _ => Ok(self.back(self.item)),
            },
        }
    }
}

impl ArtistCreditParser {
    fn opened(tag: &Tag) -> (state: ParserState)
        ensures
            state == ArtistCreditParserView::opened(tag),
    {
        let name = local_name(tag.name.as_slice());
        if is_word(name, "artist") {
            ParserState::Artist
        } else if is_word(name, "id") {
            ParserState::Id
        } else if is_word(name, "name") {
            ParserState::Name
        } else if is_word(name, "anv") {
            ParserState::Anv
        } else if is_word(name, "join") {
            ParserState::Join
        } else if is_word(name, "role") {
            ParserState::Role
        } else if is_word(name, "tracks") {
            ParserState::Tracks
        } else {
            ParserState::Artist
        }
    }

    /// Reads the text `raw` into the field that the state stands for.
    fn fill(&mut self, raw: &[u8]) -> (result: Result<(), ParserError>)
        ensures
            match old(self)@.filled(raw@) {
                Ok(item) => result is Ok && final(self)@ == (ArtistCreditParserView {
                    item,
                    ..old(self)@
                }),
                Err(error) => result == Err::<(), ParserError>(error)
                    && final(self)@ == old(self)@,
            },
    {
        match self.state {
            ParserState::Artist => {},
            ParserState::Id => match text_u32(raw) {
                Ok(id) => {
                    self.current_item.id = id;
                },
                Err(error) => return Err(error),
            },
            ParserState::Name => match text(raw) {
                Ok(name) => {
                    self.current_item.name = name;
                },
                Err(error) => return Err(error),
            },
            ParserState::Anv => match maybe_text(raw) {
                Ok(anv) => {
                    self.current_item.anv = anv;
                },
                Err(error) => return Err(error),
            },
            ParserState::Join => match maybe_text(raw) {
                Ok(join) => {
                    self.current_item.join = join;
                },
                Err(error) => return Err(error),
            },
            ParserState::Role => match maybe_text(raw) {
                Ok(role) => {
                    self.current_item.role = role;
                },
                Err(error) => return Err(error),
            },
            ParserState::Tracks => match maybe_text(raw) {
                Ok(tracks) => {
                    self.current_item.tracks = tracks;
                },
                Err(error) => return Err(error),
            },
        }
        Ok(())
    }
}

impl Parser for ArtistCreditParser {
    type Item = ArtistCredit;

    open spec fn fresh() -> ArtistCreditParserView {
        ArtistCreditParserView {
            state: ParserState::Artist,
            item: ArtistCreditView::empty(),
            ready: false,
        }
    }

    open spec fn step(model: ArtistCreditParserView, token: &Token) -> Result<
        ArtistCreditParserView,
        ParserError,
    > {
        model.step(token)
    }

    open spec fn ready(model: ArtistCreditParserView) -> bool {
        model.ready
    }

    open spec fn item(model: ArtistCreditParserView) -> ArtistCreditView {
        model.item
    }

    open spec fn emptied(model: ArtistCreditParserView) -> ArtistCreditParserView {
        ArtistCreditParserView { item: ArtistCreditView::empty(), ready: false, ..model }
    }

    proof fn lemma_emptied_slot(model: ArtistCreditParserView) {
    }

    proof fn lemma_step_alike(model: ArtistCreditParserView, a: &Token, b: &Token) {
    }

    proof fn lemma_fresh_not_ready() {
    }

    fn new() -> (parser: Self) {
        ArtistCreditParser {
            state: ParserState::Artist,
            current_item: ArtistCredit::default(),
            item_ready: false,
        }
    }

    fn item_ready(&self) -> (ready: bool) {
        self.item_ready
    }

    fn take(&mut self) -> (item: ArtistCredit) {
        self.item_ready = false;
        let mut item = ArtistCredit::default();
        std::mem::swap(&mut self.current_item, &mut item);
        item
    }

    fn process(&mut self, token: &Token) -> (result: Result<(), ParserError>) {
        match self.state {
            ParserState::Artist => match token {
                Token::Start(tag) => {
                    self.state = Self::opened(tag);
                },
                Token::End(name) => {
                    if is_named(name.as_slice(), "artist") {
                        self.item_ready = true;
                    }
                },
                _ => {},
            },
            _ => {
                match token {
                    Token::Text(raw) => match self.fill(raw.as_slice()) {
                        Ok(()) => {},
                        Err(error) => return Err(error),
                    },
                    _ => {},
                }
                self.state = ParserState::Artist;
            },
        }
        Ok(())
    }
}

/// Builds an [`ArtistCredit`] field by field.
pub struct ArtistCreditBuilder {
    inner: ArtistCredit,
}

impl View for ArtistCreditBuilder {
    type V = ArtistCreditView;

    closed spec fn view(&self) -> ArtistCreditView {
        self.inner@
    }
}

impl ArtistCreditBuilder {
    pub fn anv(self, anv: &str) -> (builder: Self)
        ensures
            builder@ == (ArtistCreditView { anv: Some(anv@), ..self@ }),
    {
        let mut builder = self;
        builder.inner.anv = Some(anv.to_owned());
        builder
    }

    pub fn join(self, join: &str) -> (builder: Self)
        ensures
            builder@ == (ArtistCreditView { join: Some(join@), ..self@ }),
    {
        let mut builder = self;
        builder.inner.join = Some(join.to_owned());
        builder
    }

    pub fn role(self, role: &str) -> (builder: Self)
        ensures
            builder@ == (ArtistCreditView { role: Some(role@), ..self@ }),
    {
        let mut builder = self;
        builder.inner.role = Some(role.to_owned());
        builder
    }

    pub fn tracks(self, tracks: &str) -> (builder: Self)
        ensures
            builder@ == (ArtistCreditView { tracks: Some(tracks@), ..self@ }),
    {
        let mut builder = self;
        builder.inner.tracks = Some(tracks.to_owned());
        builder
    }

    pub fn build(self) -> (credit: ArtistCredit)
        ensures
            credit@ == self@,
    {
        self.inner
    }
}

/// The start tags that a credit knows, each with the state that it leads
/// to from between the fields.
pub proof fn lemma_credit_fields(tag: &Tag)
    ensures
        tag.is("artist") ==> ArtistCreditParserView::opened(tag) == ParserState::Artist,
        tag.is("id") ==> ArtistCreditParserView::opened(tag) == ParserState::Id,
        tag.is("name") ==> ArtistCreditParserView::opened(tag) == ParserState::Name,
        tag.is("anv") ==> ArtistCreditParserView::opened(tag) == ParserState::Anv,
        tag.is("join") ==> ArtistCreditParserView::opened(tag) == ParserState::Join,
        tag.is("role") ==> ArtistCreditParserView::opened(tag) == ParserState::Role,
        tag.is("tracks") ==> ArtistCreditParserView::opened(tag) == ParserState::Tracks,
{
    lemma_words_differ();
    reveal_strlit("artist");
    reveal_strlit("id");
    reveal_strlit("name");
    reveal_strlit("anv");
    reveal_strlit("join");
    reveal_strlit("role");
    reveal_strlit("tracks");
}

/// A credit does not leak into the next: the token that completes a credit
/// leaves the parser as a fresh one, and the credit that is handed out is
/// the one that was being built. This is what lets one parser serve the
/// lists of artists and of extra artists of a release and of all its tracks.
pub proof fn lemma_credit_rests(model: ArtistCreditParserView, token: &Token)
    requires
        !model.ready,
    ensures
        fed::<ArtistCreditParser>(model, token) matches Ok((next, Some(item))) ==> next
            == ArtistCreditParser::fresh() && item == model.item,
        fed::<ArtistCreditParser>(model, token) matches Ok((next, _)) ==> !next.ready,
{
}

/// An optional element of a credit that is there with nothing in it, or
/// with white space only, leaves the credit as it is, as if the element were
/// absent. This holds of the name as credited, the join, the role and the
/// tracks.
pub proof fn lemma_credit_blank_is_absent(
    model: ArtistCreditParserView,
    open: Tag,
    text: Vec<u8>,
    close: Vec<u8>,
)
    requires
        !model.ready,
        model.state == ParserState::Artist,
        open.is("anv") && model.item.anv is None || open.is("join") && model.item.join is None
            || open.is("role") && model.item.role is None || open.is("tracks")
            && model.item.tracks is None,
        optional_text_of(text@) == Ok::<Option<Seq<char>>, ParserError>(None),
        !named(close@, "artist"),
    ensures
        passes_over::<ArtistCreditParser>(model, bare_element(open, close)),
        passes_over::<ArtistCreditParser>(model, element(open, text, close)),
        passes_over::<ArtistCreditParser>(model, seq![Token::Empty(open)]),
{
    lemma_credit_fields(&open);
    lemma_quiet_element::<ArtistCreditParser>(model, open, text, close);
}

} // verus!
