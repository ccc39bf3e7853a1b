//! The state machines, token by token.
use disco_quick::artist::{Artist, ArtistParser};
use disco_quick::artist_credit::{ArtistCredit, ArtistCreditParser};
use disco_quick::company::{CompanyParser, ReleaseCompany};
use disco_quick::label::{Label, LabelParser};
use disco_quick::master::{Master, MasterParser};
use disco_quick::parser::{feed, harvest, XmlFault};
use disco_quick::release::{Release, ReleaseParser};
use disco_quick::track::{Track, TrackParser};
use disco_quick::video::{Video, VideoParser};
use disco_quick::{Attribute, Parser, ParserError, Tag, Token};
use quick_xml::events::{BytesStart, Event};

fn tag(start: &BytesStart) -> Tag {
    let mut attributes = Vec::new();
    for attribute in start.attributes() {
        if let Ok(attribute) = attribute {
            attributes.push(Attribute {
                key: attribute.key.as_ref().to_vec(),
                value: attribute.value.into_owned(),
            });
        }
    }
    Tag { name: start.name().as_ref().to_vec(), attributes }
}

/// The tokens of `xml`, text trimmed, without the end of the document.
fn tokens(xml: &str) -> Vec<Token> {
    let mut reader = quick_xml::Reader::from_str(xml);
    reader.config_mut().trim_text(true);
    reader.config_mut().check_end_names = false;
    reader.config_mut().allow_unmatched_ends = true;
    let mut tokens = Vec::new();
    loop {
        let token = match reader.read_event().unwrap() {
            Event::Start(start) => Token::Start(tag(&start)),
            Event::Empty(start) => Token::Empty(tag(&start)),
            Event::End(end) => Token::End(end.name().as_ref().to_vec()),
            Event::Text(text) => Token::Text(text.into_inner().into_owned()),
            Event::Eof => return tokens,
            _ => Token::Other,
        };
        tokens.push(token);
    }
}

fn start(name: &str) -> Token {
    Token::Start(Tag { name: name.as_bytes().to_vec(), attributes: vec![] })
}

fn end(name: &str) -> Token {
    Token::End(name.as_bytes().to_vec())
}

fn text(content: &str) -> Token {
    Token::Text(content.as_bytes().to_vec())
}

/// Gives the tokens to a fresh parser and returns the records that they
/// complete, or the first error with the index of its token.
fn run<P: Parser>(tokens: &[Token]) -> Result<Vec<P::Item>, (usize, ParserError)> {
    let mut parser = P::new();
    let mut items = Vec::new();
    for (index, token) in tokens.iter().enumerate() {
        match feed(&mut parser, token) {
            Ok(Some(item)) => items.push(item),
            Ok(None) => {}
            Err(error) => return Err((index, error)),
        }
    }
    Ok(items)
}

fn one<P: Parser>(xml: &str) -> P::Item {
    let mut items = run::<P>(&tokens(xml)).unwrap();
    assert_eq!(items.len(), 1);
    items.remove(0)
}

fn error_of<P: Parser>(xml: &str) -> ParserError {
    match run::<P>(&tokens(xml)) {
        Err((_, error)) => error,
        Ok(_) => panic!("no error"),
    }
}

#[test]
fn artist_example_end_to_end() {
    let artist = one::<ArtistParser>(
        r#"<artist>
             <id>2</id><name>Mr. James Barth &amp; A.D.</name>
             <namevariations>
               <name>MR JAMES BARTH &amp; A. D.</name><name>Mr Barth &amp; A.D.</name>
               <name>Mr. Barth &amp; A.D.</name><name>Mr. James Barth &amp; A. D.</name>
             </namevariations>
             <aliases>
               <name id="2470">Puente Latino</name><name id="19536">Yakari &amp; Delano</name>
               <name id="103709">Crushed Insect &amp; The Sick Puppy</name>
               <name id="384581">ADCL</name>
               <name id="1779857">Alexi Delano &amp; Cari Lekebusch</name>
             </aliases>
           </artist>"#,
    );
    assert_eq!(artist.id, 2);
    assert_eq!(artist.name, "Mr. James Barth & A.D.");
    assert_eq!(
        artist.name_variations,
        ["MR JAMES BARTH & A. D.", "Mr Barth & A.D.", "Mr. Barth & A.D.", "Mr. James Barth & A. D."]
    );
    assert_eq!(artist.aliases.len(), 5);
    let ids: Vec<u32> = artist.aliases.iter().map(|alias| alias.id).collect();
    assert_eq!(ids, [2470, 19536, 103709, 384581, 1779857]);
    assert_eq!(artist.aliases[1].name, "Yakari & Delano");
}

#[test]
fn master_id_element_gives_two_fields() {
    let release = one::<ReleaseParser>(
        r#"<release id="40299" status="Accepted">
             <master_id is_main_release="true">35574</master_id></release>"#,
    );
    assert_eq!(release.master_id, Some(35574));
    assert!(release.is_main_release);
    let other = one::<ReleaseParser>(
        r#"<release id="1" status="Draft"><master_id is_main_release="false">7</master_id>
           <title>T</title></release>"#,
    );
    assert_eq!(other.master_id, Some(7));
    assert!(!other.is_main_release);
    assert_eq!(other.title, "T");
    assert_eq!(other.status, "Draft");
}

#[test]
fn a_release_without_master_has_none() {
    let release = one::<ReleaseParser>(r#"<release id="1" status="Accepted"></release>"#);
    assert_eq!(release, Release::builder(1, "").status("Accepted").build());
    assert_eq!(release.master_id, None);
    assert!(!release.is_main_release);
}

#[test]
fn list_entry_without_id_is_missing_attribute() {
    for section in ["aliases", "groups", "members"] {
        let xml = format!("<artist><{section}><name>Puente Latino</name></{section}></artist>");
        assert_eq!(error_of::<ArtistParser>(&xml), ParserError::MissingAttr("id"));
        let empty = format!("<artist><{section}><name id=\"\">X</name></{section}></artist>");
        assert_eq!(error_of::<ArtistParser>(&empty), ParserError::MissingAttr("id"));
    }
    assert_eq!(
        error_of::<LabelParser>("<label><sublabels><label>Warner Resound</label></sublabels></label>"),
        ParserError::MissingAttr("id")
    );
    assert_eq!(
        error_of::<LabelParser>("<label><parentLabel>Warner</parentLabel></label>"),
        ParserError::MissingAttr("id")
    );
    assert_eq!(error_of::<MasterParser>("<master><title>T</title></master>"), ParserError::MissingAttr("id"));
    assert_eq!(
        error_of::<ReleaseParser>(r#"<release status="Accepted"></release>"#),
        ParserError::MissingAttr("id")
    );
    assert_eq!(
        error_of::<ReleaseParser>(r#"<release id="1"></release>"#),
        ParserError::MissingAttr("status")
    );
    assert_eq!(
        error_of::<ReleaseParser>(r#"<release id="1" status="A"><master_id>3</master_id></release>"#),
        ParserError::MissingAttr("is_main_release")
    );
}

#[test]
fn text_before_any_entry_is_missing_data() {
    let aliases = [start("artist"), start("aliases"), text("Puente Latino")];
    assert_eq!(
        run::<ArtistParser>(&aliases).unwrap_err(),
        (2, ParserError::MissingData("Artist alias ID"))
    );
    let groups = [start("artist"), start("groups"), text("ADNY")];
    assert_eq!(
        run::<ArtistParser>(&groups).unwrap_err(),
        (2, ParserError::MissingData("Artist group ID"))
    );
    let members = [start("artist"), start("members"), text("Alexi Delano")];
    assert_eq!(
        run::<ArtistParser>(&members).unwrap_err(),
        (2, ParserError::MissingData("Artist member ID"))
    );
    let sublabels = [start("label_"), start("sublabels"), text("Warner Resound")];
    assert_eq!(
        run::<LabelParser>(&sublabels).unwrap_err(),
        (2, ParserError::MissingData("Label sublabel ID"))
    );
    let formats = [start("release_"), start("formats"), text("LP")];
    assert_eq!(
        run::<ReleaseParser>(&formats).unwrap_err(),
        (2, ParserError::MissingData("Release format"))
    );
    let unreadable = [start("x"), start("formats"), text("&bogus;")];
    assert_eq!(
        run::<ReleaseParser>(&unreadable).unwrap_err(),
        (2, ParserError::QuickXml(XmlFault::UnrecognizedEntity(1, 6)))
    );
    let unreadable_alias = [start("x"), start("aliases"), text("&bogus;")];
    assert_eq!(
        run::<ArtistParser>(&unreadable_alias).unwrap_err(),
        (2, ParserError::MissingData("Artist alias ID"))
    );
}

#[test]
fn a_second_text_for_one_id_is_missing_data() {
    let parent = tokens(r#"<label><parentLabel id="90718">Warner</parentLabel></label>"#);
    let mut twice = parent[..3].to_vec();
    twice.push(text("again"));
    assert_eq!(
        run::<LabelParser>(&twice).unwrap_err(),
        (3, ParserError::MissingData("Label parent ID"))
    );
}

#[test]
fn numbers_and_booleans_that_cannot_be_read_are_errors() {
    assert_eq!(error_of::<ArtistParser>("<artist><id>two</id></artist>"), ParserError::ParseInt);
    assert_eq!(error_of::<ArtistParser>("<artist><id>-2</id></artist>"), ParserError::ParseInt);
    assert_eq!(error_of::<LabelParser>("<label><id>4294967296</id></label>"), ParserError::ParseInt);
    assert_eq!(
        error_of::<MasterParser>(r#"<master id="1"><year>70000</year></master>"#),
        ParserError::ParseInt
    );
    assert_eq!(
        error_of::<MasterParser>(r#"<master id="1"><main_release>x</main_release></master>"#),
        ParserError::ParseInt
    );
    assert_eq!(error_of::<MasterParser>(r#"<master id="x"></master>"#), ParserError::ParseInt);
    assert_eq!(
        error_of::<ReleaseParser>(
            r#"<release id="1" status="A"><master_id is_main_release="yes">1</master_id></release>"#
        ),
        ParserError::ParseBool
    );
    assert_eq!(
        error_of::<ReleaseParser>(
            r#"<release id="1" status="A"><companies><company><entity_type>256</entity_type>
               </company></companies></release>"#
        ),
        ParserError::ParseInt
    );
    assert_eq!(
        error_of::<VideoParser>(r#"<video src="s" duration="1" embed="1"></video>"#),
        ParserError::ParseBool
    );
    assert_eq!(
        error_of::<ArtistParser>(
            r#"<artist><images><image type="p" width="w" height="1"/></images></artist>"#
        ),
        ParserError::ParseInt
    );
}

#[test]
fn text_that_cannot_be_read_is_an_error_only_where_it_is_read() {
    assert_eq!(
        error_of::<ArtistParser>("<artist><name>AT&T</name></artist>"),
        ParserError::QuickXml(XmlFault::UnterminatedEntity(2, 4))
    );
    let passed = one::<ArtistParser>("<artist><unknown>AT&T</unknown><id>7</id></artist>");
    assert_eq!(passed, Artist::builder(7, "").build());
    let bytes = [start("artist"), start("name"), Token::Text(vec![0xc3, 0x28])];
    assert_eq!(
        run::<ArtistParser>(&bytes).unwrap_err(),
        (2, ParserError::QuickXml(XmlFault::Encoding))
    );
    let ignored = [start("artist"), Token::Text(vec![0xc3, 0x28]), end("artist")];
    assert_eq!(run::<ArtistParser>(&ignored).unwrap().len(), 1);
}

#[test]
fn an_error_leaves_the_parser_as_it_was() {
    let mut parser = ReleaseParser::new();
    let mut list = tokens(
        r#"<release id="5" status="Accepted"><title>T</title><videos>
           <video src="s" duration="x" embed="true">"#,
    );
    let bad = list.pop().unwrap();
    for token in &list {
        parser.process(token).unwrap();
    }
    assert_eq!(parser.process(&bad), Err(ParserError::ParseInt));
    assert_eq!(parser.process(&bad), Err(ParserError::ParseInt));
    let rest = tokens(
        r#"<video src="s" duration="9" embed="false"><title>V</title></video></videos></release>"#,
    );
    let mut done = None;
    for token in &rest {
        if let Some(release) = feed(&mut parser, token).unwrap() {
            done = Some(release);
        }
    }
    let release = done.unwrap();
    assert_eq!(release.id, 5);
    assert_eq!(release.title, "T");
    assert_eq!(release.videos.len(), 1);
    assert_eq!(
        release.videos[0],
        Video {
            src: "s".to_string(),
            duration: 9,
            title: "V".to_string(),
            description: String::new(),
            embed: false,
        }
    );
}

#[test]
fn empty_attribute_reads_as_absent_attribute() {
    let with = one::<ReleaseParser>(
        r#"<release id="1" status="A"><labels><label name="L" catno="" id=""/></labels>
           <identifiers><identifier type="T" description="" value=""/></identifiers>
           <formats><format name="Vinyl" qty="1" text=""></format></formats>
           <images><image type="p" uri="" uri150="" width="1" height="2"/></images></release>"#,
    );
    let without = one::<ReleaseParser>(
        r#"<release id="1" status="A"><labels><label name="L"/></labels>
           <identifiers><identifier type="T"/></identifiers>
           <formats><format name="Vinyl" qty="1"></format></formats>
           <images><image type="p" width="1" height="2"/></images></release>"#,
    );
    assert_eq!(with, without);
    assert_eq!(with.labels[0].catno, None);
    assert_eq!(with.labels[0].id, None);
    assert_eq!(with.identifiers[0].description, None);
    assert_eq!(with.identifiers[0].value, None);
    assert_eq!(with.formats[0].text, None);
    assert_eq!(with.images[0].uri, None);
}

#[test]
fn empty_element_reads_as_absent_element() {
    let absent = one::<ArtistParser>("<artist><id>2</id><name>N</name></artist>");
    let empty = one::<ArtistParser>(
        "<artist><id>2</id><realname></realname><profile></profile><name>N</name></artist>",
    );
    let closed = one::<ArtistParser>("<artist><id>2</id><realname/><profile/><name>N</name></artist>");
    let blank = run::<ArtistParser>(&[
        start("artist"),
        start("id"),
        text("2"),
        end("id"),
        start("realname"),
        text("\n    "),
        end("realname"),
        start("profile"),
        text(" "),
        end("profile"),
        start("name"),
        text("N"),
        end("name"),
        end("artist"),
    ])
    .unwrap();
    assert_eq!(absent, empty);
    assert_eq!(absent, closed);
    assert_eq!(vec![absent.clone()], blank);
    assert_eq!(absent.real_name, None);
    assert_eq!(absent.profile, None);
}

#[test]
fn empty_optional_elements_of_every_record() {
    let label = one::<LabelParser>(
        "<label><id>1</id><contactinfo></contactinfo><profile> </profile></label>",
    );
    assert_eq!(label, Label::builder(1, "").build());
    let master = one::<MasterParser>(r#"<master id="1"><notes></notes></master>"#);
    assert_eq!(master, Master::builder(1, "").build());
    let credit = run::<ArtistCreditParser>(&[
        start("artist"),
        start("anv"),
        text("  "),
        end("anv"),
        start("join"),
        text("\n"),
        end("join"),
        start("role"),
        end("role"),
        start("tracks"),
        text("\t"),
        end("tracks"),
        end("artist"),
    ])
    .unwrap();
    assert_eq!(credit, [ArtistCredit::default()]);
    let company = run::<CompanyParser>(&[
        start("company"),
        start("catno"),
        text(" "),
        end("catno"),
        end("company"),
    ])
    .unwrap();
    assert_eq!(company, [ReleaseCompany::default()]);
    let track = run::<TrackParser>(&[
        start("track"),
        start("duration"),
        text(" "),
        end("duration"),
        end("track"),
    ])
    .unwrap();
    assert_eq!(track, [Track::default()]);
}

#[test]
fn a_blank_element_after_a_value_takes_the_value_away() {
    let artist = one::<ArtistParser>(
        "<artist><realname>Alexi</realname><profile>p</profile><profile>q</profile></artist>",
    );
    assert_eq!(artist.real_name.as_deref(), Some("Alexi"));
    assert_eq!(artist.profile.as_deref(), Some("q"));
    let blanked = run::<ArtistParser>(&[
        start("artist"),
        start("realname"),
        text("Alexi"),
        text(" "),
        end("realname"),
        end("artist"),
    ])
    .unwrap();
    assert_eq!(blanked[0].real_name, None);
}

#[test]
fn old_and_new_encodings_of_members_give_the_same_artist() {
    let old = one::<ArtistParser>(
        r#"<artist><id>2</id><members><id>26</id><name id="26">Alexi Delano</name>
           <id>27</id><name id="27">Cari Lekebusch</name></members></artist>"#,
    );
    let new = one::<ArtistParser>(
        r#"<artist><id>2</id><members><name id="26">Alexi Delano</name>
           <name id="27">Cari Lekebusch</name></members></artist>"#,
    );
    assert_eq!(old, new);
    assert_eq!(new, Artist::builder(2, "").member(26, "Alexi Delano").member(27, "Cari Lekebusch").build());
}

#[test]
fn unknown_elements_are_passed_over() {
    let plain = one::<ReleaseParser>(
        r#"<release id="1" status="A"><title>T</title><country>Belgium</country></release>"#,
    );
    let grown = one::<ReleaseParser>(
        r#"<release id="1" status="A"><rating>5</rating><title>T</title><future a="1"/>
           <country>Belgium</country><x><y>deep</y></x></release>"#,
    );
    assert_eq!(plain, grown);
    let label = one::<LabelParser>("<label><id>3</id><founded>1958</founded><name>W</name></label>");
    assert_eq!(label, Label::builder(3, "W").build());
    let master = one::<MasterParser>(r#"<master id="3"><rank>1</rank><year>2009</year></master>"#);
    assert_eq!(master, Master::builder(3, "").year(2009).build());
    let company = one::<CompanyParser>(
        "<company><id>216650</id><name>BE's Songs</name><entity_type>21</entity_type>
         <entity_type_name>Published By</entity_type_name>
         <resource_url>https://api.discogs.com/labels/216650</resource_url></company>",
    );
    assert_eq!(
        company,
        ReleaseCompany {
            id: Some(216650),
            name: "BE's Songs".to_string(),
            catno: None,
            entity_type: 21,
            entity_type_name: "Published By".to_string(),
        }
    );
}

#[test]
fn names_with_a_prefix_are_read_by_their_local_part() {
    let artist = one::<ArtistParser>(
        r#"<d:artist><d:id>26</d:id><d:name>Alexi Delano</d:name>
           <d:aliases><d:name id="50">ADNY</d:name></d:aliases></d:artist>"#,
    );
    assert_eq!(artist, Artist::builder(26, "Alexi Delano").alias(50, "ADNY").build());
    let unread = one::<ArtistParser>(
        r#"<artist><id>26</id><aliases><name d:id="50" id="51">ADNY</name></aliases></artist>"#,
    );
    assert_eq!(unread.aliases[0].id, 51);
}

#[test]
fn character_data_sections_and_comments_are_no_text() {
    let artist = one::<ArtistParser>(
        "<artist><id>1</id><name><![CDATA[hidden]]></name><!-- c --><profile>p</profile></artist>",
    );
    assert_eq!(artist, Artist::builder(1, "").profile("p").build());
}

#[test]
fn taking_a_record_leaves_an_empty_one() {
    let mut parser = ArtistParser::new();
    assert!(!parser.item_ready());
    for token in tokens(r#"<artist><id>2</id><urls><url>u</url></urls><aliases><name id="1">a</name></aliases>"#) {
        parser.process(&token).unwrap();
    }
    assert!(!parser.item_ready());
    parser.process(&end("artist")).unwrap();
    assert!(parser.item_ready());
    let first = parser.take();
    assert!(!parser.item_ready());
    assert_eq!(first, Artist::builder(2, "").url("u").alias(1, "a").build());
    assert_eq!(parser.take(), Artist::default());
    for token in tokens("<artist><id>3</id></artist>") {
        parser.process(&token).unwrap();
    }
    assert!(parser.item_ready());
    assert_eq!(parser.take(), Artist::builder(3, "").build());
}

#[test]
fn records_do_not_leak_into_the_next() {
    let list = tokens(
        r#"<artists><artist><id>1</id><name>A</name><realname>R</realname>
           <aliases><name id="10">x</name></aliases><urls><url>u</url></urls></artist>
           <artist><id>2</id></artist><artist><name>C</name></artist></artists>"#,
    );
    let artists = run::<ArtistParser>(&list).unwrap();
    assert_eq!(artists.len(), 3);
    assert_eq!(artists[0], Artist::builder(1, "A").real_name("R").alias(10, "x").url("u").build());
    assert_eq!(artists[1], Artist::builder(2, "").build());
    assert_eq!(artists[2], Artist::builder(0, "C").build());
}

#[test]
fn one_credit_parser_serves_every_list_of_a_release() {
    let release = one::<ReleaseParser>(
        r#"<release id="1" status="A">
             <artists><artist><id>1</id><name>A</name><join>&amp;</join></artist>
               <artist><id>2</id><name>B</name></artist></artists>
             <extraartists><artist><id>3</id><name>C</name><role>Cover</role></artist></extraartists>
             <tracklist>
               <track><position>A1</position><title>One</title>
                 <artists><artist><id>4</id><name>D</name></artist></artists>
                 <extraartists><artist><id>5</id><name>E</name><anv>e</anv></artist></extraartists>
               </track>
               <track><position>A2</position><title>Two</title><duration>3:40</duration></track>
             </tracklist>
           </release>"#,
    );
    let expected = Release::builder(1, "")
        .status("A")
        .artist(ArtistCredit::builder(1, "A").join("&").build())
        .artist(ArtistCredit::builder(2, "B").build())
        .extraartist(ArtistCredit::builder(3, "C").role("Cover"))
        .track("A1", "One")
        .artist(ArtistCredit::builder(4, "D"))
        .extraartist(ArtistCredit::builder(5, "E").anv("e"))
        .build_track()
        .track("A2", "Two")
        .duration("3:40")
        .build_track()
        .build();
    assert_eq!(release, expected);
    assert_eq!(release.artists[1].join, None);
    assert_eq!(release.tracklist[1].artists, []);
}

#[test]
fn a_credit_without_its_end_tag_goes_on_in_the_next_list() {
    let release = one::<ReleaseParser>(
        r#"<release id="1" status="A"><artists><artist><id>9</id></artists>
           <extraartists><artist><name>N</name></artist></extraartists></release>"#,
    );
    assert_eq!(release.artists, []);
    assert_eq!(release.extraartists, [ArtistCredit::builder(9, "N").build()]);
}

#[test]
fn sections_keep_document_order() {
    let master = one::<MasterParser>(
        r#"<master id="830352"><styles><style>Techno</style><style>Tech House</style></styles>
           <genres><genre>Electronic</genre></genres><styles><style>Acid</style></styles>
           <videos><video src="a" duration="1" embed="true"><title>t</title></video>
           <video src="b" duration="2" embed="false"><description>d</description></video></videos>
           </master>"#,
    );
    assert_eq!(master.styles, ["Techno", "Tech House", "Acid"]);
    assert_eq!(master.genres, ["Electronic"]);
    assert_eq!(master.videos.len(), 2);
    assert_eq!((master.videos[0].src.as_str(), master.videos[0].embed), ("a", true));
    assert_eq!((master.videos[1].src.as_str(), master.videos[1].embed), ("b", false));
    assert_eq!(master.videos[1].description, "d");
    assert_eq!(master.videos[1].title, "");
}

#[test]
fn formats_collect_their_descriptions() {
    let release = one::<ReleaseParser>(
        r#"<release id="1" status="A"><formats>
           <format name="Vinyl" qty="2" text="Red"><descriptions><description>LP</description>
           <description>Compilation</description></descriptions></format>
           <format name="CD" qty="many"><descriptions><description>Album</description>
           </descriptions></format></formats></release>"#,
    );
    let expected = Release::builder(1, "")
        .status("A")
        .format("2", "Vinyl", Some("Red"), &["LP", "Compilation"])
        .format("many", "CD", None, &["Album"])
        .build();
    assert_eq!(release, expected);
}

#[test]
fn labels_series_and_identifiers_end_at_their_end_tag() {
    let release = one::<ReleaseParser>(
        r#"<release id="1" status="A"><labels><label name="L1" id="1"/><label name="L2"/></labels>
           <series><series name="S" catno="4" id="183060"/></series>
           <identifiers><identifier type="Barcode" value="1"/></identifiers></release>"#,
    );
    let expected = Release::builder(1, "")
        .status("A")
        .label(Some(1), "L1", None)
        .label(None, "L2", None)
        .series(Some(183060), "S", Some("4"))
        .identifier("Barcode", None, Some("1"))
        .build();
    assert_eq!(release, expected);
}

fn entry(name: &str, key: &str, value: &str) -> Token {
    Token::Empty(Tag {
        name: name.as_bytes().to_vec(),
        attributes: vec![Attribute {
            key: key.as_bytes().to_vec(),
            value: value.as_bytes().to_vec(),
        }],
    })
}

#[test]
fn text_and_unknown_tags_do_not_close_a_list_of_entries() {
    let releases = run::<ReleaseParser>(&[
        start("release_"),
        start("labels"),
        text("\n    "),
        entry("label", "name", "L1"),
        text(" "),
        start("future"),
        text("ignored"),
        end("future"),
        entry("future", "a", "1"),
        Token::Other,
        entry("label", "name", "L2"),
        end("labels"),
        entry("label", "name", "late"),
        start("series"),
        text(" "),
        entry("series", "name", "S1"),
        end("label"),
        entry("series", "name", "S2"),
        end("series"),
        start("identifiers"),
        text(" "),
        entry("identifier", "type", "Barcode"),
        start("x"),
        end("x"),
        entry("label", "name", "no identifier"),
        entry("identifier", "type", "Other"),
        end("identifiers"),
        entry("identifier", "type", "late"),
        start("title"),
        text("T"),
        end("title"),
        end("release"),
    ])
    .unwrap();
    let expected = Release::builder(0, "T")
        .label(None, "L1", None)
        .label(None, "L2", None)
        .series(None, "S1", None)
        .series(None, "S2", None)
        .identifier("Barcode", None, None)
        .identifier("Other", None, None)
        .build();
    assert_eq!(releases, [expected]);
}

#[test]
fn an_entry_of_a_list_needs_its_attributes() {
    let label = [start("release_"), start("labels"), entry("label", "id", "1")];
    assert_eq!(run::<ReleaseParser>(&label).unwrap_err(), (2, ParserError::MissingAttr("name")));
    let series = [start("release_"), start("series"), text(" "), entry("series", "catno", "1")];
    assert_eq!(run::<ReleaseParser>(&series).unwrap_err(), (3, ParserError::MissingAttr("name")));
    let identifier = [start("x"), start("identifiers"), entry("identifier", "value", "1")];
    assert_eq!(
        run::<ReleaseParser>(&identifier).unwrap_err(),
        (2, ParserError::MissingAttr("type"))
    );
}

#[test]
fn sublabels_and_parent_of_a_label() {
    let label = one::<LabelParser>(
        r#"<label><id>1000</id><parentLabel id="90718">Warner Bros. Records Inc.</parentLabel>
           <sublabels><label id="29742">Warner Resound</label><label id="41256"></label>
           <label id="5">Five</label></sublabels></label>"#,
    );
    let expected = Label::builder(1000, "")
        .parent_label(90718, "Warner Bros. Records Inc.")
        .sublabel(29742, "Warner Resound")
        .sublabel(5, "Five")
        .build();
    assert_eq!(label, expected);
}

#[test]
fn video_takes_three_fields_from_its_tag() {
    let video = one::<VideoParser>(
        r#"<video src="https://www.youtube.com/watch?v=Txq736EVa80" duration="181" embed="true">
           <title>Tragic Error - Tanzen (1989)</title><description>A &amp; B</description></video>"#,
    );
    assert_eq!(
        video,
        Video {
            src: "https://www.youtube.com/watch?v=Txq736EVa80".to_string(),
            duration: 181,
            title: "Tragic Error - Tanzen (1989)".to_string(),
            description: "A & B".to_string(),
            embed: true,
        }
    );
    assert_eq!(error_of::<VideoParser>(r#"<video duration="1" embed="true"/><video>"#), ParserError::MissingAttr("src"));
    assert_eq!(
        error_of::<VideoParser>(r#"<video src="s" embed="true"></video>"#),
        ParserError::MissingAttr("duration")
    );
    assert_eq!(
        error_of::<VideoParser>(r#"<video src="s" duration="1"></video>"#),
        ParserError::MissingAttr("embed")
    );
}

#[test]
fn feed_hands_the_record_out_at_its_end_tag() {
    let mut parser = MasterParser::new();
    let list = tokens(r#"<master id="7"><title>T</title></master><master id="8"></master>"#);
    let mut outcomes = Vec::new();
    for token in &list {
        outcomes.push(feed(&mut parser, token).unwrap().map(|master| master.id));
    }
    assert_eq!(outcomes, [None, None, None, None, Some(7), None, Some(8)]);
    assert!(!parser.item_ready());
}

#[test]
fn harvest_collects_the_records_of_a_nested_group() {
    let mut parser = ArtistCreditParser::new();
    let mut list = vec![ArtistCredit::builder(1, "first").build()];
    for token in tokens("<artist><id>2</id><name>second</name></artist><artist><id>3</id>") {
        harvest(&mut parser, &mut list, &token).unwrap();
    }
    assert_eq!(
        list,
        [ArtistCredit::builder(1, "first").build(), ArtistCredit::builder(2, "second").build()]
    );
    assert_eq!(harvest(&mut parser, &mut list, &text("x")), Ok(()));
    assert_eq!(harvest(&mut parser, &mut list, &start("id")), Ok(()));
    assert_eq!(harvest(&mut parser, &mut list, &text("x")), Err(ParserError::ParseInt));
    assert_eq!(list.len(), 2);
}

#[test]
fn an_end_tag_without_its_start_completes_an_empty_record() {
    assert_eq!(run::<ArtistParser>(&[end("artist")]).unwrap(), [Artist::default()]);
    assert_eq!(run::<ArtistParser>(&[end("artists")]).unwrap(), []);
    assert_eq!(run::<ArtistParser>(&[Token::Eof, Token::Other, text("x")]).unwrap(), []);
}

#[test]
fn text_in_a_list_after_its_first_entry_is_passed_over() {
    let artists = run::<ArtistParser>(&[
        start("artist"),
        start("members"),
        entry("name", "id", "1"),
        start("id"),
        text("26"),
        end("id"),
        Token::Start(Tag {
            name: b"name".to_vec(),
            attributes: vec![Attribute { key: b"id".to_vec(), value: b"26".to_vec() }],
        }),
        text("Alexi Delano"),
        end("name"),
        text(" between "),
        end("members"),
        end("artist"),
    ])
    .unwrap();
    assert_eq!(artists, [Artist::builder(0, "").member(26, "Alexi Delano").build()]);
    let labels = run::<LabelParser>(&[
        start("label_"),
        start("sublabels"),
        Token::Start(Tag {
            name: b"label".to_vec(),
            attributes: vec![Attribute { key: b"id".to_vec(), value: b"5".to_vec() }],
        }),
        text("Five"),
        end("label"),
        text(" between "),
        end("sublabels"),
        end("label"),
    ])
    .unwrap();
    assert_eq!(labels, [Label::builder(0, "").sublabel(5, "Five").build()]);
}
