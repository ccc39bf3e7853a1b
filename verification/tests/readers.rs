//! Readers over runs of tokens, and the choice of the reader for a dump.
use disco_quick::artist::{Artist, ArtistParser};
use disco_quick::label::Label;
use disco_quick::master::Master;
use disco_quick::reader::{advance, read_start_tag, scan, DumpKind, RecordReader, Scan, Step};
use disco_quick::release::Release;
use disco_quick::{
    ArtistsReader, Attribute, DiscogsReader, LabelsReader, MastersReader, Parser, ParserError,
    ReaderError, ReleasesReader, Tag, Token,
};
use quick_xml::events::{BytesStart, Event};

fn tag(start: &BytesStart) -> Tag {
    let mut attributes = Vec::new();
    for attribute in start.attributes() {
        if let Ok(attribute) = attribute {
            attributes.push(Attribute {
                key: attribute.key.as_ref().to_vec(),
                value: attribute.value.into_owned(),
            });
        }
    }
    Tag { name: start.name().as_ref().to_vec(), attributes }
}

/// The tokens of `xml`, text trimmed, with the end of the document.
fn tokens(xml: &str) -> Vec<Token> {
    let mut reader = quick_xml::Reader::from_str(xml);
    reader.config_mut().trim_text(true);
    reader.config_mut().check_end_names = false;
    reader.config_mut().allow_unmatched_ends = true;
    let mut tokens = Vec::new();
    loop {
        let token = match reader.read_event().unwrap() {
            Event::Start(start) => Token::Start(tag(&start)),
            Event::Empty(start) => Token::Empty(tag(&start)),
            Event::End(end) => Token::End(end.name().as_ref().to_vec()),
            Event::Text(text) => Token::Text(text.into_inner().into_owned()),
            Event::Eof => Token::Eof,
            _ => Token::Other,
        };
        let done = token == Token::Eof;
        tokens.push(token);
        if done {
            return tokens;
        }
    }
}

const THREE_ARTISTS: &str = r#"<?xml version="1.0" encoding="UTF-8"?>
<artists>
<artist><id>1</id><name>The Persuader</name><realname>Jesper Dahlbäck</realname>
  <urls><url>u1</url><url>u2</url></urls><aliases><name id="239">Jesper Dahlbäck</name></aliases>
  <images><image type="primary" uri="" uri150="" width="600" height="269"/></images></artist>
<artist><id>2</id><name>Mr. James Barth &amp; A.D.</name>
  <members><name id="26">Alexi Delano</name></members></artist>
<artist><id>3</id><name>Josh Wink</name></artist>
</artists>"#;

fn three_artists() -> Vec<Artist> {
    vec![
        Artist::builder(1, "The Persuader")
            .real_name("Jesper Dahlbäck")
            .url("u1")
            .url("u2")
            .alias(239, "Jesper Dahlbäck")
            .image("primary", 600, 269)
            .build(),
        Artist::builder(2, "Mr. James Barth & A.D.").member(26, "Alexi Delano").build(),
        Artist::builder(3, "Josh Wink").build(),
    ]
}

#[test]
fn a_dump_of_three_artists_gives_three_records() {
    let mut reader = ArtistsReader::new(tokens(THREE_ARTISTS));
    let expected = three_artists();
    assert_eq!(reader.next(), Ok(Some(expected[0].clone())));
    assert_eq!(reader.next(), Ok(Some(expected[1].clone())));
    assert_eq!(reader.next(), Ok(Some(expected[2].clone())));
    assert_eq!(reader.next(), Ok(None));
    assert_eq!(reader.next(), Ok(None));
}

#[test]
fn reading_all_at_once_gives_the_same_records() {
    let mut reader = ArtistsReader::new(tokens(THREE_ARTISTS));
    assert_eq!(reader.read_all(), Ok(three_artists()));
    assert_eq!(reader.read_all(), Ok(vec![]));
    assert_eq!(reader.next(), Ok(None));
    let mut part = ArtistsReader::new(tokens(THREE_ARTISTS));
    part.next().unwrap();
    assert_eq!(part.read_all(), Ok(three_artists().split_off(1)));
}

#[test]
fn each_record_of_a_dump_is_read_as_if_it_stood_alone() {
    let singles = [
        r#"<artist><id>1</id><name>A</name><namevariations><name>a</name></namevariations></artist>"#,
        r#"<artist><id>2</id><groups><name id="7">G</name></groups></artist>"#,
        r#"<artist><name>C</name><profile>p</profile></artist>"#,
        r#"<artist></artist>"#,
    ];
    let mut alone = Vec::new();
    let mut all = String::new();
    for single in singles {
        let mut records = ArtistsReader::new(tokens(single)).read_all().unwrap();
        assert_eq!(records.len(), 1);
        alone.append(&mut records);
        all.push_str(single);
    }
    let together = ArtistsReader::new(tokens(&format!("<artists>{all}</artists>"))).read_all();
    assert_eq!(together, Ok(alone));
}

#[test]
fn a_dump_without_records_gives_none() {
    assert_eq!(ArtistsReader::new(vec![]).next(), Ok(None));
    assert_eq!(ArtistsReader::new(vec![Token::Eof]).next(), Ok(None));
    assert_eq!(ArtistsReader::new(tokens("<artists></artists>")).next(), Ok(None));
    assert_eq!(ArtistsReader::new(tokens("<artists><artist><id>1</id></artists>")).read_all(), Ok(vec![]));
    assert_eq!(LabelsReader::new(tokens("<labels/>")).read_all(), Ok(vec![]));
}

#[test]
fn the_end_of_the_document_ends_the_sequence() {
    let mut list = tokens("<artist><id>1</id></artist>");
    list.extend(tokens("<artist><id>2</id></artist>"));
    let mut reader = ArtistsReader::new(list);
    assert_eq!(reader.next(), Ok(Some(Artist::builder(1, "").build())));
    assert_eq!(reader.next(), Ok(None));
    assert_eq!(reader.next(), Ok(None));
    assert_eq!(reader.read_all(), Ok(vec![]));
}

#[test]
fn an_error_ends_the_sequence() {
    let xml = "<artists><artist><id>1</id></artist><artist><id>x</id></artist>\
               <artist><id>3</id></artist></artists>";
    let mut reader = ArtistsReader::new(tokens(xml));
    assert_eq!(reader.next(), Ok(Some(Artist::builder(1, "").build())));
    assert_eq!(reader.next(), Err(ParserError::ParseInt));
    assert_eq!(reader.next(), Ok(None));
    assert_eq!(reader.next(), Ok(None));
    let mut all = ArtistsReader::new(tokens(xml));
    assert_eq!(all.read_all(), Err(ParserError::ParseInt));
    assert_eq!(all.read_all(), Ok(vec![]));
}

#[test]
fn readers_of_every_kind() {
    let labels = LabelsReader::new(tokens(
        "<labels><label><id>1</id><name>A</name></label><label><id>2</id></label></labels>",
    ))
    .read_all();
    assert_eq!(labels, Ok(vec![Label::builder(1, "A").build(), Label::builder(2, "").build()]));
    let masters = MastersReader::new(tokens(
        r#"<masters><master id="1"><year>1989</year></master><master id="2"/><master id="3">
           </master></masters>"#,
    ))
    .read_all();
    assert_eq!(
        masters,
        Ok(vec![Master::builder(1, "").year(1989).build(), Master::builder(3, "").build()])
    );
    let releases = ReleasesReader::new(tokens(
        r#"<releases><release id="1" status="Accepted"><released>1989</released></release>
           <release id="2" status="Draft"></release></releases>"#,
    ))
    .read_all();
    assert_eq!(
        releases,
        Ok(vec![
            Release::builder(1, "").status("Accepted").released("1989").build(),
            Release::builder(2, "").status("Draft").build(),
        ])
    );
}

#[test]
fn a_reader_may_start_anywhere_in_its_tokens() {
    let list = tokens(THREE_ARTISTS);
    let skip = list.iter().position(|token| *token == Token::End(b"artist".to_vec())).unwrap() + 1;
    let mut reader: RecordReader<ArtistParser> = RecordReader::starting_at(list.clone(), skip);
    assert_eq!(reader.read_all(), Ok(three_artists().split_off(1)));
    let mut at_end: RecordReader<ArtistParser> = RecordReader::starting_at(list.clone(), list.len());
    assert_eq!(at_end.next(), Ok(None));
}

#[test]
fn advance_says_what_a_reader_does_next() {
    let mut parser = ArtistParser::new();
    let list = tokens("<artist><id>5</id></artist>");
    let mut steps = Vec::new();
    for token in &list {
        steps.push(match advance(&mut parser, token).unwrap() {
            Step::Record(artist) => format!("record {}", artist.id),
            Step::More => "more".to_string(),
            Step::End => "end".to_string(),
        });
    }
    assert_eq!(steps, ["more", "more", "more", "more", "record 5", "end"]);
    let mut failing = ArtistParser::new();
    advance(&mut failing, &list[0]).unwrap();
    advance(&mut failing, &list[1]).unwrap();
    assert_eq!(
        advance(&mut failing, &Token::Text(b"five".to_vec())).unwrap_err(),
        ParserError::ParseInt
    );
    assert!(matches!(advance(&mut failing, &Token::Eof), Ok(Step::End)));
}

#[test]
fn the_first_start_tag_is_looked_for() {
    assert_eq!(read_start_tag(&tokens(THREE_ARTISTS)), Ok(1));
    assert_eq!(read_start_tag(&tokens("<a/><b>")), Ok(1));
    assert_eq!(read_start_tag(&tokens("text <!-- c --> <releases>")), Ok(2));
    assert_eq!(read_start_tag(&tokens("")), Err(ReaderError::NoStartTag));
    assert_eq!(read_start_tag(&tokens("no tags")), Err(ReaderError::NoStartTag));
    assert_eq!(read_start_tag(&tokens("<a/><b/>")), Err(ReaderError::NoStartTag));
    assert_eq!(read_start_tag(&vec![]), Err(ReaderError::NoStartTag));
    let mut after_end = tokens("");
    after_end.extend(tokens("<artists>"));
    assert_eq!(read_start_tag(&after_end), Err(ReaderError::NoStartTag));
    assert_eq!(scan(&Token::Eof), Scan::Ended);
    assert_eq!(scan(&Token::Other), Scan::Skip);
    assert_eq!(scan(&Token::Text(vec![])), Scan::Skip);
    assert_eq!(scan(&Token::End(b"a".to_vec())), Scan::Skip);
    assert_eq!(scan(&tokens("<a>")[0]), Scan::Found);
    assert_eq!(scan(&tokens("<a/>")[0]), Scan::Skip);
}

#[test]
fn the_first_start_tag_chooses_the_reader() {
    for (xml, kind, word) in [
        ("<artists><artist><id>1</id></artist></artists>", DumpKind::Artists, "artists"),
        ("<artist><id>1</id></artist>", DumpKind::Artists, "artists"),
        ("<?xml version=\"1.0\"?><labels><label><id>1</id></label></labels>", DumpKind::Labels, "labels"),
        ("<label><id>1</id></label>", DumpKind::Labels, "labels"),
        ("<!-- dump --><masters><master id=\"1\"/></masters>", DumpKind::Masters, "masters"),
        ("<master id=\"1\"></master>", DumpKind::Masters, "masters"),
        ("<releases><release id=\"1\" status=\"A\"/></releases>", DumpKind::Releases, "releases"),
        ("<release id=\"1\" status=\"A\"></release>", DumpKind::Releases, "releases"),
    ] {
        let reader = DiscogsReader::from_tokens(tokens(xml)).unwrap();
        assert_eq!(reader.kind(), kind, "{xml}");
        assert_eq!(reader.display(), word, "{xml}");
    }
}

#[test]
fn a_dump_of_no_known_kind_has_no_reader() {
    assert!(matches!(DiscogsReader::from_tokens(tokens("")), Err(ReaderError::NoStartTag)));
    assert!(matches!(DiscogsReader::from_tokens(vec![]), Err(ReaderError::NoStartTag)));
    assert!(matches!(DiscogsReader::from_tokens(tokens("just text")), Err(ReaderError::NoStartTag)));
    assert!(matches!(DiscogsReader::from_tokens(tokens("<artists/>")), Err(ReaderError::NoStartTag)));
    for (xml, name) in [
        ("<html><artists></artists></html>", "html"),
        ("<Artists></Artists>", "Artists"),
        ("<d:artists></d:artists>", "d:artists"),
        ("<tracks><artist></artist></tracks>", "tracks"),
    ] {
        match DiscogsReader::from_tokens(tokens(xml)) {
            Err(ReaderError::InvalidStartTag(found)) => assert_eq!(found, name.as_bytes(), "{xml}"),
            _ => panic!("{xml}"),
        }
    }
}

#[test]
fn the_chosen_reader_reads_from_the_first_start_tag() {
    let bare = r#"<master id="830352"><year>2009</year></master><master id="2"></master>"#;
    let mut list = vec![Token::End(b"master".to_vec()), Token::Other];
    list.extend(tokens(bare));
    match DiscogsReader::from_tokens(list).unwrap() {
        DiscogsReader::Masters(mut masters) => {
            assert_eq!(
                masters.read_all(),
                Ok(vec![Master::builder(830352, "").year(2009).build(), Master::builder(2, "").build()])
            );
        }
        _ => panic!("not masters"),
    }
    match DiscogsReader::from_tokens(tokens(THREE_ARTISTS)).unwrap() {
        DiscogsReader::Artists(mut artists) => {
            assert_eq!(artists.read_all(), Ok(three_artists()));
        }
        _ => panic!("not artists"),
    }
    let releases = r#"<releases><release id="40299" status="Accepted"><title>New Beat - Take 4</title></release></releases>"#;
    match DiscogsReader::from_tokens(tokens(releases)).unwrap() {
        DiscogsReader::Releases(mut releases) => {
            let release = releases.next().unwrap().unwrap();
            assert_eq!(release, Release::builder(40299, "New Beat - Take 4").status("Accepted").build());
            assert_eq!(releases.next(), Ok(None));
        }
        _ => panic!("not releases"),
    }
    match DiscogsReader::from_tokens(tokens("<labels><label><id>7</id></label></labels>")).unwrap() {
        DiscogsReader::Labels(mut labels) => {
            assert_eq!(labels.read_all(), Ok(vec![Label::builder(7, "").build()]));
        }
        _ => panic!("not labels"),
    }
}

#[test]
fn a_fresh_parser_of_each_kind_has_nothing_ready() {
    assert!(!ArtistParser::new().item_ready());
    assert!(!disco_quick::label::LabelParser::new().item_ready());
    assert!(!disco_quick::master::MasterParser::new().item_ready());
    assert!(!disco_quick::release::ReleaseParser::new().item_ready());
    assert!(!disco_quick::track::TrackParser::new().item_ready());
    assert!(!disco_quick::video::VideoParser::new().item_ready());
    assert!(!disco_quick::company::CompanyParser::new().item_ready());
    assert!(!disco_quick::artist_credit::ArtistCreditParser::new().item_ready());
}
