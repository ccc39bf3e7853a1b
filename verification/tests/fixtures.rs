//! Whole records decoded from the text of a dump and held against records
//! built by hand.
use disco_quick::artist::Artist;
use disco_quick::artist_credit::{ArtistCredit, ArtistCreditBuilder};
use disco_quick::label::Label;
use disco_quick::master::Master;
use disco_quick::release::Release;
use disco_quick::{
    ArtistsReader, Attribute, LabelsReader, MastersReader, ReleasesReader, Tag, Token,
};
use quick_xml::events::{BytesStart, Event};
use std::io::{BufRead, BufReader, Cursor};

fn tag(start: &BytesStart) -> Tag {
    let mut attributes = Vec::new();
    for attribute in start.attributes() {
        if let Ok(attribute) = attribute {
            attributes.push(Attribute {
                key: attribute.key.as_ref().to_vec(),
                value: attribute.value.into_owned(),
            });
        }
    }
    Tag { name: start.name().as_ref().to_vec(), attributes }
}

fn tokens(xml: &'static str) -> Vec<Token> {
    let reader: Box<dyn BufRead> = Box::new(BufReader::new(Cursor::new(xml)));
    let mut reader = quick_xml::Reader::from_reader(reader);
    reader.config_mut().trim_text(true);
    let mut buf = Vec::new();
    let mut tokens = Vec::new();
    loop {
        let token = match reader.read_event_into(&mut buf).unwrap() {
            Event::Start(start) => Token::Start(tag(&start)),
            Event::Empty(start) => Token::Empty(tag(&start)),
            Event::End(end) => Token::End(end.name().as_ref().to_vec()),
            Event::Text(text) => Token::Text(text.into_inner().into_owned()),
            Event::Eof => Token::Eof,
            _ => Token::Other,
        };
        let done = token == Token::Eof;
        tokens.push(token);
        if done {
            return tokens;
        }
        buf.clear();
    }
}

fn parse_artist(xml: &'static str) -> Artist {
    let mut artists = ArtistsReader::new(tokens(xml));
    artists.next().unwrap().unwrap()
}

fn parse_label(xml: &'static str) -> Label {
    LabelsReader::new(tokens(xml)).next().unwrap().unwrap()
}

fn parse_master(xml: &'static str) -> Master {
    MastersReader::new(tokens(xml)).next().unwrap().unwrap()
}

fn parse_release(xml: &'static str) -> Release {
    let mut releases = ReleasesReader::new(tokens(xml));
    releases.next().unwrap().unwrap()
}

fn credit(id: u32, name: &str) -> ArtistCreditBuilder {
    ArtistCredit::builder(id, name)
}

const ARTIST_2_2023: &str = r#"
<artist>
  <id>2</id>
  <name>Mr. James Barth &amp; A.D.</name>
  <realname>Cari Lekebusch &amp; Alexi Delano</realname>
  <profile>
  </profile>
  <data_quality>Correct</data_quality>
  <namevariations>
    <name>MR JAMES BARTH &amp; A. D.</name>
    <name>Mr Barth &amp; A.D.</name>
    <name>Mr. Barth &amp; A.D.</name>
    <name>Mr. James Barth &amp; A. D.</name>
  </namevariations>
  <aliases>
    <name id="2470">Puente Latino</name>
    <name id="19536">Yakari &amp; Delano</name>
    <name id="103709">Crushed Insect &amp; The Sick Puppy</name>
    <name id="384581">ADCL</name>
    <name id="1779857">Alexi Delano &amp; Cari Lekebusch</name>
  </aliases>
  <members>
    <id>26</id>
    <name id="26">Alexi Delano</name>
    <id>27</id>
    <name id="27">Cari Lekebusch</name>
  </members>
</artist>"#;

const ARTIST_2_2025: &str = r#"
<artist>
  <id>2</id>
  <name>Mr. James Barth &amp; A.D.</name>
  <data_quality>Correct</data_quality>
  <namevariations>
    <name>MR JAMES BARTH &amp; A. D.</name>
    <name>Mr Barth &amp; A.D.</name>
    <name>Mr. Barth &amp; A.D.</name>
    <name>Mr. James Barth &amp; A. D.</name>
  </namevariations>
  <aliases>
    <name id="2470">Puente Latino</name>
    <name id="19536">Yakari &amp; Delano</name>
    <name id="103709">Crushed Insect &amp; The Sick Puppy</name>
    <name id="384581">ADCL</name>
    <name id="1779857">Alexi Delano &amp; Cari Lekebusch</name>
  </aliases>
  <members>
    <name id="26">Alexi Delano</name>
    <name id="27">Cari Lekebusch</name>
  </members>
</artist>"#;

#[test]
fn test_artist_2_20231001() {
    let expected = Artist::builder(2, "Mr. James Barth & A.D.")
        .real_name("Cari Lekebusch & Alexi Delano")
        .data_quality("Correct")
        .name_variation("MR JAMES BARTH & A. D.")
        .name_variation("Mr Barth & A.D.")
        .name_variation("Mr. Barth & A.D.")
        .name_variation("Mr. James Barth & A. D.")
        .alias(2470, "Puente Latino")
        .alias(19536, "Yakari & Delano")
        .alias(103709, "Crushed Insect & The Sick Puppy")
        .alias(384581, "ADCL")
        .alias(1779857, "Alexi Delano & Cari Lekebusch")
        .member(26, "Alexi Delano")
        .member(27, "Cari Lekebusch")
        .build();
    let parsed = parse_artist(ARTIST_2_2023);
    assert_eq!(expected, parsed);
}

#[test]
fn test_artist_2_20250501() {
    let expected = Artist::builder(2, "Mr. James Barth & A.D.")
        .data_quality("Correct")
        .name_variation("MR JAMES BARTH & A. D.")
        .name_variation("Mr Barth & A.D.")
        .name_variation("Mr. Barth & A.D.")
        .name_variation("Mr. James Barth & A. D.")
        .alias(2470, "Puente Latino")
        .alias(19536, "Yakari & Delano")
        .alias(103709, "Crushed Insect & The Sick Puppy")
        .alias(384581, "ADCL")
        .alias(1779857, "Alexi Delano & Cari Lekebusch")
        .member(26, "Alexi Delano")
        .member(27, "Cari Lekebusch")
        .build();
    let parsed = parse_artist(ARTIST_2_2025);
    assert_eq!(expected, parsed);
}

#[test]
fn test_artist_26_20231001() {
    let expected = Artist::builder(26, "Alexi Delano")
        .profile("Alexi Delano ‘s music production dwells in perfect balance between shiny minimalism and dark vivacious techno. With more than two decades on stage he has been able to combine different roots and facets of the contemporary music scene.\r\nBorn in Chile, raised in Sweden and later on adopted by New York City, Alexi was part of the Swedish wave of electronic music producers of the mid 90’s such as Adam Beyer, Cari Lekebusch, Jesper Dahlback and Joel Mull. Moving from Scandinavia to New York influenced him to combine the heavy compressed Swedish sound with the vibrancy of the creative music scene of Brooklyn.\r\n\r\nThroughout his music career, Alexi has been nominated for the Swedish Music Award ‘P3 Guld’ (an alternative to the Swedish Grammy), produced six albums and released countless records on established labels such as the iconic Swedish label SVEK, Plus 8, Minus, Hybrid, Drumcode, Visionquest, Spectral Sound, Get Physical, Poker Flat and many more. \r\nWith a music production and DJ style swinging between house and techno, he is consistently reinventing himself with each new release.")
        .data_quality("Needs Vote")
        .name_variation("A Delano")
        .name_variation("A. D.")
        .url("https://www.facebook.com/alexidelanomusic")
        .url("http://www.soundcloud.com/alexidelano")
        .url("http://twitter.com/AlexiDelano")
        .alias(50, "ADNY")
        .alias(937, "G.O.L.")
        .group(2, "Mr. James Barth & A.D.")
        .group(254, "ADNY & The Persuader")
        .image("primary", 600, 269)
        .image("secondary", 600, 400)
        .build();
    let parsed = parse_artist(
        r#"
<artist>
  <images>
    <image type="primary" uri="" uri150="" width="600" height="269"/>
    <image type="secondary" uri="" uri150="" width="600" height="400"/>
  </images>
  <id>26</id>
  <name>Alexi Delano</name>
  <profile>Alexi Delano ‘s music production dwells in perfect balance between shiny minimalism and dark vivacious techno. With more than two decades on stage he has been able to combine different roots and facets of the contemporary music scene.&#13;
Born in Chile, raised in Sweden and later on adopted by New York City, Alexi was part of the Swedish wave of electronic music producers of the mid 90’s such as Adam Beyer, Cari Lekebusch, Jesper Dahlback and Joel Mull. Moving from Scandinavia to New York influenced him to combine the heavy compressed Swedish sound with the vibrancy of the creative music scene of Brooklyn.&#13;
&#13;
Throughout his music career, Alexi has been nominated for the Swedish Music Award ‘P3 Guld’ (an alternative to the Swedish Grammy), produced six albums and released countless records on established labels such as the iconic Swedish label SVEK, Plus 8, Minus, Hybrid, Drumcode, Visionquest, Spectral Sound, Get Physical, Poker Flat and many more. &#13;
With a music production and DJ style swinging between house and techno, he is consistently reinventing himself with each new release.</profile>
  <data_quality>Needs Vote</data_quality>
  <urls>
    <url>https://www.facebook.com/alexidelanomusic</url>
    <url>http://www.soundcloud.com/alexidelano</url>
    <url>http://twitter.com/AlexiDelano</url>
  </urls>
  <namevariations>
    <name>A Delano</name>
    <name>A. D.</name>
  </namevariations>
  <aliases>
    <name id="50">ADNY</name>
    <name id="937">G.O.L.</name>
  </aliases>
  <groups>
    <name id="2">Mr. James Barth &amp; A.D.</name>
    <name id="254">ADNY &amp; The Persuader</name>
  </groups>
</artist>"#,
    );
    assert_eq!(expected, parsed);
}

#[test]
fn test_label_1000_20231001() {
    let expected = Label::builder(1000, "Warner Bros. Records")
        .contactinfo("3300 Warner Boulevard\r\nBurbank, CA 91505-4964\r\nUSA")
        .profile("Label Code: LC 0392 / LC 00392\r\n\r\nFounded in 1958 by Jack Warner as a soundtrack factory for Warner Bros. movie studios, Warner Bros. Records and its family of subsidiary labels, which includes Reprise Records, Sire Records, Maverick Records, Warner Nashville, Warner Jazz, Warner Western, and Word Label Group encompassed a full spectrum of musical genres.\r\nAfter more than 60 years using the Warner Bros. name and logo (and following the end of a 15-year licensing agreement with AT&T/WarnerMedia, until 2018 Time Warner), the label was rebranded in May 2019 to simply [l=Warner Records].")
        .data_quality("Needs Vote")
        .parent_label(90718, "Warner Bros. Records Inc.")
        .sublabel(29742, "Warner Resound")
        .sublabel(41256, "Warner Special Products")
        .url("http://www.warnerrecords.com")
        .url("http://myspace.com/warnerbrosrecords")
        .image("primary", 600, 818)
        .image("secondary", 600, 600)
        .build();
    let parsed = parse_label(
        r#"
<label>
  <images>
    <image type="primary" uri="" uri150="" width="600" height="818"/>
    <image type="secondary" uri="" uri150="" width="600" height="600"/>
  </images>
  <id>1000</id>
  <name>Warner Bros. Records</name>
  <contactinfo>3300 Warner Boulevard&#13;
Burbank, CA 91505-4964&#13;
USA</contactinfo>
  <profile>Label Code: LC 0392 / LC 00392&#13;
&#13;
Founded in 1958 by Jack Warner as a soundtrack factory for Warner Bros. movie studios, Warner Bros. Records and its family of subsidiary labels, which includes Reprise Records, Sire Records, Maverick Records, Warner Nashville, Warner Jazz, Warner Western, and Word Label Group encompassed a full spectrum of musical genres.&#13;
After more than 60 years using the Warner Bros. name and logo (and following the end of a 15-year licensing agreement with AT&amp;T/WarnerMedia, until 2018 Time Warner), the label was rebranded in May 2019 to simply [l=Warner Records].</profile>
  <data_quality>Needs Vote</data_quality>
  <parentLabel id="90718">Warner Bros. Records Inc.</parentLabel>
  <urls>
    <url>http://www.warnerrecords.com</url>
    <url>http://myspace.com/warnerbrosrecords</url>
  </urls>
  <sublabels>
    <label id="29742">Warner Resound</label>
    <label id="41256">Warner Special Products</label>
  </sublabels>
</label> "#,
    );
    assert_eq!(expected, parsed);
}

#[test]
fn test_master_830352_20231001() {
    let expected = Master::builder(830352, "What Is The Time, Mr. Templar? / The Real Jazz")
        .main_release(1671981)
        .year(2009)
        .genre("Electronic")
        .style("Techno")
        .style("Tech House")
        .data_quality("Correct")
        .artist(credit(239, "Jesper Dahlbäck").join("/"))
        .artist(credit(1654, "DK").anv("Dahlbäck & Krome"))
        .image("primary", 600, 600)
        .image("secondary", 600, 600)
        .video(
            "https://www.youtube.com/watch?v=1andhkV72eo",
            311,
             "JESPER DAHLBÄCK - WHAT IS THE TIME, MR. TEMPLAR? (PND02)",
             "JESPER DAHLBÄCK - WHAT IS THE TIME, MR. TEMPLAR? (PND02)\n\n#pvnx #thismustbethetrack #trackoftheday #russianadvisor #bvckgrnd #vinyl #vinylcommunity #vinylcollection #recordcollector #vinyladdict #records #music #musiclover #musicblog #vinyloftheday  #mus",
        )
        .video(
            "https://www.youtube.com/watch?v=IWRv_Ye03cU",
            315,
            "J Dahlbäck - The Persuader - What Is The Time, Mr Templar?",
            "From the LP: J. Dahlbäck - The Persuader - Label: Svek - Released: 1997\n\nProblem with the video? Please tell me and it will be removed immediately!"
        )
        .build();
    let parsed = parse_master(
        r#"
<master id="830352">
  <main_release>1671981</main_release>
  <images>
    <image type="primary" uri="" uri150="" width="600" height="600"/>
    <image type="secondary" uri="" uri150="" width="600" height="600"/>
  </images>
  <artists>
    <artist>
      <id>239</id>
      <name>Jesper Dahlbäck</name>
      <anv>
      </anv>
      <join>/</join>
      <role>
      </role>
      <tracks>
      </tracks>
    </artist>
    <artist>
      <id>1654</id>
      <name>DK</name>
      <anv>Dahlbäck &amp; Krome</anv>
      <join>
      </join>
      <role>
      </role>
      <tracks>
      </tracks>
    </artist>
  </artists>
  <genres>
    <genre>Electronic</genre>
  </genres>
  <styles>
    <style>Techno</style>
    <style>Tech House</style>
  </styles>
  <year>2009</year>
  <title>What Is The Time, Mr. Templar? / The Real Jazz</title>
  <data_quality>Correct</data_quality>
  <videos>
    <video src="https://www.youtube.com/watch?v=1andhkV72eo" duration="311" embed="true">
      <title>JESPER DAHLBÄCK - WHAT IS THE TIME, MR. TEMPLAR? (PND02)</title>
      <description>JESPER DAHLBÄCK - WHAT IS THE TIME, MR. TEMPLAR? (PND02)

#pvnx #thismustbethetrack #trackoftheday #russianadvisor #bvckgrnd #vinyl #vinylcommunity #vinylcollection #recordcollector #vinyladdict #records #music #musiclover #musicblog #vinyloftheday  #mus</description>
    </video>
    <video src="https://www.youtube.com/watch?v=IWRv_Ye03cU" duration="315" embed="true">
      <title>J Dahlbäck - The Persuader - What Is The Time, Mr Templar?</title>
      <description>From the LP: J. Dahlbäck - The Persuader - Label: Svek - Released: 1997

Problem with the video? Please tell me and it will be removed immediately!</description>
    </video>
  </videos>
</master>
        "#,
    );
    assert_eq!(expected, parsed);
}

#[test]
fn test_release_40299_20250501() {
    let expected = Release::builder(40299, "New Beat - Take 4")
        .artist(credit(194, "Various").build())
        .country("Belgium")
        .status("Accepted")
        .label(Some(9789), "Subway Dance", Some("Subway Dance 4000"))
        .label(Some(9789), "Subway Dance", Some("SD 4000-LP"))
        .series(Some(183060), "Take", Some("4"))
        .series(Some(475876), "A.B.-Sounds", None)
        .released("1989")
        .notes("Made in Belgium.")
        .genre("Electronic")
        .style("Acid")
        .style("New Beat")
        .master_id(35574)
        .is_main_release(true)
        .data_quality("Needs Vote")
        .video("https://www.youtube.com/watch?v=Txq736EVa80", 181, "Tragic Error - Tanzen (1989)", "A Belgian New Beat classic!\r\n\r\nTrack produced and written by Patrick De Meyer.")
        .video("https://www.youtube.com/watch?v=6KwqUVPJ-xc", 303, "Westbam-Monkey say monkey do", "Classic house from 1988,Label-Dance Trax,catalog#: DRX 612,format 12\" vinyl Germany 1988")
        .extraartist(
            credit(118541, "Maurice Engelen")
                .anv("The Maurice Engelen")
                .role("Compiled By"),
        )
        .extraartist(credit(501662, "Tejo De Roeck").role("Cover"))
        .extraartist(credit(11701904, "Boy Toy (6)").role("Model"))
        .extraartist(credit(3601091, "Annick Wets").role("Photography By [Photo]"))
        .track("A1", "Tanzen")
        .duration("3:37")
        .artist(credit(7542, "Tragic Error"))
        .extraartist(
            credit(116415, "Patrick De Meyer")
                .anv("P. De Meyer")
                .role("Written-By"),
        )
        .build_track()
        .track("A2", "New Beat, A Musical Phenomenon")
        .duration("3:40")
        .artist(credit(32087, "The Brotherhood Of Sleep"))
        .extraartist(credit(221853, "Joey Morton").anv("Morton").role("Written-By"))
        .extraartist(credit(25528, "Sherman").role("Written-By"))
        .build_track()
        .format("1", "Vinyl", None, &["LP", "Compilation"])
        .company(216650, "BE's Songs", None, 21, "Published By")
        .company(57563, "Music Man Import", None, 21, "Published By")
        .identifier("Rights Society", None, Some("SABAM-BIEM"))
        .identifier("Matrix / Runout", Some("Side A"), Some("SD 4000-A2"))
        .identifier("Matrix / Runout", Some("Side B"), Some("SD 4000-B1 FOON"))
        .build();

    let parsed = parse_release(
        r#"
<release id="40299" status="Accepted">
  <artists>
    <artist>
      <id>194</id>
      <name>Various</name>
    </artist>
  </artists>
  <title>New Beat - Take 4</title>
  <labels>
    <label name="Subway Dance" catno="Subway Dance 4000" id="9789"/>
    <label name="Subway Dance" catno="SD 4000-LP" id="9789"/>
  </labels>
  <series>
    <series name="Take" catno="4" id="183060"/>
    <series name="A.B.-Sounds" catno="" id="475876"/>
  </series>
  <extraartists>
    <artist>
      <id>118541</id>
      <name>Maurice Engelen</name>
      <anv>The Maurice Engelen</anv>
      <role>Compiled By</role>
    </artist>
    <artist>
      <id>501662</id>
      <name>Tejo De Roeck</name>
      <role>Cover</role>
    </artist>
    <artist>
      <id>11701904</id>
      <name>Boy Toy (6)</name>
      <role>Model</role>
    </artist>
    <artist>
      <id>3601091</id>
      <name>Annick Wets</name>
      <role>Photography By [Photo]</role>
    </artist>
  </extraartists>
  <formats>
    <format name="Vinyl" qty="1" text="">
      <descriptions>
        <description>LP</description>
        <description>Compilation</description>
      </descriptions>
    </format>
  </formats>
  <genres>
    <genre>Electronic</genre>
  </genres>
  <styles>
    <style>Acid</style>
    <style>New Beat</style>
  </styles>
  <country>Belgium</country>
  <released>1989</released>
  <notes>Made in Belgium.</notes>
  <data_quality>Needs Vote</data_quality>
  <master_id is_main_release="true">35574</master_id>
  <tracklist>
    <track>
      <position>A1</position>
      <title>Tanzen</title>
      <duration>3:37</duration>
      <artists>
        <artist>
          <id>7542</id>
          <name>Tragic Error</name>
        </artist>
      </artists>
      <extraartists>
        <artist>
          <id>116415</id>
          <name>Patrick De Meyer</name>
          <anv>P. De Meyer</anv>
          <role>Written-By</role>
        </artist>
      </extraartists>
    </track>
    <track>
      <position>A2</position>
      <title>New Beat, A Musical Phenomenon</title>
      <duration>3:40</duration>
      <artists>
        <artist>
          <id>32087</id>
          <name>The Brotherhood Of Sleep</name>
        </artist>
      </artists>
      <extraartists>
        <artist>
          <id>221853</id>
          <name>Joey Morton</name>
          <anv>Morton</anv>
          <role>Written-By</role>
        </artist>
        <artist>
          <id>25528</id>
          <name>Sherman</name>
          <role>Written-By</role>
        </artist>
      </extraartists>
    </track>
  </tracklist>
  <identifiers>
    <identifier type="Rights Society" description="" value="SABAM-BIEM"/>
    <identifier type="Matrix / Runout" description="Side A" value="SD 4000-A2"/>
    <identifier type="Matrix / Runout" description="Side B" value="SD 4000-B1 FOON"/>
  </identifiers>
  <videos>
    <video src="https://www.youtube.com/watch?v=Txq736EVa80" duration="181" embed="true">
      <title>Tragic Error - Tanzen (1989)</title>
      <description>A Belgian New Beat classic!&#13;
&#13;
Track produced and written by Patrick De Meyer.</description>
    </video>
    <video src="https://www.youtube.com/watch?v=6KwqUVPJ-xc" duration="303" embed="true">
      <title>Westbam-Monkey say monkey do</title>
      <description>Classic house from 1988,Label-Dance Trax,catalog#: DRX 612,format 12" vinyl Germany 1988</description>
    </video>
  </videos>
  <companies>
    <company>
      <id>216650</id>
      <name>BE's Songs</name>
      <entity_type>21</entity_type>
      <entity_type_name>Published By</entity_type_name>
      <resource_url>https://api.discogs.com/labels/216650</resource_url>
    </company>
    <company>
      <id>57563</id>
      <name>Music Man Import</name>
      <entity_type>21</entity_type>
      <entity_type_name>Published By</entity_type_name>
      <resource_url>https://api.discogs.com/labels/57563</resource_url>
    </company>
  </companies>
</release>
        "#,
    );
    assert_eq!(expected, parsed)
}

#[test]
fn test_release_40299_20231001() {
    let expected = Release::builder(40299, "New Beat - Take 4")
        .artist(credit(194, "Various").build())
        .country("Belgium")
        .status("Accepted")
        .label(Some(9789), "Subway Dance", Some("Subway Dance 4000"))
        .label(Some(9789), "Subway Dance", Some("SD 4000-LP"))
        .released("1989")
        .notes("Made in Belgium.")
        .genre("Electronic")
        .style("Acid")
        .style("New Beat")
        .master_id(35574)
        .is_main_release(true)
        .data_quality("Needs Vote")
        .video("https://www.youtube.com/watch?v=Txq736EVa80", 181, "Tragic Error - Tanzen (1989)", "A Belgian New Beat classic!\r\n\r\nTrack produced and written by Patrick De Meyer.")
        .extraartist(
            credit(118541, "Maurice Engelen")
                .anv("The Maurice Engelen")
                .role("Compiled By"),
        )
        .extraartist(credit(501662, "Tejo De Roeck").role("Cover"))
        .extraartist(credit(11701904, "Boy Toy (6)").role("Model"))
        .extraartist(credit(3601091, "Annick Wets").role("Photography By [Photo]"))
        .track("A1", "Tanzen")
        .duration("3:37")
        .artist(credit(7542, "Tragic Error"))
        .extraartist(
            credit(116415, "Patrick De Meyer")
                .anv("P. De Meyer")
                .role("Written-By"),
        )
        .build_track()
        .track("A2", "New Beat, A Musical Phenomenon")
        .duration("3:40")
        .artist(credit(32087, "The Brotherhood Of Sleep"))
        .extraartist(credit(221853, "Joey Morton").anv("Morton").role("Written-By"))
        .extraartist(credit(25528, "Sherman").role("Written-By"))
        .build_track()
        .format("1", "Vinyl", None, &["LP", "Compilation"])
        .company(216650, "BE's Songs", None, 21, "Published By")
        .company(57563, "Music Man Import", None, 21, "Published By")
        .identifier("Rights Society", None, Some("SABAM-BIEM"))
        .identifier("Matrix / Runout", Some("Side A"), Some("SD 4000-A2"))
        .identifier("Matrix / Runout", Some("Side B"), Some("SD 4000-B1 FOON"))
        .image("primary", 600, 595)
        .image("secondary", 600, 614)
        .image("secondary", 589, 600)
        .build();

    let parsed = parse_release(
        r#"
<release id="40299" status="Accepted">
  <images>
    <image type="primary" uri="" uri150="" width="600" height="595"/>
    <image type="secondary" uri="" uri150="" width="600" height="614"/>
    <image type="secondary" uri="" uri150="" width="589" height="600"/>
  </images>
  <artists>
    <artist>
      <id>194</id>
      <name>Various</name>
      <anv>
      </anv>
      <join>
      </join>
      <role>
      </role>
      <tracks>
      </tracks>
    </artist>
  </artists>
  <title>New Beat - Take 4</title>
  <labels>
    <label name="Subway Dance" catno="Subway Dance 4000" id="9789"/>
    <label name="Subway Dance" catno="SD 4000-LP" id="9789"/>
  </labels>
  <extraartists>
    <artist>
      <id>118541</id>
      <name>Maurice Engelen</name>
      <anv>The Maurice Engelen</anv>
      <join>
      </join>
      <role>Compiled By</role>
      <tracks>
      </tracks>
    </artist>
    <artist>
      <id>501662</id>
      <name>Tejo De Roeck</name>
      <anv>
      </anv>
      <join>
      </join>
      <role>Cover</role>
      <tracks>
      </tracks>
    </artist>
    <artist>
      <id>11701904</id>
      <name>Boy Toy (6)</name>
      <anv>
      </anv>
      <join>
      </join>
      <role>Model</role>
      <tracks>
      </tracks>
    </artist>
    <artist>
      <id>3601091</id>
      <name>Annick Wets</name>
      <anv>
      </anv>
      <join>
      </join>
      <role>Photography By [Photo]</role>
      <tracks>
      </tracks>
    </artist>
  </extraartists>
  <formats>
    <format name="Vinyl" qty="1" text="">
      <descriptions>
        <description>LP</description>
        <description>Compilation</description>
      </descriptions>
    </format>
  </formats>
  <genres>
    <genre>Electronic</genre>
  </genres>
  <styles>
    <style>Acid</style>
    <style>New Beat</style>
  </styles>
  <country>Belgium</country>
  <released>1989</released>
  <notes>Made in Belgium.</notes>
  <data_quality>Needs Vote</data_quality>
  <master_id is_main_release="true">35574</master_id>
  <tracklist>
    <track>
      <position>A1</position>
      <title>Tanzen</title>
      <duration>3:37</duration>
      <artists>
        <artist>
          <id>7542</id>
          <name>Tragic Error</name>
          <anv>
          </anv>
          <join>
          </join>
          <role>
          </role>
          <tracks>
          </tracks>
        </artist>
      </artists>
      <extraartists>
        <artist>
          <id>116415</id>
          <name>Patrick De Meyer</name>
          <anv>P. De Meyer</anv>
          <join>
          </join>
          <role>Written-By</role>
          <tracks>
          </tracks>
        </artist>
      </extraartists>
    </track>
    <track>
      <position>A2</position>
      <title>New Beat, A Musical Phenomenon</title>
      <duration>3:40</duration>
      <artists>
        <artist>
          <id>32087</id>
          <name>The Brotherhood Of Sleep</name>
          <anv>
          </anv>
          <join>
          </join>
          <role>
          </role>
          <tracks>
          </tracks>
        </artist>
      </artists>
      <extraartists>
        <artist>
          <id>221853</id>
          <name>Joey Morton</name>
          <anv>Morton</anv>
          <join>
          </join>
          <role>Written-By</role>
          <tracks>
          </tracks>
        </artist>
        <artist>
          <id>25528</id>
          <name>Sherman</name>
          <anv>
          </anv>
          <join>
          </join>
          <role>Written-By</role>
          <tracks>
          </tracks>
        </artist>
      </extraartists>
    </track>
  </tracklist>
  <identifiers>
    <identifier type="Rights Society" value="SABAM-BIEM"/>
    <identifier type="Matrix / Runout" description="Side A" value="SD 4000-A2"/>
    <identifier type="Matrix / Runout" description="Side B" value="SD 4000-B1 FOON"/>
  </identifiers>
  <videos>
    <video src="https://www.youtube.com/watch?v=Txq736EVa80" duration="181" embed="true">
      <title>Tragic Error - Tanzen (1989)</title>
      <description>A Belgian New Beat classic!&#13;
&#13;
Track produced and written by Patrick De Meyer.</description>
    </video>
  </videos>
  <companies>
    <company>
      <id>216650</id>
      <name>BE's Songs</name>
      <catno>
      </catno>
      <entity_type>21</entity_type>
      <entity_type_name>Published By</entity_type_name>
      <resource_url>https://api.discogs.com/labels/216650</resource_url>
    </company>
    <company>
      <id>57563</id>
      <name>Music Man Import</name>
      <catno>
      </catno>
      <entity_type>21</entity_type>
      <entity_type_name>Published By</entity_type_name>
      <resource_url>https://api.discogs.com/labels/57563</resource_url>
    </company>
  </companies>
</release>
        "#,
    );
    assert_eq!(expected, parsed)
}
