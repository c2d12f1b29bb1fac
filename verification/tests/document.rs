use seismology::document::{ascii_lowercase, read_events, xml_events, XmlEvent};
use seismology::error::StationError;
use seismology::station_xml::{Outcome, StationXML};

fn start(tag: &str, full: &str) -> XmlEvent {
    XmlEvent::Start { tag_lowercase: tag.to_string(), full: full.to_string() }
}

fn text(t: &str) -> XmlEvent {
    XmlEvent::Text(t.to_string())
}

#[test]
fn names_are_compared_in_lower_case() {
    assert_eq!(ascii_lowercase("FDSNStationXML"), "fdsnstationxml");
    assert_eq!(ascii_lowercase("ModuleURI"), "moduleuri");
    assert_eq!(ascii_lowercase("Äb_C1"), "Äb_c1");
}

#[test]
fn events_open_with_the_root() {
    let events = vec![
        start("fdsnstationxml", "FDSNStationXML"),
        start("source", "Source"),
        text("IRIS-DMC"),
        XmlEvent::End,
        XmlEvent::End,
    ];
    match read_events(&events) {
        Outcome::Gives(xml) => assert_eq!(xml.source, "IRIS-DMC"),
        _ => panic!("the document should be read"),
    }
    let no_root = vec![start("source", "Source"), text("IRIS-DMC"), XmlEvent::End];
    assert!(matches!(read_events(&no_root), Outcome::Fails(StationError::XMLStructureError)));
    assert!(matches!(read_events(&Vec::new()), Outcome::Fails(StationError::XMLStructureError)));
}

#[test]
fn unknown_elements_are_not_read() {
    let events = vec![start("fdsnstationxml", "FDSNStationXML"), start("operator", "Operator")];
    assert!(matches!(read_events(&events), Outcome::Panics));
}

#[test]
fn a_start_tag_inside_a_text_element_is_an_error() {
    let events = vec![
        start("fdsnstationxml", "FDSNStationXML"),
        start("source", "Source"),
        start("sender", "Sender"),
    ];
    assert!(matches!(read_events(&events), Outcome::Fails(StationError::XMLStructureError)));
}

#[test]
fn the_text_is_cut_into_events() {
    let events = xml_events("<?xml version=\"1.0\"?><A x=\"1\"><!-- c --><B/> Some &amp; text </A>").unwrap();
    assert_eq!(events.len(), 5);
    match &events[0] {
        XmlEvent::Start { tag_lowercase, full } => {
            assert_eq!(tag_lowercase, "a");
            assert_eq!(full, "A x=\"1\"");
        }
        _ => panic!("a start tag comes first"),
    }
    assert!(matches!(&events[1], XmlEvent::Start { tag_lowercase, .. } if tag_lowercase == "b"));
    assert!(matches!(&events[2], XmlEvent::End));
    assert!(matches!(&events[3], XmlEvent::Text(t) if t == "Some & text"));
    assert!(matches!(&events[4], XmlEvent::End));
}

#[test]
fn unreadable_xml_is_an_xml_error() {
    assert!(matches!(xml_events("<A></B>"), Err(StationError::XMLError)));
    assert!(matches!(xml_events("<A>&unknown;</A>"), Err(StationError::XMLError)));
    assert!(matches!(StationXML::from_xml("<A></B>"), Outcome::Fails(StationError::XMLError)));
}

#[test]
fn a_document_is_read_from_its_text() {
    let text = "<?xml version=\"1.0\" encoding=\"ISO-8859-1\"?>
        <FDSNStationXML xmlns=\"http://www.fdsn.org/xml/station/1\" schemaVersion=\"1.1\">
          <Source>IRIS-DMC</Source>
          <Module>IRIS WEB SERVICE</Module>
          <ModuleURI>https://service.iris.edu/query?latitude=64&amp;network=AK</ModuleURI>
          <Created>2026-05-29T05:51:16.9508</Created>
          <Network code=\"AK\" startDate=\"1987-01-01T00:00:00.0000\" restrictedStatus=\"open\">
            <Description>Alaska Regional Network</Description>
          </Network>
        </FDSNStationXML>";
    match StationXML::from_xml(text) {
        Outcome::Gives(xml) => {
            assert_eq!(xml.source, "IRIS-DMC");
            assert_eq!(xml.module, "IRIS WEB SERVICE");
            assert_eq!(xml.module_uri, "https://service.iris.edu/query?latitude=64&network=AK");
            assert_eq!(xml.networks.len(), 1);
            assert_eq!(xml.networks[0].code.as_deref(), Some("AK"));
            assert_eq!(xml.networks[0].restricted_status.as_deref(), Some("open"));
        }
        _ => panic!("the document should be read"),
    }
}
