use seismology::error::StationError;
use seismology::numbers::FloatErrorKind;
use seismology::station_xml::StationXML;
use seismology::stations::{networks_from_xml, Station};
use seismology::sub_state::{
    ChannelSubState, EndEvent, FDSNStationXMLState, NetworkSubState, StationSubState, SubState,
};
use seismology::time::UtcDateTime;

enum Ev<'a> {
    Start(&'a str, &'a str),
    Text(&'a str),
    End,
}
use Ev::{End, Start, Text};

fn run(events: &[Ev]) -> Result<(FDSNStationXMLState, StationXML), StationError> {
    let mut state = FDSNStationXMLState::Initial;
    let mut xml = StationXML::new();
    for e in events {
        match e {
            Start(tag, full) => {
                let (s, x) = state.xml_start_event(tag, full, xml)?;
                state = s;
                xml = x;
            }
            Text(t) => {
                xml = state.xml_text_event(t, xml)?;
            }
            End => match state.xml_end_event()? {
                EndEvent::Backtrack => {}
                EndEvent::Continue(s) => state = s,
            },
        }
    }
    Ok((state, xml))
}

fn document() -> Vec<Ev<'static>> {
    vec![
        Start("source", "Source"), Text("IRIS-DMC"), End,
        Start("sender", "Sender"), Text("IRIS-DMC"), End,
        Start("created", "Created"), Text("2026-05-29T05:51:16.9508"), End,
        Start("network", "Network code=\"AK\" startDate=\"1987-01-01T00:00:00.0000\" restrictedStatus=\"open\""),
        Start("description", "Description"), Text("Alaska Regional Network ()"), End,
        Start("station", "Station code=\"HDA\" startDate=\"2020-09-23T00:00:00.0000\" restrictedStatus=\"open\""),
        Start("latitude", "Latitude"), Text("70.2043"), End,
        Start("longitude", "Longitude"), Text("-161.0713"), End,
        Start("elevation", "Elevation"), Text("24"), End,
        Start("site", "Site"), Start("name", "Name"), Text("Hidden Alaska"), End, End,
        Start("creationdate", "CreationDate"), Text("2020-09-23T00:00:00.0000"), End,
        Start("totalnumberchannels", "TotalNumberChannels"), Text("1"), End,
        Start("channel", "Channel code=\"BHZ\" locationCode=\"\" startDate=\"2020-09-23T00:00:00.0000\" restrictedStatus=\"open\""),
        Start("latitude", "Latitude"), Text("70.2043"), End,
        Start("samplerate", "SampleRate"), Text("40"), End,
        Start("clockdrift", "ClockDrift"), Text("2E-04"), End,
        Start("type", "Type"), Text("GEOPHYSICAL"), End,
        Start("calibrationunits", "CalibrationUnits"),
        Start("name", "Name"), Text("V"), End,
        Start("description", "Description"), Text("emf in volts"), End,
        End,
        Start("sensor", "Sensor"), Start("description", "Description"), Text("STS-2"), End, End,
        Start("response", "Response"),
        Start("instrumentsensitivity", "InstrumentSensitivity"),
        Start("value", "Value"), Text("6.28316E8"), End,
        Start("inputunits", "InputUnits"), Start("name", "Name"), Text("m/s"), End, End,
        End,
        End,
        End,
        End,
        End,
    ]
}

#[test]
fn reads_a_station_document() {
    let (state, xml) = run(&document()).unwrap();
    assert_eq!(state, FDSNStationXMLState::Initial);
    assert_eq!(xml.source, "IRIS-DMC");
    assert_eq!(xml.sender, "IRIS-DMC");
    assert_eq!(
        xml.creation_date,
        Some(UtcDateTime::from_ymd_hms(2026, 5, 29, 5, 51, 16).unwrap().with_microsecond(950800))
    );
    assert_eq!(xml.networks.len(), 1);
    let net = &xml.networks[0];
    assert_eq!(net.code.as_deref(), Some("AK"));
    assert_eq!(net.restricted_status.as_deref(), Some("open"));
    assert_eq!(net.start_date, UtcDateTime::from_ymd_hms(1987, 1, 1, 0, 0, 0));
    assert_eq!(net.stations.len(), 1);
    let st = &net.stations[0];
    assert_eq!(st.code.as_deref(), Some("HDA"));
    assert_eq!(st.latitude.as_deref(), Some("70.2043"));
    assert_eq!(st.longitude.as_deref(), Some("-161.0713"));
    assert_eq!(st.elevation.as_deref(), Some("24"));
    assert_eq!(st.site_name.as_deref(), Some("Hidden Alaska"));
    assert_eq!(st.creation_date, UtcDateTime::from_ymd_hms(2020, 9, 23, 0, 0, 0));
    assert_eq!(st.channels.len(), 1);
    let ch = &st.channels[0];
    assert_eq!(ch.code.as_deref(), Some("BHZ"));
    assert_eq!(ch.location_code, None);
    assert_eq!(ch.latitude.as_deref(), Some("70.2043"));
    assert_eq!(ch.sample_rate.as_deref(), Some("40"));
    assert_eq!(ch.clock_drift.as_deref(), Some("2E-04"));
    let unit = ch.calibration_unit.as_ref().unwrap();
    assert_eq!(unit.name, None);
    assert_eq!(unit.description, None);
}

#[test]
fn states_nest_while_reading() {
    let events = document();
    let (state, _) = run(&events[..35]).unwrap();
    assert!(matches!(
        state,
        FDSNStationXMLState::Network(NetworkSubState::Station(StationSubState::Channel(
            ChannelSubState::Initial
        )))
    ));
}

#[test]
fn a_number_that_does_not_parse_is_an_error() {
    let events = vec![
        Start("network", "Network code=\"AK\""),
        Start("station", "Station code=\"HDA\""),
        Start("latitude", "Latitude"),
        Text("north"),
    ];
    assert!(matches!(
        run(&events),
        Err(StationError::ParseFloatError(FloatErrorKind::Invalid))
    ));
}

#[test]
fn a_tag_inside_a_leaf_is_a_structure_error() {
    let events = vec![Start("source", "Source"), Start("sender", "Sender")];
    assert!(matches!(run(&events), Err(StationError::XMLStructureError)));
}

#[test]
fn converts_the_document_to_networks() {
    let (_, xml) = run(&document()).unwrap();
    let fetched = UtcDateTime::from_ymd_hms(2026, 1, 1, 0, 0, 0).unwrap();
    let networks = networks_from_xml(&xml, fetched).unwrap();
    assert_eq!(networks.len(), 1);
    assert_eq!(networks[0].code, "AK");
    assert_eq!(networks[0].fetch_date, fetched);
    let st = &networks[0].stations[0];
    assert_eq!(st.code, "HDA");
    assert_eq!(st.latitude, "70.2043");
    assert_eq!(st.name, "Hidden Alaska");
    assert_eq!(st.start_time, UtcDateTime::from_ymd_hms(2020, 9, 23, 0, 0, 0).unwrap());
    assert_eq!(st.channels.len(), 1);
    assert_eq!(st.channels[0].code, "BHZ");
    assert_eq!(st.channels[0].sample_rate, "40");
    assert_eq!(st.channels[0].sensor_name, "STS-2");
}

#[test]
fn station_without_site_name_is_refused() {
    let events = vec![
        Start("network", "Network code=\"AK\""),
        Start("station", "Station code=\"HDA\" startDate=\"2020-09-23T00:00:00.0000\""),
        Start("latitude", "Latitude"), Text("1"), End,
        Start("longitude", "Longitude"), Text("2"), End,
        Start("elevation", "Elevation"), Text("3"), End,
    ];
    let (_, xml) = run(&events).unwrap();
    assert!(matches!(
        Station::try_from(&xml.networks[0].stations[0]),
        Err(StationError::MissingStationName)
    ));
}

#[test]
fn station_without_latitude_names_its_code() {
    let events = vec![
        Start("network", "Network code=\"AK\""),
        Start("station", "Station code=\"HDA\""),
    ];
    let (_, xml) = run(&events).unwrap();
    match Station::try_from(&xml.networks[0].stations[0]) {
        Err(StationError::MissingLatitude { station_code }) => assert_eq!(station_code, "HDA"),
        _ => panic!("expected a missing latitude"),
    }
}

#[test]
fn network_without_code_is_refused() {
    let events = vec![Start("network", "Network restrictedStatus=\"open\"")];
    let (_, xml) = run(&events).unwrap();
    let fetched = UtcDateTime::from_ymd_hms(2026, 1, 1, 0, 0, 0).unwrap();
    assert!(matches!(
        networks_from_xml(&xml, fetched),
        Err(StationError::NetworkMissingCode)
    ));
}

#[test]
fn an_end_tag_returns_to_the_state_before_its_start() {
    let events = document();
    for n in [3, 10, 20, 30, 35] {
        let (before, xml) = run(&events[..n]).unwrap();
        if let Start(tag, full) = &events[n] {
            if let Ok((inside, _)) = before.xml_start_event(tag, full, xml) {
                assert!(matches!(inside.xml_end_event(), Ok(EndEvent::Continue(s)) if s == before));
            }
        }
    }
    assert!(matches!(FDSNStationXMLState::Initial.xml_end_event(), Ok(EndEvent::Backtrack)));
}
