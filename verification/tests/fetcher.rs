use chrono::{DateTime, Datelike, TimeDelta, TimeZone, Timelike, Utc};
use seismology::error::StationError;
use seismology::fetcher::{instant_of_reading, instant_of_unix_time, networks_from_answer, networks_from_document, FetcherInternal, WebClientTrait};
use seismology::station_xml::{Outcome, StationXML};
use seismology::stations::{Channel, FetchInfo, Network, Station, BASE_URL};
use seismology::time::UtcDateTime;

/// A client that answers one URL with a fixed body and records what it was asked.
struct CannedClient {
    url: String,
    body: String,
    asked: Vec<String>,
}

impl WebClientTrait for CannedClient {
    fn new() -> Result<Self, StationError> {
        Ok(CannedClient { url: String::new(), body: String::new(), asked: Vec::new() })
    }

    fn fetch(&mut self, url: String) -> Result<String, StationError> {
        self.asked.push(url.clone());
        if url == self.url {
            Ok(self.body.clone())
        } else {
            Err(StationError::XMLStructureError)
        }
    }
}

/// A small deterministic source of numbers for the generated stations.
struct Numbers(u64);

impl Numbers {
    fn next(&mut self) -> u64 {
        self.0 = self.0.wrapping_mul(6364136223846793005).wrapping_add(1442695040888963407);
        self.0 >> 11
    }

    fn range(&mut self, low: f64, high: f64) -> f64 {
        let unit = (self.next() % 1_000_000) as f64 / 1_000_000.0;
        low + unit * (high - low)
    }
}

fn to_utc(t: DateTime<Utc>) -> UtcDateTime {
    UtcDateTime::from_ymd_hms(t.year(), t.month(), t.day(), t.hour(), t.minute(), t.second())
        .unwrap()
        .with_microsecond(t.timestamp_subsec_micros())
}

fn build_time_string(time: DateTime<Utc>) -> String {
    let year = time.year();
    let month = time.month();
    let day = time.day();
    let hour = time.hour();
    let minute = time.minute();
    let second = time.second() as f64 + time.timestamp_subsec_micros() as f64 / 1e6;
    format!("{year}-{month:02}-{day:02}T{hour:02}:{minute:02}:{second:02.4}")
}

fn build_channel_xml(channel: &Channel) -> String {
    let channel_code = channel.code.as_str();
    let sample_rate = channel.sample_rate.as_str();
    let sensor_name = channel.sensor_name.as_str();
    format!("
         <Channel code=\"{channel_code}\" locationCode=\"\" startDate=\"2020-09-23T00:00:00.0000\" restrictedStatus=\"open\">
     <Latitude>70.2043</Latitude>
     <Longitude>-161.0713</Longitude>
     <Elevation>24</Elevation>
     <Depth>2.6</Depth>
     <Azimuth>90</Azimuth>
     <Dip>0</Dip>
     <Type>GEOPHYSICAL</Type>
     <SampleRate>{sample_rate}</SampleRate>
     <ClockDrift>2E-04</ClockDrift>
     <CalibrationUnits>
      <Name>V</Name>
      <Description>emf in volts</Description>
     </CalibrationUnits>
     <Sensor>
      <Description>{sensor_name}</Description>
     </Sensor>
     <Response>
     <InstrumentSensitivity>
       <Value>6.28316E8</Value>
       <Frequency>0.2</Frequency>
       <InputUnits>
         <Name>m/s</Name>
         <Description>velocity in meters per second</Description>
       </InputUnits>
       <OutputUnits>
         <Name>counts</Name>
         <Description>digital counts</Description>
       </OutputUnits>
     </InstrumentSensitivity>
     </Response>
    </Channel>
        ")
}

fn build_station_xml(station: &Station, start: DateTime<Utc>) -> String {
    let code = station.code.clone();
    let latitude = station.latitude.as_str();
    let longitude = station.longitude.as_str();
    let elevation = station.elevation.as_str();
    let start_date = build_time_string(start);
    let site_name = station.name.as_str();
    let total_number_channels = station.channels.len();
    let channel_string = station
        .channels
        .iter()
        .map(build_channel_xml)
        .fold(String::new(), |acc, x| acc + "\n" + &x);
    format!("<Station code=\"{code}\" startDate=\"{start_date}\" restrictedStatus=\"open\" iris:alternateNetworkCodes=\".EARTHSCOPE,.GREG,_REALTIME,.UNRESTRICTED,_US-ALL,_US-TA,_US-TA-ADOPTED\">
    <Latitude>{latitude}</Latitude>
    <Longitude>{longitude}</Longitude>
    <Elevation>{elevation}</Elevation>
    <Site>
     <Name>{site_name}</Name>
    </Site>
    <CreationDate>2020-09-23T00:00:00.0000</CreationDate>
    <TotalNumberChannels>{total_number_channels}</TotalNumberChannels>
    <SelectedNumberChannels>1</SelectedNumberChannels>
   {channel_string}

   </Station>")
}

fn build_xml(code: &str, stations: &[(Station, DateTime<Utc>)]) -> String {
    let station_xml = stations
        .iter()
        .map(|(s, t)| build_station_xml(s, *t))
        .fold(String::new(), |acc, x| acc + &x);
    let network_xml = format!(
        "
             <Network code=\"{}\" startDate=\"1987-01-01T00:00:00.0000\" restrictedStatus=\"open\">
   <Description>Alaska Regional Network ()</Description>
   <Identifier type=\"DOI\">10.7914/SN/AK
   </Identifier>
            {}
     </Network>
            ",
        code, station_xml
    );
    format!("<?xml version=\"1.0\" encoding=\"ISO-8859-1\"?>
            <FDSNStationXML xmlns=\"http://www.fdsn.org/xml/station/1\" xmlns:xsi=\"http://www.w3.org/2001/XMLSchema-instance\" xmlns:iris=\"http://www.fdsn.org/xml/station/1/iris\" xsi:schemaLocation=\"http://www.fdsn.org/xml/station/1 http://www.fdsn.org/xml/station/fdsn-station-1.1.xsd\" schemaVersion=\"1.1\">
  <Source>IRIS-DMC</Source>
  <Sender>IRIS-DMC</Sender>
  <Module>IRIS WEB SERVICE: fdsnws-station | version: 1.1.52</Module>
  <ModuleURI>https://service.iris.edu/fdsnws/station/1/query?latitude=64&amp;longitude=-147&amp;maxradius=15&amp;network=AK&amp;nodata=404</ModuleURI>
  <Created>2026-05-29T05:51:16.9508</Created>
        {}
             </FDSNStationXML>

            ", network_xml)
}

fn generated_stations(network: &str, number_stations: u32, number_channels: u32) -> Vec<(Station, DateTime<Utc>)> {
    let seed = network.as_bytes().iter().map(|v| *v as u64).sum::<u64>() + number_stations as u64;
    let mut numbers = Numbers(seed);
    (0..number_stations)
        .map(|_| {
            let channels = (0..number_channels)
                .map(|_| Channel {
                    code: numbers.next().to_string(),
                    sensor_name: numbers.next().to_string(),
                    sample_rate: numbers.range(3.0, 90.0).to_string(),
                })
                .collect();
            let start = Utc
                .timestamp_opt(1_600_000_000 + (numbers.next() % 200_000_000) as i64, 0)
                .single()
                .unwrap();
            let station = Station {
                channels,
                elevation: numbers.range(0.0, 90.0).to_string(),
                latitude: numbers.range(0.0, 90.0).to_string(),
                longitude: numbers.range(0.0, 90.0).to_string(),
                name: numbers.next().to_string(),
                code: numbers.next().to_string(),
                start_time: to_utc(start),
            };
            (station, start)
        })
        .collect()
}

fn web_pull(network: &str, oldest_fetch: TimeDelta, number_stations: u32, number_channels: u32) {
    let stations = generated_stations(network, number_stations, number_channels);
    let url = format!("{}?network={}", BASE_URL, network);
    let client = CannedClient { url: url.clone(), body: build_xml(network, &stations), asked: Vec::new() };
    let now = Utc::now();
    let info = FetchInfo::default().network(network.to_string()).oldest_fetch(oldest_fetch);
    let mut fetcher = FetcherInternal::with_web_client(client).expect("failed to create");
    let networks = fetcher.fetch_network(&info).expect("failed to get");
    assert_eq!(networks.len(), 1);
    assert_eq!(networks[0].code, network);
    let fetched = &networks[0].fetch_date;
    let fetched = Utc
        .with_ymd_and_hms(fetched.year, fetched.month, fetched.day, fetched.hour, fetched.minute, fetched.second)
        .unwrap()
        + TimeDelta::microseconds(fetched.microsecond as i64);
    assert!(fetched - now < TimeDelta::seconds(1));
    let expected: Vec<Station> = stations.into_iter().map(|(s, _)| s).collect();
    assert_eq!(networks[0].stations, expected);
}

#[test]
fn test_web_pull_no_stations() {
    web_pull("AA", TimeDelta::days(1), 0, 0);
}

#[test]
fn test_web_pull_one_station() {
    web_pull("AB", TimeDelta::days(1), 1, 1);
}

#[test]
fn test_web_pull_two_stations() {
    web_pull("AC", TimeDelta::days(1), 2, 2);
}

#[test]
fn fetch_asks_the_station_query_of_the_network() {
    let client = CannedClient {
        url: "elsewhere".to_string(),
        body: String::new(),
        asked: Vec::new(),
    };
    let mut fetcher = FetcherInternal::with_web_client(client).unwrap();
    let info = FetchInfo::default().network("AK".to_string());
    assert!(matches!(fetcher.fetch_network(&info), Err(StationError::XMLStructureError)));
}

#[test]
fn new_fetcher_asks_the_client() {
    assert!(FetcherInternal::<CannedClient>::new().is_ok());
}

#[test]
fn clock_readings_become_instants() {
    assert_eq!(
        instant_of_reading(2024, 2, 29, 23, 59, 59, 123_456),
        Some(UtcDateTime::from_ymd_hms(2024, 2, 29, 23, 59, 59).unwrap().with_microsecond(123_456))
    );
    assert_eq!(instant_of_reading(2016, 12, 31, 23, 59, 59, 1_500_000), None);
    assert_eq!(instant_of_reading(2023, 2, 29, 0, 0, 0, 0), None);
}

#[test]
fn unix_times_become_instants() {
    assert_eq!(instant_of_unix_time(0, 0), UtcDateTime::from_ymd_hms(1970, 1, 1, 0, 0, 0));
    assert_eq!(
        instant_of_unix_time(1_700_000_000, 250),
        Some(UtcDateTime::from_ymd_hms(2023, 11, 14, 22, 13, 20).unwrap().with_microsecond(250))
    );
    assert_eq!(instant_of_unix_time(u64::MAX, 0), None);
}

#[test]
fn documents_become_networks_or_errors() {
    let date = UtcDateTime::from_ymd_hms(2025, 1, 2, 3, 4, 5).unwrap();
    assert!(matches!(
        networks_from_document(Outcome::Panics, date),
        Err(StationError::UnsupportedContent)
    ));
    assert!(matches!(
        networks_from_document(Outcome::Fails(StationError::NeedNameQuotes), date),
        Err(StationError::NeedNameQuotes)
    ));
    let networks = networks_from_document(Outcome::Gives(StationXML::new()), date).unwrap();
    assert!(networks.is_empty());
}

#[test]
fn incomplete_channels_are_passed_over() {
    let text = "<FDSNStationXML><Network code=\"AK\"><Station code=\"X1\" startDate=\"2020-09-23T00:00:00.0000\">\
        <Latitude>1</Latitude><Longitude>2</Longitude><Elevation>3</Elevation>\
        <Site><Name>N</Name></Site>\
        <Channel code=\"BHZ\"><SampleRate>40</SampleRate></Channel>\
        <Channel code=\"BHN\"><SampleRate>20</SampleRate><Sensor><Description>STS-2</Description></Sensor></Channel>\
        </Station></Network></FDSNStationXML>";
    let date = UtcDateTime::from_ymd_hms(2025, 1, 2, 3, 4, 5).unwrap();
    let networks = networks_from_document(StationXML::from_xml(text), date).unwrap();
    let station = &networks[0].stations[0];
    assert_eq!(station.code, "X1");
    assert_eq!(
        station.channels,
        vec![Channel { code: "BHN".to_string(), sample_rate: "20".to_string(), sensor_name: "STS-2".to_string() }]
    );
}

#[test]
fn networks_keep_the_fetch_date() {
    let text = "<FDSNStationXML><Network code=\"AK\"></Network><Network code=\"IU\"/></FDSNStationXML>";
    let date = UtcDateTime::from_ymd_hms(2025, 1, 2, 3, 4, 5).unwrap();
    let networks: Vec<Network> = networks_from_document(StationXML::from_xml(text), date).unwrap();
    assert_eq!(networks.len(), 2);
    assert_eq!(networks[0].code, "AK");
    assert_eq!(networks[1].code, "IU");
    assert_eq!(networks[1].fetch_date, date);
}

#[test]
fn answers_become_networks_or_pass_their_error_on() {
    let date = UtcDateTime::from_ymd_hms(2025, 1, 2, 3, 4, 5).unwrap();
    assert!(matches!(
        networks_from_answer(Err(StationError::RequestFailed), date),
        Err(StationError::RequestFailed)
    ));
    let text = "<FDSNStationXML><Network code=\"AK\"/></FDSNStationXML>".to_string();
    let networks = networks_from_answer(Ok(text), date).unwrap();
    assert_eq!(networks.len(), 1);
    assert_eq!(networks[0].code, "AK");
    assert!(matches!(
        networks_from_answer(Ok("<FDSNStationXML><Operator/></FDSNStationXML>".to_string()), date),
        Err(StationError::UnsupportedContent)
    ));
}
