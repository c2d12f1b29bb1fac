use chrono::TimeDelta;
use seismology::stations::{FetchInfo, BASE_URL};
use seismology::time::UtcDateTime;
use seismology::waveforms::WaveformFetchInfo;

#[test]
fn waveform_query_writes_times_in_rfc3339_millis() {
    let info = WaveformFetchInfo {
        network: "IU".to_string(),
        station: "ANMO".to_string(),
        channel_select: "BHZ".to_string(),
        start_time: UtcDateTime::from_ymd_hms(2010, 2, 27, 6, 30, 0).unwrap(),
        end_time: UtcDateTime::from_ymd_hms(2010, 2, 27, 10, 30, 0)
            .unwrap()
            .with_microsecond(1500),
    };
    assert_eq!(
        info.url(),
        "https://service.earthscope.org/fdsnws/dataselect/1/query?net=IU&sta=ANMO&cha=BHZ\
         &start=2010-02-27T06:30:00.000Z&end=2010-02-27T10:30:00.001Z&format=miniseed"
    );
}

#[test]
fn test_fetch_info() {
    let items = [
        (TimeDelta::hours(1), "bar".to_string()),
        (TimeDelta::hours(2), "best".to_string()),
    ];
    for (delta, network_code) in items {
        let info = FetchInfo::default()
            .oldest_fetch(delta)
            .network(network_code.clone());
        assert_eq!(info.network, network_code);
        assert_eq!(info.oldest_fetch, delta);
    }
}

#[test]
fn station_query_names_the_network() {
    let info = FetchInfo::default().network("AK".to_string());
    assert_eq!(info.url(), format!("{}?network=AK", BASE_URL));
}

#[test]
fn years_beyond_four_digits_carry_a_sign() {
    let info = WaveformFetchInfo {
        network: "IU".to_string(),
        station: "ANMO".to_string(),
        channel_select: "BHZ".to_string(),
        start_time: UtcDateTime::from_ymd_hms(-1, 3, 4, 5, 6, 7).unwrap(),
        end_time: UtcDateTime::from_ymd_hms(10000, 1, 1, 0, 0, 0).unwrap(),
    };
    assert_eq!(
        info.url(),
        "https://service.earthscope.org/fdsnws/dataselect/1/query?net=IU&sta=ANMO&cha=BHZ\
         &start=-0001-03-04T05:06:07.000Z&end=+10000-01-01T00:00:00.000Z&format=miniseed"
    );
}
