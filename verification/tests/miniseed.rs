use seismology::miniseed::{SampleType, SidParts};

#[test]
fn test_parse_station() {
    let info = SidParts::from_sid("FDSN:AK_HDA__B_H_Z");
    assert_eq!(info.network, "AK");
    assert_eq!(info.station, "HDA");
    assert_eq!(info.channel, "BHZ");
}

#[test]
fn sid_channel_pieces_lose_nuls() {
    let info = SidParts::from_sid("FDSN:IU_ANMO_00_B_H_Z\0\0\0");
    assert_eq!(info.network, "IU");
    assert_eq!(info.station, "ANMO");
    assert_eq!(info.channel, "BHZ");
}

#[test]
fn sid_without_channel_pieces() {
    let info = SidParts::from_sid("FDSN:AK_HDA");
    assert_eq!(info.station, "HDA");
    assert_eq!(info.channel, "");
}

#[test]
fn sample_types_from_codes() {
    assert_eq!(SampleType::from(b't' as i8), SampleType::TEXT);
    assert_eq!(SampleType::from(b'i' as i8), SampleType::I32);
    assert_eq!(SampleType::from(b'f' as i8), SampleType::F32);
    assert_eq!(SampleType::from(b'd' as i8), SampleType::F64);
}
