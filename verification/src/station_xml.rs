//! The FDSN StationXML document as the reader builds it, and the time stamps in it.
use crate::error::StationError;
use crate::numbers::{
    find_byte, index_of, lemma_pow10_monotone, lemma_scan_below_pow10, parse_i32_range,
    parse_i32_spec, parse_unsigned, parse_unsigned_range, pow10,
};
use crate::time::{civil_time_exists, UtcDateTime};
use vstd::prelude::*;
use vstd::string::StringSliceAdditionalSpecFns;
use vstd::utf8::encode_utf8;

verus! {

/// UTF-8 continuation bytes, which never start a character.
pub open spec fn is_continuation(b: u8) -> bool {
    128 <= b < 192
}

/// Byte offset `i` of the UTF-8 text `s` lies between two characters, so that a
/// slice may start or end there.
pub open spec fn boundary(s: Seq<u8>, i: int) -> bool {
    i == s.len() || (0 <= i < s.len() && !is_continuation(s[i]))
}

/// The part of `s` before the first `sep`, as the first item of `split(sep)`.
pub open spec fn piece_until(s: Seq<u8>, sep: u8) -> Seq<u8> {
    match index_of(s, sep) {
        Some(i) => s.take(i),
        None => s,
    }
}

pub open spec fn u32_max() -> nat {
    0xffff_ffff
}

pub open spec fn u64_max() -> nat {
    0xffff_ffff_ffff_ffff
}

/// How a reading ends: a panic (an index out of range, a slice inside a character,
/// a date that does not exist), an error, or a value.
pub enum Outcome<T> {
    Panics,
    Fails(StationError),
    Gives(T),
}

/// How reading up to three numeric fields ends.
pub enum FieldsOutcome {
    Panics,
    Fails(StationError),
    Values(int, int, int),
}

/// The seconds part `s` (after `HH:mm:`) of a time stamp on the given day and minute.
pub open spec fn seconds_outcome(
    year: int,
    month: int,
    day: int,
    hour: int,
    minute: int,
    s: Seq<u8>,
) -> Outcome<UtcDateTime> {
    match parse_unsigned(piece_until(s, 46), u32_max()) {
        Err(k) => Outcome::Fails(StationError::ParseIntError(k)),
        Ok(second) => match index_of(s, 46) {
            None => Outcome::Fails(StationError::InvalidTimeFormat),
            Some(p) => {
                let frac = piece_until(s.skip(p + 1), 46);
                if frac.len() > 6 {
                    Outcome::Fails(
                        StationError::ToManySeconds { number_digits: frac.len() as u32 },
                    )
                } else {
                    match parse_unsigned(frac, u64_max()) {
                        Err(k) => Outcome::Fails(StationError::ParseIntError(k)),
                        Ok(f) => if !civil_time_exists(
                            year as i32,
                            month as u32,
                            day as u32,
                            hour as u32,
                            minute as u32,
                            second as u32,
                        ) {
                            Outcome::Panics
                        } else {
                            Outcome::Gives(
                                UtcDateTime {
                                    year: year as i32,
                                    month: month as u32,
                                    day: day as u32,
                                    hour: hour as u32,
                                    minute: minute as u32,
                                    second: second as u32,
                                    microsecond: (f * pow10((6 - frac.len()) as nat)) as u32,
                                },
                            )
                        },
                    }
                }
            },
        },
    }
}

/// Year, month and day of the date part `p1` (`YYYY-MM-DD`), each read at its byte offsets.
pub open spec fn ymd_outcome(p1: Seq<u8>) -> FieldsOutcome {
    if !(p1.len() >= 4 && boundary(p1, 4)) {
        FieldsOutcome::Panics
    } else {
        match parse_i32_spec(p1.subrange(0, 4)) {
            Err(k) => FieldsOutcome::Fails(StationError::ParseIntError(k)),
            Ok(year) => if !(p1.len() >= 7 && boundary(p1, 5) && boundary(p1, 7)) {
                FieldsOutcome::Panics
            } else {
                match parse_unsigned(p1.subrange(5, 7), u32_max()) {
                    Err(k) => FieldsOutcome::Fails(StationError::ParseIntError(k)),
                    Ok(month) => if !(p1.len() >= 10 && boundary(p1, 8) && boundary(p1, 10)) {
                        FieldsOutcome::Panics
                    } else {
                        match parse_unsigned(p1.subrange(8, 10), u32_max()) {
                            Err(k) => FieldsOutcome::Fails(StationError::ParseIntError(k)),
                            Ok(day) => FieldsOutcome::Values(year, month as int, day as int),
                        }
                    },
                }
            },
        }
    }
}

/// Hour and minute of the time part `p2` (`HH:mm:SS...`), each read at its byte
/// offsets; the seconds must start at byte 6.
pub open spec fn hm_outcome(p2: Seq<u8>) -> FieldsOutcome {
    if !(p2.len() >= 2 && boundary(p2, 2)) {
        FieldsOutcome::Panics
    } else {
        match parse_unsigned(p2.subrange(0, 2), u32_max()) {
            Err(k) => FieldsOutcome::Fails(StationError::ParseIntError(k)),
            Ok(hour) => if !(p2.len() >= 5 && boundary(p2, 3) && boundary(p2, 5)) {
                FieldsOutcome::Panics
            } else {
                match parse_unsigned(p2.subrange(3, 5), u32_max()) {
                    Err(k) => FieldsOutcome::Fails(StationError::ParseIntError(k)),
                    Ok(minute) => if !(p2.len() >= 6 && boundary(p2, 6)) {
                        FieldsOutcome::Panics
                    } else {
                        FieldsOutcome::Values(hour as int, minute as int, 0)
                    },
                }
            },
        }
    }
}

/// Reading the time stamp `YYYY-MM-DDTHH:mm:SS.ffffff` held in the bytes `b`: the part
/// before the first `T` is the date, the part up to the next `T` the time of day.
pub open spec fn date_outcome(b: Seq<u8>) -> Outcome<UtcDateTime> {
    match index_of(b, 84) {
        None => Outcome::Panics,
        Some(t) => {
            let p2 = piece_until(b.skip(t + 1), 84);
            match ymd_outcome(b.take(t)) {
                FieldsOutcome::Panics => Outcome::Panics,
                FieldsOutcome::Fails(e) => Outcome::Fails(e),
                FieldsOutcome::Values(year, month, day) => match hm_outcome(p2) {
                    FieldsOutcome::Panics => Outcome::Panics,
                    FieldsOutcome::Fails(e) => Outcome::Fails(e),
                    FieldsOutcome::Values(hour, minute, _) => seconds_outcome(
                        year,
                        month,
                        day,
                        hour,
                        minute,
                        p2.skip(6),
                    ),
                },
            }
        },
    }
}

fn scaled_fraction(f: u64, n: usize) -> (r: u32)
    requires
        n <= 6,
        f < pow10(n as nat),
    ensures
        r == f * pow10((6 - n) as nat),
        r < 1_000_000,
{
    proof {
        reveal_with_fuel(pow10, 7);
    }
    let m: u64 = if n == 0 {
        1_000_000
    } else if n == 1 {
        100_000
    } else if n == 2 {
        10_000
    } else if n == 3 {
        1_000
    } else if n == 4 {
        100
    } else if n == 5 {
        10
    } else {
        1
    };
    assert(f * m < 1_000_000) by (nonlinear_arith)
        requires
            f < pow10(n as nat),
            m * pow10(n as nat) == 1_000_000,
            m > 0,
    ;
    (f * m) as u32
}

/// `boundary` of the bytes `s[lo..hi]` at `i`.
fn boundary_at(s: &[u8], lo: usize, hi: usize, i: usize) -> (r: bool)
    requires
        lo <= hi <= s@.len(),
    ensures
        r == boundary(s@.subrange(lo as int, hi as int), i as int),
{
    if i == hi - lo {
        true
    } else if i < hi - lo {
        let b = s[lo + i];
        !(128 <= b && b < 192)
    } else {
        false
    }
}

/// The date fields in the bytes `s[0..t]`.
fn read_ymd(s: &[u8], t: usize) -> (res: Outcome<(i32, u32, u32)>)
    requires
        t <= s@.len(),
    ensures
        match ymd_outcome(s@.take(t as int)) {
            FieldsOutcome::Values(y, m, d) => res == Outcome::Gives((y as i32, m as u32, d as u32))
                && -0x8000_0000 <= y < 0x8000_0000 && 0 <= m <= u32_max() && 0 <= d <= u32_max(),
            FieldsOutcome::Fails(e) => res == Outcome::<(i32, u32, u32)>::Fails(e),
            FieldsOutcome::Panics => res is Panics,
        },
{
    let ghost p1 = s@.take(t as int);
    assert(p1 =~= s@.subrange(0, t as int));
    if !(t >= 4 && boundary_at(s, 0, t, 4)) {
        return Outcome::Panics;
    }
    assert(p1.subrange(0, 4) =~= s@.subrange(0, 4));
    let year = match parse_i32_range(s, 0, 4) {
        Ok(v) => v,
        Err(k) => return Outcome::Fails(StationError::ParseIntError(k)),
    };
    if !(t >= 7 && boundary_at(s, 0, t, 5) && boundary_at(s, 0, t, 7)) {
        return Outcome::Panics;
    }
    assert(p1.subrange(5, 7) =~= s@.subrange(5, 7));
    let month = match parse_unsigned_range(s, 5, 7, 0xffff_ffff) {
        Ok(v) => v as u32,
        Err(k) => return Outcome::Fails(StationError::ParseIntError(k)),
    };
    if !(t >= 10 && boundary_at(s, 0, t, 8) && boundary_at(s, 0, t, 10)) {
        return Outcome::Panics;
    }
    assert(p1.subrange(8, 10) =~= s@.subrange(8, 10));
    let day = match parse_unsigned_range(s, 8, 10, 0xffff_ffff) {
        Ok(v) => v as u32,
        Err(k) => return Outcome::Fails(StationError::ParseIntError(k)),
    };
    Outcome::Gives((year, month, day))
}

/// Hour and minute in the bytes `s[h..e]`.
fn read_hm(s: &[u8], h: usize, e: usize) -> (res: Outcome<(u32, u32)>)
    requires
        h <= e <= s@.len(),
    ensures
        match hm_outcome(s@.subrange(h as int, e as int)) {
            FieldsOutcome::Values(hr, mi, _) => res == Outcome::Gives((hr as u32, mi as u32)) && 0
                <= hr <= u32_max() && 0 <= mi <= u32_max() && e - h >= 6,
            FieldsOutcome::Fails(er) => res == Outcome::<(u32, u32)>::Fails(er),
            FieldsOutcome::Panics => res is Panics,
        },
{
    let ghost p2 = s@.subrange(h as int, e as int);
    if !(e - h >= 2 && boundary_at(s, h, e, 2)) {
        return Outcome::Panics;
    }
    assert(p2.subrange(0, 2) =~= s@.subrange(h as int, h + 2));
    let hour = match parse_unsigned_range(s, h, h + 2, 0xffff_ffff) {
        Ok(v) => v as u32,
        Err(k) => return Outcome::Fails(StationError::ParseIntError(k)),
    };
    if !(e - h >= 5 && boundary_at(s, h, e, 3) && boundary_at(s, h, e, 5)) {
        return Outcome::Panics;
    }
    assert(p2.subrange(3, 5) =~= s@.subrange(h + 3, h + 5));
    let minute = match parse_unsigned_range(s, h + 3, h + 5, 0xffff_ffff) {
        Ok(v) => v as u32,
        Err(k) => return Outcome::Fails(StationError::ParseIntError(k)),
    };
    if !(e - h >= 6 && boundary_at(s, h, e, 6)) {
        return Outcome::Panics;
    }
    Outcome::Gives((hour, minute))
}

/// The seconds part in the bytes `s[lo..hi]` of a time stamp on the given day and minute.
fn read_seconds(
    s: &[u8],
    lo: usize,
    hi: usize,
    year: i32,
    month: u32,
    day: u32,
    hour: u32,
    minute: u32,
) -> (res: Outcome<UtcDateTime>)
    requires
        lo <= hi <= s@.len(),
    ensures
        res == seconds_outcome(
            year as int,
            month as int,
            day as int,
            hour as int,
            minute as int,
            s@.subrange(lo as int, hi as int),
        ),
        res matches Outcome::Gives(t) ==> t.wf(),
{
    let ghost sec = s@.subrange(lo as int, hi as int);
    let dot = find_byte(s, lo, hi, 46);
    assert(piece_until(sec, 46) =~= s@.subrange(lo as int, dot as int));
    let second = match parse_unsigned_range(s, lo, dot, 0xffff_ffff) {
        Ok(v) => v as u32,
        Err(k) => return Outcome::Fails(StationError::ParseIntError(k)),
    };
    if dot == hi {
        return Outcome::Fails(StationError::InvalidTimeFormat);
    }
    let frac_end = find_byte(s, dot + 1, hi, 46);
    assert(sec.skip(dot - lo + 1) =~= s@.subrange(dot + 1, hi as int));
    let ghost frac = s@.subrange(dot + 1, frac_end as int);
    assert(frac =~= piece_until(sec.skip(dot - lo + 1), 46));
    let number_digits = frac_end - (dot + 1);
    if number_digits > 6 {
        return Outcome::Fails(StationError::ToManySeconds { number_digits: number_digits as u32 });
    }
    let f = match parse_unsigned_range(s, dot + 1, frac_end, 0xffff_ffff_ffff_ffff) {
        Ok(v) => v,
        Err(k) => return Outcome::Fails(StationError::ParseIntError(k)),
    };
    proof {
        lemma_scan_below_pow10(frac, u64_max());
        lemma_scan_below_pow10(frac.skip(1), u64_max());
        if frac.len() > 0 {
            lemma_pow10_monotone((frac.len() - 1) as nat, frac.len());
        }
    }
    let micro = scaled_fraction(f, number_digits);
    match UtcDateTime::from_ymd_hms(year, month, day, hour, minute, second) {
        Some(base) => Outcome::Gives(base.with_microsecond(micro)),
        None => Outcome::Panics,
    }
}

/// How reading the time stamp `YYYY-MM-DDTHH:mm:SS.ffffff` in `text` ends; unlike
/// `parse_to_date_time`, this also reports the texts on which that reading panics.
pub fn read_date_outcome(text: &str) -> (res: Outcome<UtcDateTime>)
    ensures
        res == date_outcome(text.spec_bytes()),
        res matches Outcome::Gives(t) ==> t.wf(),
{
    let s = text.as_bytes();
    let ghost b = s@;
    let len = s.len();
    assert(b.subrange(0, len as int) =~= b);
    let t = find_byte(s, 0, len, 84);
    if t == len {
        return Outcome::Panics;
    }
    let t2 = find_byte(s, t + 1, len, 84);
    assert(b.skip(t + 1) =~= b.subrange(t + 1, len as int));
    let ghost p2 = b.subrange(t + 1, t2 as int);
    assert(p2 =~= piece_until(b.skip(t + 1), 84));
    let (year, month, day) = match read_ymd(s, t) {
        Outcome::Gives(v) => v,
        Outcome::Fails(e) => return Outcome::Fails(e),
        Outcome::Panics => return Outcome::Panics,
    };
    let (hour, minute) = match read_hm(s, t + 1, t2) {
        Outcome::Gives(v) => v,
        Outcome::Fails(e) => return Outcome::Fails(e),
        Outcome::Panics => return Outcome::Panics,
    };
    assert(p2.skip(6) =~= b.subrange(t + 7, t2 as int));
    read_seconds(s, t + 7, t2, year, month, day, hour, minute)
}

/// Reads a time stamp `YYYY-MM-DDTHH:mm:SS.ffffff` as an instant in UTC.
pub fn parse_to_date_time(text: &str) -> (res: Result<UtcDateTime, StationError>)
    requires
        !(date_outcome(text.spec_bytes()) is Panics),
    ensures
        res matches Ok(t) ==> date_outcome(text.spec_bytes()) == Outcome::Gives(t) && t.wf(),
        res matches Err(e) ==> date_outcome(text.spec_bytes()) == Outcome::<UtcDateTime>::Fails(e),
{
    match read_date_outcome(text) {
        Outcome::Gives(t) => Ok(t),
        Outcome::Fails(e) => Err(e),
        Outcome::Panics => Err(StationError::InvalidTimeFormat),
    }
}

/// Reading the time stamp held in the text `text`.
pub open spec fn date_text_outcome(text: Seq<char>) -> Outcome<UtcDateTime> {
    date_outcome(encode_utf8(text))
}

/// The reading of a decimal number held in the text `text`.
pub open spec fn decimal_text(text: Seq<char>) -> Result<(), crate::numbers::FloatErrorKind> {
    crate::numbers::float_syntax(encode_utf8(text))
}

impl DeepView for UtcDateTime {
    type V = UtcDateTime;

    open spec fn deep_view(&self) -> UtcDateTime {
        *self
    }
}

/// A unit of measurement.
#[derive(Clone, Debug)]
pub struct Unit {
    pub name: Option<String>,
    pub description: Option<String>,
}

pub struct UnitView {
    pub name: Option<Seq<char>>,
    pub description: Option<Seq<char>>,
}

impl DeepView for Unit {
    type V = UnitView;

    open spec fn deep_view(&self) -> UnitView {
        UnitView { name: self.name.deep_view(), description: self.description.deep_view() }
    }
}

#[derive(Clone, Debug)]
pub struct Sensor {
    pub description: Option<String>,
}

pub struct SensorView {
    pub description: Option<Seq<char>>,
}

impl DeepView for Sensor {
    type V = SensorView;

    open spec fn deep_view(&self) -> SensorView {
        SensorView { description: self.description.deep_view() }
    }
}

/// Numbers are held as the decimal text that was read for them.
#[derive(Clone, Debug)]
pub struct InstrumentSensitivity {
    pub value: Option<String>,
    pub frequency: Option<String>,
    pub input_units: Option<Unit>,
    pub output_units: Option<Unit>,
}

pub struct InstrumentSensitivityView {
    pub value: Option<Seq<char>>,
    pub frequency: Option<Seq<char>>,
    pub input_units: Option<UnitView>,
    pub output_units: Option<UnitView>,
}

impl DeepView for InstrumentSensitivity {
    type V = InstrumentSensitivityView;

    open spec fn deep_view(&self) -> InstrumentSensitivityView {
        InstrumentSensitivityView {
            value: self.value.deep_view(),
            frequency: self.frequency.deep_view(),
            input_units: self.input_units.deep_view(),
            output_units: self.output_units.deep_view(),
        }
    }
}

#[derive(Clone, Debug)]
pub struct Response {
    pub instrument_sensitivity: Option<InstrumentSensitivity>,
}

pub struct ResponseView {
    pub instrument_sensitivity: Option<InstrumentSensitivityView>,
}

impl DeepView for Response {
    type V = ResponseView;

    open spec fn deep_view(&self) -> ResponseView {
        ResponseView { instrument_sensitivity: self.instrument_sensitivity.deep_view() }
    }
}

/// A channel of a station. Numbers are held as the decimal text that was read for them.
#[derive(Clone, Debug)]
pub struct Channel {
    pub code: Option<String>,
    pub location_code: Option<String>,
    pub start_date: Option<UtcDateTime>,
    pub latitude: Option<String>,
    pub longitude: Option<String>,
    pub elevation: Option<String>,
    pub depth: Option<String>,
    pub azimuth: Option<String>,
    pub dip: Option<String>,
    pub sample_rate: Option<String>,
    pub clock_drift: Option<String>,
    pub calibration_unit: Option<Unit>,
    pub sensor: Option<Sensor>,
    pub response: Option<Response>,
}

pub struct ChannelView {
    pub code: Option<Seq<char>>,
    pub location_code: Option<Seq<char>>,
    pub start_date: Option<UtcDateTime>,
    pub latitude: Option<Seq<char>>,
    pub longitude: Option<Seq<char>>,
    pub elevation: Option<Seq<char>>,
    pub depth: Option<Seq<char>>,
    pub azimuth: Option<Seq<char>>,
    pub dip: Option<Seq<char>>,
    pub sample_rate: Option<Seq<char>>,
    pub clock_drift: Option<Seq<char>>,
    pub calibration_unit: Option<UnitView>,
    pub sensor: Option<SensorView>,
    pub response: Option<ResponseView>,
}

impl DeepView for Channel {
    type V = ChannelView;

    open spec fn deep_view(&self) -> ChannelView {
        ChannelView {
            code: self.code.deep_view(),
            location_code: self.location_code.deep_view(),
            start_date: self.start_date,
            latitude: self.latitude.deep_view(),
            longitude: self.longitude.deep_view(),
            elevation: self.elevation.deep_view(),
            depth: self.depth.deep_view(),
            azimuth: self.azimuth.deep_view(),
            dip: self.dip.deep_view(),
            sample_rate: self.sample_rate.deep_view(),
            clock_drift: self.clock_drift.deep_view(),
            calibration_unit: self.calibration_unit.deep_view(),
            sensor: self.sensor.deep_view(),
            response: self.response.deep_view(),
        }
    }
}

/// A station of a network. Numbers are held as the decimal text that was read for them.
#[derive(Clone, Debug)]
pub struct Station {
    pub code: Option<String>,
    pub start_date: Option<UtcDateTime>,
    pub end_date: Option<UtcDateTime>,
    pub elevation: Option<String>,
    pub latitude: Option<String>,
    pub longitude: Option<String>,
    pub site_name: Option<String>,
    pub creation_date: Option<UtcDateTime>,
    pub channels: Vec<Channel>,
}

pub struct StationView {
    pub code: Option<Seq<char>>,
    pub start_date: Option<UtcDateTime>,
    pub end_date: Option<UtcDateTime>,
    pub elevation: Option<Seq<char>>,
    pub latitude: Option<Seq<char>>,
    pub longitude: Option<Seq<char>>,
    pub site_name: Option<Seq<char>>,
    pub creation_date: Option<UtcDateTime>,
    pub channels: Seq<ChannelView>,
}

impl DeepView for Station {
    type V = StationView;

    open spec fn deep_view(&self) -> StationView {
        StationView {
            code: self.code.deep_view(),
            start_date: self.start_date,
            end_date: self.end_date,
            elevation: self.elevation.deep_view(),
            latitude: self.latitude.deep_view(),
            longitude: self.longitude.deep_view(),
            site_name: self.site_name.deep_view(),
            creation_date: self.creation_date,
            channels: self.channels.deep_view(),
        }
    }
}

/// A network of stations.
#[derive(Clone, Debug)]
pub struct Network {
    pub code: Option<String>,
    pub start_date: Option<UtcDateTime>,
    pub restricted_status: Option<String>,
    pub stations: Vec<Station>,
}

pub struct NetworkView {
    pub code: Option<Seq<char>>,
    pub start_date: Option<UtcDateTime>,
    pub restricted_status: Option<Seq<char>>,
    pub stations: Seq<StationView>,
}

impl DeepView for Network {
    type V = NetworkView;

    open spec fn deep_view(&self) -> NetworkView {
        NetworkView {
            code: self.code.deep_view(),
            start_date: self.start_date,
            restricted_status: self.restricted_status.deep_view(),
            stations: self.stations.deep_view(),
        }
    }
}

/// An FDSN StationXML document.
#[derive(Clone, Debug)]
pub struct StationXML {
    pub source: String,
    pub sender: String,
    pub module: String,
    pub module_uri: String,
    pub creation_date: Option<UtcDateTime>,
    pub networks: Vec<Network>,
}

pub struct StationXMLView {
    pub source: Seq<char>,
    pub sender: Seq<char>,
    pub module: Seq<char>,
    pub module_uri: Seq<char>,
    pub creation_date: Option<UtcDateTime>,
    pub networks: Seq<NetworkView>,
}

impl DeepView for StationXML {
    type V = StationXMLView;

    open spec fn deep_view(&self) -> StationXMLView {
        StationXMLView {
            source: self.source@,
            sender: self.sender@,
            module: self.module@,
            module_uri: self.module_uri@,
            creation_date: self.creation_date,
            networks: self.networks.deep_view(),
        }
    }
}

impl StationXMLView {
    pub open spec fn has_last_network(self) -> bool {
        self.networks.len() > 0
    }

    pub open spec fn has_last_station(self) -> bool {
        self.has_last_network() && self.networks.last().stations.len() > 0
    }

    pub open spec fn has_last_channel(self) -> bool {
        self.has_last_station() && self.networks.last().stations.last().channels.len() > 0
    }

    pub open spec fn with_last_network(self, f: spec_fn(NetworkView) -> NetworkView) -> Self {
        StationXMLView {
            networks: self.networks.update(self.networks.len() - 1, f(self.networks.last())),
            ..self
        }
    }

    pub open spec fn with_last_station(self, f: spec_fn(StationView) -> StationView) -> Self {
        self.with_last_network(
            |n: NetworkView|
                NetworkView {
                    stations: n.stations.update(n.stations.len() - 1, f(n.stations.last())),
                    ..n
                },
        )
    }

    pub open spec fn with_last_channel(self, f: spec_fn(ChannelView) -> ChannelView) -> Self {
        self.with_last_station(
            |s: StationView|
                StationView {
                    channels: s.channels.update(s.channels.len() - 1, f(s.channels.last())),
                    ..s
                },
        )
    }
}

impl StationXML {
    pub fn has_last_network(&self) -> (r: bool)
        ensures
            r == self.deep_view().has_last_network(),
    {
        self.networks.len() > 0
    }

    pub fn has_last_station(&self) -> (r: bool)
        ensures
            r == self.deep_view().has_last_station(),
    {
        let n = self.networks.len();
        n > 0 && self.networks[n - 1].stations.len() > 0
    }

    pub fn has_last_channel(&self) -> (r: bool)
        ensures
            r == self.deep_view().has_last_channel(),
    {
        let n = self.networks.len();
        if n == 0 {
            return false;
        }
        let m = self.networks[n - 1].stations.len();
        m > 0 && self.networks[n - 1].stations[m - 1].channels.len() > 0
    }

    /// An empty document.
    pub fn new() -> (x: StationXML)
        ensures
            x.deep_view() == (StationXMLView {
                source: Seq::empty(),
                sender: Seq::empty(),
                module: Seq::empty(),
                module_uri: Seq::empty(),
                creation_date: None,
                networks: Seq::empty(),
            }),
    {
        let x = StationXML {
            source: String::new(),
            sender: String::new(),
            module: String::new(),
            module_uri: String::new(),
            creation_date: None,
            networks: Vec::new(),
        };
        assert(x.networks.deep_view() =~= Seq::<NetworkView>::empty());
        x
    }
}

/// The text fields of a station that events set.
#[derive(Clone, Copy, Debug, PartialEq, Eq)]
pub enum StationField {
    Latitude,
    Longitude,
    Elevation,
    SiteName,
}

/// The text fields of a channel that events set.
#[derive(Clone, Copy, Debug, PartialEq, Eq)]
pub enum ChannelField {
    Latitude,
    Longitude,
    Elevation,
    Depth,
    Azimuth,
    Dip,
    SampleRate,
    ClockDrift,
}

pub open spec fn station_with_text(st: StationView, f: StationField, v: Seq<char>) -> StationView {
    match f {
        StationField::Latitude => StationView { latitude: Some(v), ..st },
        StationField::Longitude => StationView { longitude: Some(v), ..st },
        StationField::Elevation => StationView { elevation: Some(v), ..st },
        StationField::SiteName => StationView { site_name: Some(v), ..st },
    }
}

pub open spec fn channel_with_text(c: ChannelView, f: ChannelField, v: Seq<char>) -> ChannelView {
    match f {
        ChannelField::Latitude => ChannelView { latitude: Some(v), ..c },
        ChannelField::Longitude => ChannelView { longitude: Some(v), ..c },
        ChannelField::Elevation => ChannelView { elevation: Some(v), ..c },
        ChannelField::Depth => ChannelView { depth: Some(v), ..c },
        ChannelField::Azimuth => ChannelView { azimuth: Some(v), ..c },
        ChannelField::Dip => ChannelView { dip: Some(v), ..c },
        ChannelField::SampleRate => ChannelView { sample_rate: Some(v), ..c },
        ChannelField::ClockDrift => ChannelView { clock_drift: Some(v), ..c },
    }
}

/// Adds a network at the end of the document.
pub fn push_network(xml: &mut StationXML, n: Network)
    ensures
        final(xml).deep_view() == (StationXMLView {
            networks: old(xml).deep_view().networks.push(n.deep_view()),
            ..old(xml).deep_view()
        }),
{
    let ghost nv = n.deep_view();
    xml.networks.push(n);
    assert(xml.networks.deep_view() =~= old(xml).networks.deep_view().push(nv));
}

/// Changes the last network of the document by `f`, given as a change of `net`.
proof fn lemma_replace_last_network(old_v: Seq<Network>, new_v: Seq<Network>, net: Network)
    requires
        old_v.len() > 0,
        new_v == old_v.drop_last().push(net),
    ensures
        Seq::new(new_v.len(), |i: int| new_v[i].deep_view()) =~= Seq::new(
            old_v.len(),
            |i: int| old_v[i].deep_view(),
        ).update(old_v.len() - 1, net.deep_view()),
{
}

/// Adds a station at the end of the last network.
pub fn push_station(xml: &mut StationXML, st: Station)
    requires
        old(xml).deep_view().has_last_network(),
    ensures
        final(xml).deep_view() == old(xml).deep_view().with_last_network(
            |n: NetworkView| NetworkView { stations: n.stations.push(st.deep_view()), ..n },
        ),
{
    let ghost sv = st.deep_view();
    let mut net = xml.networks.pop().unwrap();
    let ghost old_net = net;
    net.stations.push(st);
    assert(net.stations.deep_view() =~= old_net.stations.deep_view().push(sv));
    xml.networks.push(net);
    proof {
        lemma_replace_last_network(old(xml).networks@, xml.networks@, net);
    }
    assert(xml.deep_view() =~= old(xml).deep_view().with_last_network(
        |n: NetworkView| NetworkView { stations: n.stations.push(sv), ..n },
    ));
}

/// A change of the last station of a document.
pub enum StationOp {
    SetText(StationField, String),
    SetCreationDate(UtcDateTime),
    PushChannel(Channel),
    SetChannelText(ChannelField, String),
    SetCalibrationUnit(Unit),
    SetSensorDescription(String),
}

impl StationOp {
    /// The change needs a channel in the station.
    pub open spec fn needs_channel(self) -> bool {
        self is SetChannelText || self is SetCalibrationUnit || self is SetSensorDescription
    }

    pub open spec fn apply(self, st: StationView) -> StationView {
        match self {
            StationOp::SetText(f, v) => station_with_text(st, f, v@),
            StationOp::SetCreationDate(t) => station_with_creation_date(st, t),
            StationOp::PushChannel(c) => station_push_channel(st, c.deep_view()),
            StationOp::SetChannelText(f, v) => station_set_channel_text(st, f, v@),
            StationOp::SetCalibrationUnit(u) => station_set_calibration_unit(st, u.deep_view()),
            StationOp::SetSensorDescription(v) => station_set_sensor_description(st, v@),
        }
    }
}

pub open spec fn station_with_creation_date(st: StationView, t: UtcDateTime) -> StationView {
    StationView { creation_date: Some(t), ..st }
}

pub open spec fn station_push_channel(st: StationView, c: ChannelView) -> StationView {
    StationView { channels: st.channels.push(c), ..st }
}

pub open spec fn station_set_channel_text(st: StationView, f: ChannelField, v: Seq<char>) -> StationView {
    StationView {
        channels: st.channels.update(
            st.channels.len() - 1,
            channel_with_text(st.channels.last(), f, v),
        ),
        ..st
    }
}

pub open spec fn station_set_calibration_unit(st: StationView, u: UnitView) -> StationView {
    StationView {
        channels: st.channels.update(
            st.channels.len() - 1,
            ChannelView { calibration_unit: Some(u), ..st.channels.last() },
        ),
        ..st
    }
}

pub open spec fn station_set_sensor_description(st: StationView, v: Seq<char>) -> StationView {
    StationView {
        channels: st.channels.update(
            st.channels.len() - 1,
            ChannelView {
                sensor: Some(SensorView { description: Some(v) }),
                ..st.channels.last()
            },
        ),
        ..st
    }
}

fn apply_to_channel(c: &mut Channel, op: StationOp)
    requires
        op.needs_channel(),
    ensures
        final(c).deep_view() == (match op {
            StationOp::SetChannelText(f, v) => channel_with_text(old(c).deep_view(), f, v@),
            StationOp::SetCalibrationUnit(u) => ChannelView {
                calibration_unit: Some(u.deep_view()),
                ..old(c).deep_view()
            },
            StationOp::SetSensorDescription(v) => ChannelView {
                sensor: Some(SensorView { description: Some(v@) }),
                ..old(c).deep_view()
            },
            _ => old(c).deep_view(),
        }),
{
    match op {
        StationOp::SetChannelText(f, v) => match f {
            ChannelField::Latitude => c.latitude = Some(v),
            ChannelField::Longitude => c.longitude = Some(v),
            ChannelField::Elevation => c.elevation = Some(v),
            ChannelField::Depth => c.depth = Some(v),
            ChannelField::Azimuth => c.azimuth = Some(v),
            ChannelField::Dip => c.dip = Some(v),
            ChannelField::SampleRate => c.sample_rate = Some(v),
            ChannelField::ClockDrift => c.clock_drift = Some(v),
        },
        StationOp::SetCalibrationUnit(u) => c.calibration_unit = Some(u),
        StationOp::SetSensorDescription(v) => c.sensor = Some(Sensor { description: Some(v) }),
        _ => {},
    }
}

fn apply_to_station(st: &mut Station, op: StationOp)
    requires
        op.needs_channel() ==> old(st).channels@.len() > 0,
    ensures
        final(st).deep_view() == op.apply(old(st).deep_view()),
{
    let ghost op0 = op;
    match op {
        StationOp::SetText(f, v) => match f {
            StationField::Latitude => st.latitude = Some(v),
            StationField::Longitude => st.longitude = Some(v),
            StationField::Elevation => st.elevation = Some(v),
            StationField::SiteName => st.site_name = Some(v),
        },
        StationOp::SetCreationDate(t) => st.creation_date = Some(t),
        StationOp::PushChannel(c) => {
            let ghost cv = c.deep_view();
            st.channels.push(c);
            assert(st.channels.deep_view() =~= old(st).channels.deep_view().push(cv));
        },
        _ => {
            let mut c = st.channels.pop().unwrap();
            apply_to_channel(&mut c, op);
            st.channels.push(c);
            assert(st.channels.deep_view() =~= old(st).channels.deep_view().update(
                old(st).channels@.len() - 1,
                c.deep_view(),
            ));
        },
    }
    assert(st.deep_view() =~= op0.apply(old(st).deep_view()));
}

/// Applies `op` to the last station of the last network.
pub fn update_last_station(xml: &mut StationXML, op: StationOp)
    requires
        old(xml).deep_view().has_last_station(),
        op.needs_channel() ==> old(xml).deep_view().has_last_channel(),
    ensures
        final(xml).deep_view() == old(xml).deep_view().with_last_station(|s: StationView| op.apply(s)),
{
    let ghost op0 = op;
    let mut net = xml.networks.pop().unwrap();
    let ghost old_net = net;
    let mut sta = net.stations.pop().unwrap();
    assert(sta.deep_view() == old_net.stations.deep_view().last());
    apply_to_station(&mut sta, op);
    net.stations.push(sta);
    assert(net.stations.deep_view() =~= old_net.stations.deep_view().update(
        old_net.stations@.len() - 1,
        sta.deep_view(),
    ));
    xml.networks.push(net);
    proof {
        lemma_replace_last_network(old(xml).networks@, xml.networks@, net);
    }
    assert(xml.deep_view() =~= old(xml).deep_view().with_last_station(
        |s: StationView| op0.apply(s),
    ));
}

} // verus!
