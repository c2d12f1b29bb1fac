//! Fetching the stations of a network from the web service.
use crate::document::text_outcome;
use crate::error::StationError;
use crate::station_xml::{Outcome, StationXML};
use crate::stations::{networks_from_xml, networks_result, FetchInfo, Network};
use crate::time::{civil_time_exists, UtcDateTime};
use chrono::{Datelike, Timelike};
use vstd::prelude::*;

verus! {

/// A client of the web service. Users supply their own (a test double, say); nothing is
/// promised of what it returns.
pub trait WebClientTrait: Sized {
    fn new() -> Result<Self, StationError>;

    /// The body of the answer to a GET request for `url`.
    fn fetch(&mut self, url: String) -> Result<String, StationError>;
}

/// Fetches networks through a web client.
pub struct FetcherInternal<C: WebClientTrait> {
    client: C,
}

/// `std::time::SystemTime::now()` as the time since the Unix epoch: whole seconds and the
/// microseconds of the second (`Duration::as_secs`, `Duration::subsec_micros`, which is
/// below a million), or `None` when the clock reads before the epoch
/// (`SystemTime::duration_since` fails). Nothing more is stated: it is the time of the call.
#[verifier::external_body]
fn unix_clock() -> (r: Option<(u64, u32)>)
    ensures
        r matches Some((_, micros)) ==> micros < 1_000_000,
{
    match std::time::SystemTime::now().duration_since(std::time::UNIX_EPOCH) {
        Ok(d) => Some((d.as_secs(), d.subsec_micros())),
        Err(_) => None,
    }
}

/// What `chrono::DateTime::from_timestamp(secs, 0)` gives as calendar fields (year, month,
/// day, hour, minute, second in UTC) for the instant `secs` seconds after the Unix epoch,
/// or `None` beyond chrono's range.
pub uninterp spec fn utc_fields(secs: i64) -> Option<(i32, u32, u32, u32, u32, u32)>;

/// `chrono::DateTime::from_timestamp(secs, 0)` and the calendar fields of the instant. The
/// fields are named, not stated.
#[verifier::external_body]
fn chrono_utc_fields(secs: i64) -> (r: Option<(i32, u32, u32, u32, u32, u32)>)
    ensures
        r == utc_fields(secs),
{
    match chrono::DateTime::from_timestamp(secs, 0) {
        Some(t) => Some((t.year(), t.month(), t.day(), t.hour(), t.minute(), t.second())),
        None => None,
    }
}

/// The instant of the calendar fields and microseconds, if the calendar has it.
pub open spec fn clock_instant(
    year: i32,
    month: u32,
    day: u32,
    hour: u32,
    minute: u32,
    second: u32,
    micros: u32,
) -> Option<UtcDateTime> {
    if civil_time_exists(year, month, day, hour, minute, second) && micros < 1_000_000 {
        Some(UtcDateTime { year, month, day, hour, minute, second, microsecond: micros })
    } else {
        None
    }
}

/// The instant of the calendar fields and microseconds, if the calendar has it.
pub fn instant_of_reading(
    year: i32,
    month: u32,
    day: u32,
    hour: u32,
    minute: u32,
    second: u32,
    micros: u32,
) -> (res: Option<UtcDateTime>)
    ensures
        res == clock_instant(year, month, day, hour, minute, second, micros),
        res matches Some(t) ==> t.wf(),
{
    if micros >= 1_000_000 {
        return None;
    }
    match UtcDateTime::from_ymd_hms(year, month, day, hour, minute, second) {
        Some(t) => Some(t.with_microsecond(micros)),
        None => None,
    }
}

/// The instant `secs` seconds and `micros` microseconds after the Unix epoch.
pub open spec fn unix_instant(secs: u64, micros: u32) -> Option<UtcDateTime> {
    if secs <= i64::MAX {
        match utc_fields(secs as i64) {
            Some((y, mo, d, h, mi, s)) => clock_instant(y, mo, d, h, mi, s, micros),
            None => None,
        }
    } else {
        None
    }
}

/// The instant `secs` seconds and `micros` microseconds after the Unix epoch, with its
/// calendar fields from chrono, if the library can hold it.
pub fn instant_of_unix_time(secs: u64, micros: u32) -> (res: Option<UtcDateTime>)
    ensures
        res == unix_instant(secs, micros),
        res matches Some(t) ==> t.wf(),
{
    if secs > 9_223_372_036_854_775_807u64 {
        return None;
    }
    let s: i64 = secs as i64;
    match chrono_utc_fields(s) {
        Some((year, month, day, hour, minute, second)) => instant_of_reading(
            year,
            month,
            day,
            hour,
            minute,
            second,
            micros,
        ),
        None => None,
    }
}

/// What a fetch of a network makes of the document read from the answer: the networks,
/// stamped with `fetch_date`, as `networks_from_xml` gives them; the reader's error; or
/// `UnsupportedContent` where the document holds what the reader does not read.
pub fn networks_from_document(document: Outcome<StationXML>, fetch_date: UtcDateTime) -> (res:
    Result<Vec<Network>, StationError>)
    ensures
        match document {
            Outcome::Panics => res == Err::<Vec<Network>, StationError>(
                StationError::UnsupportedContent,
            ),
            Outcome::Fails(e) => res == Err::<Vec<Network>, StationError>(e),
            Outcome::Gives(xml) => crate::stations::networks_result(res, xml, fetch_date),
        },
{
    match document {
        Outcome::Panics => Err(StationError::UnsupportedContent),
        Outcome::Fails(e) => Err(e),
        Outcome::Gives(xml) => networks_from_xml(&xml, fetch_date),
    }
}

/// `res` is what a fetch stamped with `fetch_date` makes of the client's answer `answer`:
/// the client's error unchanged; or the networks of the StationXML text it answered, as
/// `networks_from_document` gives them for the text's outcome.
pub open spec fn answer_result(
    res: Result<Vec<Network>, StationError>,
    answer: Result<String, StationError>,
    fetch_date: UtcDateTime,
) -> bool {
    match answer {
        Err(e) => res == Err::<Vec<Network>, StationError>(e),
        Ok(text) => match text_outcome(text@) {
            Outcome::Panics => res == Err::<Vec<Network>, StationError>(
                StationError::UnsupportedContent,
            ),
            Outcome::Fails(e) => res == Err::<Vec<Network>, StationError>(e),
            Outcome::Gives(v) => exists|xml: StationXML|
                #![trigger networks_result(res, xml, fetch_date)]
                xml.deep_view() == v && networks_result(res, xml, fetch_date),
        },
    }
}

/// What a fetch stamped with `fetch_date` makes of the client's answer: its error is
/// passed on unchanged, and an answered text is read as a StationXML document whose
/// networks are made as `networks_from_document` says.
pub fn networks_from_answer(answer: Result<String, StationError>, fetch_date: UtcDateTime) -> (res:
    Result<Vec<Network>, StationError>)
    ensures
        answer_result(res, answer, fetch_date),
{
    match answer {
        Err(e) => Err(e),
        Ok(text) => {
            let document = StationXML::from_xml(text.as_str());
            let ghost doc = document;
            let res = networks_from_document(document, fetch_date);
            proof {
                if doc is Gives {
                    let xml = doc->Gives_0;
                    assert(networks_result(res, xml, fetch_date));
                }
            }
            res
        },
    }
}

/// Whatever the client answered, the networks of a fetch are all stamped with the fetch's
/// instant, and their number is that of the networks of the answered document.
pub proof fn lemma_answer_result_stamps(
    res: Result<Vec<Network>, StationError>,
    answer: Result<String, StationError>,
    fetch_date: UtcDateTime,
)
    requires
        answer_result(res, answer, fetch_date),
    ensures
        res matches Ok(v) ==> (answer is Ok && (text_outcome(answer->Ok_0@) matches Outcome::Gives(
            x,
        ) && v@.len() == x.networks.len() && forall|i: int|
            0 <= i < v@.len() ==> (#[trigger] v@[i]).fetch_date == fetch_date)),
{
    if let Ok(v) = res {
        let text = answer->Ok_0;
        let x = text_outcome(text@)->Gives_0;
        let xml = choose|xml: StationXML| xml.deep_view() == x && networks_result(res, xml, fetch_date);
        assert(xml.networks.deep_view().len() == xml.networks@.len());
        assert forall|i: int| 0 <= i < v@.len() implies (#[trigger] v@[i]).fetch_date == fetch_date by {
            assert(crate::stations::network_made_from(v@[i], xml.networks@[i], fetch_date));
        }
    }
}

impl<C: WebClientTrait> FetcherInternal<C> {
    /// The client the fetcher asks.
    pub closed spec fn web_client(&self) -> C {
        self.client
    }

    /// A fetcher with a new client, or the client's error: whatever `C::new` returned.
    pub fn new() -> (res: Result<Self, StationError>)
        ensures
            res matches Ok(f) ==> call_ensures(C::new, (), Ok::<C, StationError>(f.web_client())),
            res matches Err(e) ==> call_ensures(C::new, (), Err::<C, StationError>(e)),
    {
        match C::new() {
            Ok(client) => Ok(FetcherInternal { client }),
            Err(e) => Err(e),
        }
    }

    /// A fetcher that asks `client`.
    pub fn with_web_client(client: C) -> (res: Result<Self, StationError>)
        ensures
            res matches Ok(f) && f.web_client() == client,
    {
        Ok(FetcherInternal { client })
    }

    /// The networks that the web service lists for `fetch_info.network`, stamped with the
    /// time of the request (a clock that reads before the Unix epoch, or beyond the
    /// calendar, is a `TimeParseError`). The client is asked for `fetch_info.url()`, and
    /// its answer becomes the result as `networks_from_answer` says: the client's error
    /// unchanged, or the networks of the document it answered.
    pub fn fetch_network(&mut self, fetch_info: &FetchInfo) -> (res: Result<
        Vec<Network>,
        StationError,
    >)
        ensures
            res matches Ok(v) ==> forall|i: int, j: int|
                0 <= i < v@.len() && 0 <= j < v@.len() ==> (#[trigger] v@[i]).fetch_date == (
                #[trigger] v@[j]).fetch_date && v@[i].fetch_date.wf(),
            res is Ok ==> exists|text: Seq<char>, xml: StationXML, date: UtcDateTime|
                #![trigger text_outcome(text), networks_result(res, xml, date)]
                text_outcome(text) == Outcome::Gives(xml.deep_view()) && date.wf()
                    && networks_result(res, xml, date),
            res == Err::<Vec<Network>, StationError>(StationError::TimeParseError) || exists|
                answer: Result<String, StationError>,
                date: UtcDateTime,
            | #![trigger answer_result(res, answer, date)]
                date.wf() && answer_result(res, answer, date),
    {
        let (secs, micros) = match unix_clock() {
            Some(r) => r,
            None => return Err(StationError::TimeParseError),
        };
        let res = self.fetch_network_at(fetch_info, secs, micros);
        proof {
            if res is Ok {
                let t = unix_instant(secs, micros)->Some_0;
                assert(t.wf());
                let answer = choose|answer: Result<String, StationError>|
                    answer_result(res, answer, t);
                assert(answer_result(res, answer, t));
                lemma_answer_result_stamps(res, answer, t);
                let text = answer->Ok_0;
                let v = text_outcome(text@)->Gives_0;
                let xml = choose|xml: StationXML|
                    xml.deep_view() == v && networks_result(res, xml, t);
                assert(networks_result(res, xml, t));
                assert(text_outcome(text@) == Outcome::Gives(xml.deep_view()));
            }
        }
        res
    }

    /// A fetch of the networks of `fetch_info.network` stamped with the clock reading
    /// `secs` seconds and `micros` microseconds after the Unix epoch: a reading the calendar
    /// does not hold is a `TimeParseError`; otherwise the client is asked for
    /// `fetch_info.url()` and its answer becomes the result as `networks_from_answer` says,
    /// every network stamped with the reading's instant.
    pub fn fetch_network_at(&mut self, fetch_info: &FetchInfo, secs: u64, micros: u32) -> (res:
        Result<Vec<Network>, StationError>)
        ensures
            unix_instant(secs, micros) is None ==> res == Err::<Vec<Network>, StationError>(
                StationError::TimeParseError,
            ),
            unix_instant(secs, micros) matches Some(t) ==> t.wf() && exists|
                answer: Result<String, StationError>,
            | #![trigger answer_result(res, answer, t)] answer_result(res, answer, t),
            res matches Ok(v) ==> unix_instant(secs, micros) matches Some(t) && forall|i: int|
                0 <= i < v@.len() ==> (#[trigger] v@[i]).fetch_date == t,
    {
        let fetch_date = match instant_of_unix_time(secs, micros) {
            Some(t) => t,
            None => return Err(StationError::TimeParseError),
        };
        let url = fetch_info.url();
        let answer = self.client.fetch(url);
        let ghost given = answer;
        let res = networks_from_answer(answer, fetch_date);
        proof {
            assert(answer_result(res, given, fetch_date));
            lemma_answer_result_stamps(res, given, fetch_date);
        }
        res
    }
}

} // verus!
