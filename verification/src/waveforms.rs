//! The query of the FDSN data-select service for a waveform.
use crate::time::UtcDateTime;
use chrono::TimeZone;
use vstd::prelude::*;
use vstd::string::StringExecFns;

verus! {

/// `n` in decimal with exactly `width` digits, padded with zeros.
pub open spec fn padded_digits(n: nat, width: nat) -> Seq<char>
    decreases width,
{
    if width == 0 {
        Seq::empty()
    } else {
        padded_digits(n / 10, (width - 1) as nat).push(((48 + n % 10) as u8) as char)
    }
}

/// `n` in decimal, without leading zeros.
pub open spec fn decimal_digits(n: nat) -> Seq<char>
    decreases n,
{
    if n < 10 {
        seq![((48 + n) as u8) as char]
    } else {
        decimal_digits(n / 10).push(((48 + n % 10) as u8) as char)
    }
}

/// The year as RFC 3339 writes it: four digits from 0 to 9999, and otherwise a sign and
/// at least four digits.
pub open spec fn year_text(y: int) -> Seq<char> {
    if 0 <= y <= 9999 {
        padded_digits(y as nat, 4)
    } else {
        let m: nat = if y < 0 {
            (-y) as nat
        } else {
            y as nat
        };
        (if y < 0 {
            "-"@
        } else {
            "+"@
        }) + (if m < 1000 {
            padded_digits(m, 4)
        } else {
            decimal_digits(m)
        })
    }
}

/// `YYYY-MM-DDTHH:MM:SS.mmmZ`, the RFC 3339 form with milliseconds and `Z` of an
/// instant.
pub open spec fn rfc3339_millis_text(t: UtcDateTime) -> Seq<char> {
    year_text(t.year as int) + "-"@ + padded_digits(t.month as nat, 2) + "-"@
        + padded_digits(t.day as nat, 2) + "T"@ + padded_digits(t.hour as nat, 2) + ":"@
        + padded_digits(t.minute as nat, 2) + ":"@ + padded_digits(t.second as nat, 2) + "."@
        + padded_digits((t.microsecond / 1000) as nat, 3) + "Z"@
}

/// `chrono::DateTime::<Utc>::to_rfc3339_opts(SecondsFormat::Millis, true)` on the
/// instant `t`. The contract claims the text: years from 0 to 9999 with four digits,
/// other years with a sign and at least four digits (`{year:+05}`), then month, day,
/// hour, minute and second with two digits, milliseconds with three, and `Z`.
#[verifier::external_body]
fn chrono_rfc3339_millis(t: UtcDateTime) -> (s: String)
    requires
        t.wf(),
    ensures
        s@ == rfc3339_millis_text(t),
{
    let dt = chrono::Utc.with_ymd_and_hms(t.year, t.month, t.day, t.hour, t.minute, t.second).unwrap()
        + chrono::TimeDelta::microseconds(t.microsecond as i64);
    dt.to_rfc3339_opts(chrono::SecondsFormat::Millis, true)
}

/// Which waveform to fetch: network, station, channel pattern and time window.
pub struct WaveformFetchInfo {
    pub network: String,
    pub station: String,
    pub channel_select: String,
    pub start_time: UtcDateTime,
    pub end_time: UtcDateTime,
}

/// The data-select service.
pub const DATASELECT_URL: &'static str = "https://service.earthscope.org/fdsnws/dataselect/1/query";

/// The query for the waveform of `info` between the instants written `start` and `end`.
pub open spec fn waveform_query_text(info: WaveformFetchInfo, start: Seq<char>, end: Seq<char>) -> Seq<
    char,
> {
    DATASELECT_URL@ + "?net="@ + info.network@ + "&sta="@ + info.station@ + "&cha="@
        + info.channel_select@ + "&start="@ + start + "&end="@ + end + "&format=miniseed"@
}

impl WaveformFetchInfo {
    /// The query for this waveform, with the instants already written as `start` and `end`.
    pub fn url_with_times(&self, start: &str, end: &str) -> (url: String)
        ensures
            url@ == waveform_query_text(*self, start@, end@),
    {
        let mut url = String::from_str(DATASELECT_URL);
        url.append("?net=");
        url.append(self.network.as_str());
        url.append("&sta=");
        url.append(self.station.as_str());
        url.append("&cha=");
        url.append(self.channel_select.as_str());
        url.append("&start=");
        url.append(start);
        url.append("&end=");
        url.append(end);
        url.append("&format=miniseed");
        url
    }

    /// The query for this waveform, the instants written in RFC 3339 with milliseconds,
    /// the URL under which a fetched waveform is also cached.
    pub fn url(&self) -> (url: String)
        requires
            self.start_time.wf(),
            self.end_time.wf(),
        ensures
            url@ == waveform_query_text(
                *self,
                rfc3339_millis_text(self.start_time),
                rfc3339_millis_text(self.end_time),
            ),
    {
        let start = chrono_rfc3339_millis(self.start_time);
        let end = chrono_rfc3339_millis(self.end_time);
        self.url_with_times(start.as_str(), end.as_str())
    }
}

} // verus!
