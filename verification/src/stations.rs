//! Station metadata as the fetcher hands it out, and the web query that gets it.
use crate::error::StationError;
use crate::station_xml;
use crate::time::UtcDateTime;
use vstd::prelude::*;
use vstd::string::StringExecFns;

verus! {

#[verifier::external_type_specification]
#[verifier::external_body]
pub struct ExTimeDelta(chrono::TimeDelta);

/// `chrono::TimeDelta::zero()`, the empty duration. Nothing is stated of the value:
/// the library only carries durations through.
#[verifier::external_body]
fn zero_time_delta() -> chrono::TimeDelta {
    chrono::TimeDelta::zero()
}

/// The web service that lists the stations of a network.
pub const BASE_URL: &'static str = "https://service.iris.edu/fdsnws/station/1/query";

/// What to fetch: the network's code, and how old a fetched copy may be.
pub struct FetchInfo {
    pub oldest_fetch: chrono::TimeDelta,
    pub network: String,
}

impl Default for FetchInfo {
    /// No network, and a zero age.
    fn default() -> (info: FetchInfo)
        ensures
            info.network@ == Seq::<char>::empty(),
    {
        FetchInfo { oldest_fetch: zero_time_delta(), network: String::new() }
    }
}

impl FetchInfo {
    pub fn oldest_fetch(self, time_delta: chrono::TimeDelta) -> (res: FetchInfo)
        ensures
            res.oldest_fetch == time_delta,
            res.network == self.network,
    {
        let mut s = self;
        s.oldest_fetch = time_delta;
        s
    }

    pub fn network(self, network_code: String) -> (res: FetchInfo)
        ensures
            res.network == network_code,
            res.oldest_fetch == self.oldest_fetch,
    {
        let mut s = self;
        s.network = network_code;
        s
    }

    /// The query that lists the stations of the network: `BASE_URL?network=CODE`.
    pub fn url(&self) -> (url: String)
        ensures
            url@ == BASE_URL@ + "?network="@ + self.network@,
    {
        let mut url = String::from_str(BASE_URL);
        url.append("?network=");
        url.append(self.network.as_str());
        url
    }
}

/// A channel of a station. The sample rate is the decimal text read for it, in hertz.
#[derive(Clone, Debug, PartialEq)]
pub struct Channel {
    pub code: String,
    pub sample_rate: String,
    pub sensor_name: String,
}

/// A station with all the metadata a fetch needs. Latitude and longitude (degrees) and
/// elevation (metres) are the decimal text read for them.
#[derive(Clone, Debug, PartialEq)]
pub struct Station {
    pub latitude: String,
    pub longitude: String,
    pub elevation: String,
    pub name: String,
    pub code: String,
    /// when the station was created
    pub start_time: UtcDateTime,
    pub channels: Vec<Channel>,
}

/// A network and when it was fetched.
#[derive(Clone, Debug, PartialEq)]
pub struct Network {
    pub code: String,
    pub fetch_date: UtcDateTime,
    pub stations: Vec<Station>,
}

/// The document's channel `c` has what a `Channel` needs: code, sample rate and the
/// description of its sensor.
pub open spec fn channel_complete(c: station_xml::Channel) -> bool {
    &&& c.code is Some
    &&& c.sample_rate is Some
    &&& c.sensor matches Some(s) && s.description is Some
}

/// The fields of a channel made from the complete document channel `c`.
pub open spec fn channel_made_from(res: Channel, c: station_xml::Channel) -> bool {
    &&& res.code == c.code.unwrap()
    &&& res.sample_rate == c.sample_rate.unwrap()
    &&& res.sensor_name == c.sensor.unwrap().description.unwrap()
}

/// The complete channels among `chs`, in order; the others are passed over.
pub open spec fn complete_channels(chs: Seq<station_xml::Channel>) -> Seq<station_xml::Channel>
    decreases chs.len(),
{
    if chs.len() == 0 {
        Seq::empty()
    } else if channel_complete(chs.last()) {
        complete_channels(chs.drop_last()).push(chs.last())
    } else {
        complete_channels(chs.drop_last())
    }
}

/// The station that the document's station `st` makes, or the first field it lacks:
/// code, latitude, longitude, elevation, site name, start date, in this order.
pub open spec fn station_check(st: station_xml::Station) -> Result<(), StationError> {
    match st.code {
        None => Err(StationError::MissingStationCode),
        Some(code) => if st.latitude is None {
            Err(StationError::MissingLatitude { station_code: code })
        } else if st.longitude is None {
            Err(StationError::MissingLongitude { station_code: code })
        } else if st.elevation is None {
            Err(StationError::MissingElevation { station_code: code })
        } else if st.site_name is None {
            Err(StationError::MissingStationName)
        } else if st.start_date is None {
            Err(StationError::MissingStartTime { station_code: code })
        } else {
            Ok(())
        },
    }
}

/// The fields of a station made from the complete document station `st`, with its
/// complete channels in order.
pub open spec fn station_made_from(res: Station, st: station_xml::Station) -> bool {
    &&& res.code == st.code.unwrap()
    &&& res.latitude == st.latitude.unwrap()
    &&& res.longitude == st.longitude.unwrap()
    &&& res.elevation == st.elevation.unwrap()
    &&& res.name == st.site_name.unwrap()
    &&& res.start_time == st.start_date.unwrap()
    &&& channels_made_from(res.channels@, complete_channels(st.channels@))
}

/// `res` are the channels made from the complete document channels `chs`, in order.
pub open spec fn channels_made_from(res: Seq<Channel>, chs: Seq<station_xml::Channel>) -> bool {
    &&& res.len() == chs.len()
    &&& forall|i: int| 0 <= i < res.len() ==> channel_made_from(#[trigger] res[i], chs[i])
}

/// The channels of a document's station that are complete; the others are passed over.
fn channels_from(chs: &Vec<station_xml::Channel>) -> (res: Vec<Channel>)
    ensures
        channels_made_from(res@, complete_channels(chs@)),
{
    let mut out: Vec<Channel> = Vec::new();
    let mut i: usize = 0;
    assert(chs@.take(0) =~= Seq::<station_xml::Channel>::empty());
    while i < chs.len()
        invariant
            i <= chs@.len(),
            channels_made_from(out@, complete_channels(chs@.take(i as int))),
        decreases chs@.len() - i,
    {
        assert(chs@.take(i + 1).drop_last() =~= chs@.take(i as int));
        assert(chs@.take(i + 1).last() == chs@[i as int]);
        let c = &chs[i];
        let made = match (&c.code, &c.sample_rate, &c.sensor) {
            (Some(code), Some(rate), Some(sensor)) => match &sensor.description {
                Some(name) => Some(
                    Channel { code: code.clone(), sample_rate: rate.clone(), sensor_name: name.clone() },
                ),
                None => None,
            },
            _ => None,
        };
        match made {
            Some(ch) => {
                out.push(ch);
            },
            None => {},
        }
        i = i + 1;
    }
    assert(chs@.take(i as int) =~= chs@);
    out
}

fn clone_text(o: &Option<String>) -> (r: Option<String>)
    ensures
        r == *o,
{
    match o {
        Some(s) => Some(s.clone()),
        None => None,
    }
}

impl Station {
    /// The station that a station of a StationXML document describes.
    pub fn try_from(station: &station_xml::Station) -> (res: Result<Station, StationError>)
        ensures
            match station_check(*station) {
                Ok(()) => res matches Ok(s) && station_made_from(s, *station),
                Err(e) => res == Err::<Station, StationError>(e),
            },
    {
        let code = match clone_text(&station.code) {
            Some(c) => c,
            None => return Err(StationError::MissingStationCode),
        };
        let latitude = match clone_text(&station.latitude) {
            Some(v) => v,
            None => return Err(StationError::MissingLatitude { station_code: code.clone() }),
        };
        let longitude = match clone_text(&station.longitude) {
            Some(v) => v,
            None => return Err(StationError::MissingLongitude { station_code: code.clone() }),
        };
        let elevation = match clone_text(&station.elevation) {
            Some(v) => v,
            None => return Err(StationError::MissingElevation { station_code: code.clone() }),
        };
        let name = match clone_text(&station.site_name) {
            Some(v) => v,
            None => return Err(StationError::MissingStationName),
        };
        let start_time = match station.start_date {
            Some(t) => t,
            None => return Err(StationError::MissingStartTime { station_code: code }),
        };
        let channels = channels_from(&station.channels);
        Ok(Station { latitude, longitude, elevation, name, code, start_time, channels })
    }
}

/// The first station among `sts` that cannot be made, if any.
pub open spec fn stations_check(sts: Seq<station_xml::Station>) -> Result<(), StationError>
    decreases sts.len(),
{
    if sts.len() == 0 {
        Ok(())
    } else {
        match stations_check(sts.drop_last()) {
            Err(e) => Err(e),
            Ok(()) => station_check(sts.last()),
        }
    }
}

/// The first error among the networks `ns`: a network without code, or a station
/// of it that cannot be made, in document order.
pub open spec fn networks_check(ns: Seq<station_xml::Network>) -> Result<(), StationError>
    decreases ns.len(),
{
    if ns.len() == 0 {
        Ok(())
    } else {
        match networks_check(ns.drop_last()) {
            Err(e) => Err(e),
            Ok(()) => if ns.last().code is None {
                Err(StationError::NetworkMissingCode)
            } else {
                stations_check(ns.last().stations@)
            },
        }
    }
}

proof fn lemma_stations_check_err_fixed(sts: Seq<station_xml::Station>, i: int)
    requires
        0 <= i <= sts.len(),
        stations_check(sts.take(i)) is Err,
    ensures
        stations_check(sts) == stations_check(sts.take(i)),
    decreases sts.len() - i,
{
    if i < sts.len() {
        assert(sts.take(i + 1).drop_last() =~= sts.take(i));
        lemma_stations_check_err_fixed(sts, i + 1);
    } else {
        assert(sts.take(i) =~= sts);
    }
}

proof fn lemma_networks_check_err_fixed(ns: Seq<station_xml::Network>, i: int)
    requires
        0 <= i <= ns.len(),
        networks_check(ns.take(i)) is Err,
    ensures
        networks_check(ns) == networks_check(ns.take(i)),
    decreases ns.len() - i,
{
    if i < ns.len() {
        assert(ns.take(i + 1).drop_last() =~= ns.take(i));
        lemma_networks_check_err_fixed(ns, i + 1);
    } else {
        assert(ns.take(i) =~= ns);
    }
}

/// The network `n`, stamped with `fetch_date`, is the document's network `src`: the
/// same code and, in order, the stations made from its stations.
pub open spec fn network_made_from(
    n: Network,
    src: station_xml::Network,
    fetch_date: UtcDateTime,
) -> bool {
    &&& Some(n.code) == src.code
    &&& n.fetch_date == fetch_date
    &&& n.stations@.len() == src.stations@.len()
    &&& forall|j: int|
        0 <= j < n.stations@.len() ==> station_made_from(
            #[trigger] n.stations@[j],
            src.stations@[j],
        )
}

/// `res` is what the document `xml` gives as networks fetched at `fetch_date`: each of
/// its networks in order, or the first error that `networks_check` finds.
pub open spec fn networks_result(
    res: Result<Vec<Network>, StationError>,
    xml: station_xml::StationXML,
    fetch_date: UtcDateTime,
) -> bool {
    match networks_check(xml.networks@) {
        Ok(()) => res matches Ok(v) && v@.len() == xml.networks@.len() && forall|i: int|
            0 <= i < v@.len() ==> network_made_from(#[trigger] v@[i], xml.networks@[i], fetch_date),
        Err(e) => res == Err::<Vec<Network>, StationError>(e),
    }
}

/// The stations of a document's network, made one by one; the first that cannot be
/// made stops the conversion.
fn stations_from(sts: &Vec<station_xml::Station>) -> (res: Result<Vec<Station>, StationError>)
    ensures
        match stations_check(sts@) {
            Ok(()) => res matches Ok(v) && v@.len() == sts@.len() && forall|i: int|
                0 <= i < sts@.len() ==> station_made_from(#[trigger] v@[i], sts@[i]),
            Err(e) => res == Err::<Vec<Station>, StationError>(e),
        },
{
    let mut out: Vec<Station> = Vec::new();
    let mut i: usize = 0;
    assert(sts@.take(0) =~= Seq::<station_xml::Station>::empty());
    while i < sts.len()
        invariant
            i <= sts@.len(),
            stations_check(sts@.take(i as int)) is Ok,
            out@.len() == i,
            forall|j: int| 0 <= j < i ==> station_made_from(#[trigger] out@[j], sts@[j]),
        decreases sts@.len() - i,
    {
        assert(sts@.take(i + 1).drop_last() =~= sts@.take(i as int));
        assert(sts@.take(i + 1).last() == sts@[i as int]);
        match Station::try_from(&sts[i]) {
            Ok(s) => out.push(s),
            Err(e) => {
                proof {
                    lemma_stations_check_err_fixed(sts@, i + 1);
                }
                return Err(e);
            },
        }
        i = i + 1;
    }
    assert(sts@.take(i as int) =~= sts@);
    Ok(out)
}

/// The networks of a StationXML document, fetched at `fetch_date`: each needs a code,
/// and each of its stations the fields of `Station`; the first that lacks one, in
/// document order, stops the conversion.
pub fn networks_from_xml(xml: &station_xml::StationXML, fetch_date: UtcDateTime) -> (res: Result<
    Vec<Network>,
    StationError,
>)
    ensures
        networks_result(res, *xml, fetch_date),
{
    let ns = &xml.networks;
    let mut out: Vec<Network> = Vec::new();
    let mut i: usize = 0;
    assert(ns@.take(0) =~= Seq::<station_xml::Network>::empty());
    while i < ns.len()
        invariant
            ns == &xml.networks,
            i <= ns@.len(),
            networks_check(ns@.take(i as int)) is Ok,
            out@.len() == i,
            forall|k: int| 0 <= k < i ==> network_made_from(#[trigger] out@[k], ns@[k], fetch_date),
        decreases ns@.len() - i,
    {
        assert(ns@.take(i + 1).drop_last() =~= ns@.take(i as int));
        assert(ns@.take(i + 1).last() == ns@[i as int]);
        let code = match clone_text(&ns[i].code) {
            Some(c) => c,
            None => {
                proof {
                    lemma_networks_check_err_fixed(ns@, i + 1);
                }
                return Err(StationError::NetworkMissingCode);
            },
        };
        let stations = match stations_from(&ns[i].stations) {
            Ok(s) => s,
            Err(e) => {
                proof {
                    lemma_networks_check_err_fixed(ns@, i + 1);
                }
                return Err(e);
            },
        };
        out.push(Network { code, fetch_date, stations });
        i = i + 1;
    }
    assert(ns@.take(i as int) =~= ns@);
    Ok(out)
}

} // verus!
