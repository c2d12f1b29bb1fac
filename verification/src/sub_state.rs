//! The nested states of the StationXML reader. Each state reads start tags, text and
//! end tags of the element it stands in, and fills in the document.
use crate::error::StationError;
use crate::header::{parse_header, parse_header_spec};
use crate::station_xml::{
    parse_to_date_time, read_date_outcome, update_last_station, date_text_outcome, push_network, push_station,
    station_push_channel, station_set_calibration_unit, station_set_sensor_description, Channel, Network, Outcome, Station,
    StationOp, StationView, StationXML, StationXMLView, ChannelView, NetworkView, Unit, UnitView,
    decimal_text, station_set_channel_text, station_with_text, station_with_creation_date,
    ChannelField, StationField,
};
use crate::numbers::check_float_syntax;
use crate::text::str_equals;
use crate::time::UtcDateTime;
use vstd::prelude::*;

verus! {

/// What an end tag does to a state: leave the element, or go on in the given state.
#[derive(Clone, Copy, Debug, PartialEq, Eq)]
pub enum EndEvent<T> {
    Backtrack,
    Continue(T),
}

/// `res` is what the outcome `o` describes.
pub open spec fn result_matches<T: DeepView>(res: Result<T, StationError>, o: Outcome<T::V>) -> bool {
    match o {
        Outcome::Gives(v) => res matches Ok(x) && x.deep_view() == v,
        Outcome::Fails(e) => res == Err::<T, StationError>(e),
        Outcome::Panics => false,
    }
}

/// `res` is the pair of state and document that `spec` describes.
pub open spec fn start_matches<S>(
    res: Result<(S, StationXML), StationError>,
    spec: Result<(S, StationXMLView), StationError>,
) -> bool {
    match spec {
        Ok((s, x)) => res matches Ok((s2, x2)) && s2 == s && x2.deep_view() == x,
        Err(e) => res == Err::<(S, StationXML), StationError>(e),
    }
}

/// `res` is the document that `spec` describes.
pub open spec fn text_matches(
    res: Result<StationXML, StationError>,
    spec: Result<StationXMLView, StationError>,
) -> bool {
    match spec {
        Ok(x) => res matches Ok(x2) && x2.deep_view() == x,
        Err(e) => res == Err::<StationXML, StationError>(e),
    }
}

/// A state of the reader inside some element of the document.
pub trait SubState: Sized + Copy {
    /// The element the state stands in is in the document: it is the last of its kind.
    spec fn placed(self, xml: StationXMLView) -> bool;

    /// The start tag `tag` (in lower case), whose full text is `full`, is one that the
    /// state reads without panicking.
    spec fn admits_start(self, tag: Seq<char>, full: Seq<char>) -> bool;

    /// Reading the start tag needs nothing more of the document than it has.
    spec fn start_ok(self, tag: Seq<char>, full: Seq<char>, xml: StationXMLView) -> bool;

    spec fn start_spec(self, tag: Seq<char>, full: Seq<char>, xml: StationXMLView) -> Result<
        (Self, StationXMLView),
        StationError,
    >;

    /// The text is one that the state reads without panicking.
    spec fn admits_text(self, text: Seq<char>) -> bool;

    spec fn text_ok(self, text: Seq<char>, xml: StationXMLView) -> bool;

    spec fn text_spec(self, text: Seq<char>, xml: StationXMLView) -> Result<
        StationXMLView,
        StationError,
    >;

    spec fn end_spec(self) -> Result<EndEvent<Self>, StationError>;

    /// A placed state reads every start tag it admits.
    proof fn lemma_start_ok(self, tag: Seq<char>, full: Seq<char>, xml: StationXMLView)
        requires
            self.placed(xml),
            self.admits_start(tag, full),
        ensures
            self.start_ok(tag, full, xml),
    ;

    /// Reading a start tag leaves the new state placed in the new document.
    proof fn lemma_start_placed(self, tag: Seq<char>, full: Seq<char>, xml: StationXMLView)
        requires
            self.placed(xml),
            self.start_ok(tag, full, xml),
        ensures
            self.start_spec(tag, full, xml) matches Ok((s, x)) ==> s.placed(x),
    ;

    /// A placed state reads every text it admits.
    proof fn lemma_text_ok(self, text: Seq<char>, xml: StationXMLView)
        requires
            self.placed(xml),
            self.admits_text(text),
        ensures
            self.text_ok(text, xml),
    ;

    /// Reading text keeps the state placed in the new document.
    proof fn lemma_text_placed(self, text: Seq<char>, xml: StationXMLView)
        requires
            self.placed(xml),
            self.text_ok(text, xml),
        ensures
            self.text_spec(text, xml) matches Ok(x) ==> self.placed(x),
    ;

    /// Going on after an end tag keeps the state placed.
    proof fn lemma_end_placed(self, xml: StationXMLView)
        requires
            self.placed(xml),
        ensures
            self.end_spec() matches Ok(EndEvent::Continue(s)) ==> s.placed(xml),
    ;

    /// Whether `xml_start_event` may be called.
    fn start_admissible(&self, tag_lowercase: &str, full_start_text: &str, xml: &StationXML) -> (r:
        bool)
        ensures
            r == self.start_ok(tag_lowercase@, full_start_text@, xml.deep_view()),
    ;

    /// Whether `xml_text_event` may be called.
    fn text_admissible(&self, text: &str, xml: &StationXML) -> (r: bool)
        ensures
            r == self.text_ok(text@, xml.deep_view()),
    ;

    fn xml_start_event(self, tag_lowercase: &str, full_start_text: &str, xml: StationXML) -> (res:
        Result<(Self, StationXML), StationError>)
        requires
            self.start_ok(tag_lowercase@, full_start_text@, xml.deep_view()),
        ensures
            start_matches(res, self.start_spec(tag_lowercase@, full_start_text@, xml.deep_view())),
    ;

    fn xml_text_event(&self, text: &str, xml: StationXML) -> (res: Result<StationXML, StationError>)
        requires
            self.text_ok(text@, xml.deep_view()),
        ensures
            text_matches(res, self.text_spec(text@, xml.deep_view())),
    ;

    fn xml_end_event(self) -> (res: Result<EndEvent<Self>, StationError>)
        ensures
            res == self.end_spec(),
    ;
}

/// The value of `k` in `m`, if any.
pub open spec fn lookup(m: Map<Seq<char>, Seq<char>>, k: Seq<char>) -> Option<Seq<char>> {
    if m.dom().contains(k) {
        Some(m[k])
    } else {
        None
    }
}

/// The `startDate` attribute, read as a time stamp.
pub open spec fn start_date_of(m: Map<Seq<char>, Seq<char>>) -> Outcome<Option<UtcDateTime>> {
    if m.dom().contains("startDate"@) {
        match date_text_outcome(m["startDate"@]) {
            Outcome::Panics => Outcome::Panics,
            Outcome::Fails(e) => Outcome::Fails(e),
            Outcome::Gives(t) => Outcome::Gives(Some(t)),
        }
    } else {
        Outcome::Gives(None)
    }
}

/// The station that the start tag `text` of a `Station` element opens.
pub open spec fn station_start_outcome(text: Seq<char>) -> Outcome<StationView> {
    match parse_header_spec(text) {
        Err(e) => Outcome::Fails(e),
        Ok(m) => match start_date_of(m) {
            Outcome::Panics => Outcome::Panics,
            Outcome::Fails(e) => Outcome::Fails(e),
            Outcome::Gives(d) => Outcome::Gives(
                StationView {
                    code: lookup(m, "code"@),
                    start_date: d,
                    end_date: None,
                    elevation: None,
                    latitude: None,
                    longitude: None,
                    site_name: None,
                    creation_date: None,
                    channels: Seq::empty(),
                },
            ),
        },
    }
}

/// An empty location code stands for none.
pub open spec fn location_code_of(m: Map<Seq<char>, Seq<char>>) -> Option<Seq<char>> {
    match lookup(m, "locationCode"@) {
        Some(c) => if c.len() == 0 {
            None
        } else {
            Some(c)
        },
        None => None,
    }
}

/// The channel that the start tag `text` of a `Channel` element opens.
pub open spec fn channel_start_outcome(text: Seq<char>) -> Outcome<ChannelView> {
    match parse_header_spec(text) {
        Err(e) => Outcome::Fails(e),
        Ok(m) => match start_date_of(m) {
            Outcome::Panics => Outcome::Panics,
            Outcome::Fails(e) => Outcome::Fails(e),
            Outcome::Gives(d) => Outcome::Gives(
                ChannelView {
                    code: lookup(m, "code"@),
                    location_code: location_code_of(m),
                    start_date: d,
                    latitude: None,
                    longitude: None,
                    elevation: None,
                    depth: None,
                    azimuth: None,
                    dip: None,
                    sample_rate: None,
                    clock_drift: None,
                    calibration_unit: None,
                    sensor: None,
                    response: None,
                },
            ),
        },
    }
}

/// The network that the start tag `text` of a `Network` element opens.
pub open spec fn network_start_outcome(text: Seq<char>) -> Outcome<NetworkView> {
    match parse_header_spec(text) {
        Err(e) => Outcome::Fails(e),
        Ok(m) => match start_date_of(m) {
            Outcome::Panics => Outcome::Panics,
            Outcome::Fails(e) => Outcome::Fails(e),
            Outcome::Gives(d) => Outcome::Gives(
                NetworkView {
                    code: lookup(m, "code"@),
                    start_date: d,
                    restricted_status: lookup(m, "restrictedStatus"@),
                    stations: Seq::empty(),
                },
            ),
        },
    }
}

/// Whether reading a start tag's `startDate` attribute panics, which is the same for
/// network, station and channel tags.
pub fn start_tag_date_panics(full: &str) -> (r: bool)
    ensures
        r == (channel_start_outcome(full@) is Panics),
        r == (station_start_outcome(full@) is Panics),
        r == (network_start_outcome(full@) is Panics),
{
    match parse_header(full) {
        Err(_) => false,
        Ok(m) => match m.get("startDate") {
            None => false,
            Some(t) => match read_date_outcome(t.as_str()) {
                Outcome::Panics => true,
                _ => false,
            },
        },
    }
}

/// Whether reading the time stamp `text` panics.
pub fn date_reading_panics(text: &str) -> (r: bool)
    ensures
        r == (date_text_outcome(text@) is Panics),
{
    match read_date_outcome(text) {
        Outcome::Panics => true,
        _ => false,
    }
}

fn clone_opt_string(o: Option<&String>) -> (r: Option<String>)
    ensures
        r.deep_view() == (match o {
            Some(s) => Some(s@),
            None => None::<Seq<char>>,
        }),
{
    match o {
        Some(s) => Some(s.clone()),
        None => None,
    }
}

fn read_start_date(header: &crate::header::HeaderMap) -> (res: Result<Option<UtcDateTime>, StationError>)
    requires
        header.wf(),
        !(start_date_of(header@) is Panics),
    ensures
        match start_date_of(header@) {
            Outcome::Gives(d) => res == Ok::<Option<UtcDateTime>, StationError>(d),
            Outcome::Fails(e) => res == Err::<Option<UtcDateTime>, StationError>(e),
            Outcome::Panics => false,
        },
{
    match header.get("startDate") {
        Some(text) => match parse_to_date_time(text.as_str()) {
            Ok(t) => Ok(Some(t)),
            Err(e) => Err(e),
        },
        None => Ok(None),
    }
}

/// Inside a unit element (`CalibrationUnits`, `InputUnits`, `OutputUnits`).
#[derive(Clone, Copy, PartialEq, Eq, Debug, Structural)]
pub enum UnitsSubState {
    Initial,
    Name,
    Description,
}

impl UnitsSubState {
    /// The unit that a unit element's start tag opens: name and description come later.
    pub fn from_start_text(text: &str) -> (res: Result<Unit, StationError>)
        ensures
            res matches Ok(u) && u.deep_view() == (UnitView { name: None, description: None }),
    {
        Ok(Unit { name: None, description: None })
    }
}

impl SubState for UnitsSubState {
    open spec fn placed(self, xml: StationXMLView) -> bool {
        true
    }

    open spec fn admits_start(self, tag: Seq<char>, full: Seq<char>) -> bool {
        self is Initial ==> (tag == "name"@ || tag == "description"@)
    }

    open spec fn start_ok(self, tag: Seq<char>, full: Seq<char>, xml: StationXMLView) -> bool {
        self.admits_start(tag, full)
    }

    open spec fn start_spec(self, tag: Seq<char>, full: Seq<char>, xml: StationXMLView) -> Result<
        (Self, StationXMLView),
        StationError,
    > {
        match self {
            UnitsSubState::Initial => if tag == "name"@ {
                Ok((UnitsSubState::Name, xml))
            } else {
                Ok((UnitsSubState::Description, xml))
            },
            _ => Err(StationError::XMLStructureError),
        }
    }

    open spec fn admits_text(self, text: Seq<char>) -> bool {
        true
    }

    open spec fn text_ok(self, text: Seq<char>, xml: StationXMLView) -> bool {
        true
    }

    open spec fn text_spec(self, text: Seq<char>, xml: StationXMLView) -> Result<
        StationXMLView,
        StationError,
    > {
        Ok(xml)
    }

    open spec fn end_spec(self) -> Result<EndEvent<Self>, StationError> {
        match self {
            UnitsSubState::Initial => Ok(EndEvent::Backtrack),
            _ => Ok(EndEvent::Continue(UnitsSubState::Initial)),
        }
    }

    proof fn lemma_start_ok(self, tag: Seq<char>, full: Seq<char>, xml: StationXMLView) {
    }

    proof fn lemma_start_placed(self, tag: Seq<char>, full: Seq<char>, xml: StationXMLView) {
    }

    proof fn lemma_text_ok(self, text: Seq<char>, xml: StationXMLView) {
    }

    proof fn lemma_text_placed(self, text: Seq<char>, xml: StationXMLView) {
    }

    proof fn lemma_end_placed(self, xml: StationXMLView) {
    }

    fn start_admissible(&self, tag_lowercase: &str, full_start_text: &str, xml: &StationXML) -> (r:
        bool) {
        match self {
            UnitsSubState::Initial => str_equals(tag_lowercase, "name") || str_equals(tag_lowercase, "description"),
            _ => true,
        }
    }

    fn text_admissible(&self, text: &str, xml: &StationXML) -> (r: bool) {
        true
    }

    fn xml_start_event(self, tag_lowercase: &str, _full_start_text: &str, xml: StationXML) -> (res:
        Result<(Self, StationXML), StationError>) {
        match self {
            UnitsSubState::Initial => if str_equals(tag_lowercase, "name") {
                Ok((UnitsSubState::Name, xml))
            } else {
                Ok((UnitsSubState::Description, xml))
            },
            UnitsSubState::Name => Err(StationError::XMLStructureError),
            UnitsSubState::Description => Err(StationError::XMLStructureError),
        }
    }

    fn xml_text_event(&self, _text: &str, xml: StationXML) -> (res: Result<StationXML, StationError>) {
        Ok(xml)
    }

    fn xml_end_event(self) -> (res: Result<EndEvent<Self>, StationError>) {
        match self {
            UnitsSubState::Initial => Ok(EndEvent::Backtrack),
            UnitsSubState::Name => Ok(EndEvent::Continue(UnitsSubState::Initial)),
            UnitsSubState::Description => Ok(EndEvent::Continue(UnitsSubState::Initial)),
        }
    }
}

/// Inside a `Sensor` element.
#[derive(Clone, Copy, PartialEq, Eq, Debug, Structural)]
pub enum SensorSubState {
    Initial,
    Description,
}

impl SubState for SensorSubState {
    open spec fn placed(self, xml: StationXMLView) -> bool {
        xml.has_last_channel()
    }

    open spec fn admits_start(self, tag: Seq<char>, full: Seq<char>) -> bool {
        tag == "description"@
    }

    open spec fn start_ok(self, tag: Seq<char>, full: Seq<char>, xml: StationXMLView) -> bool {
        self.admits_start(tag, full)
    }

    open spec fn start_spec(self, tag: Seq<char>, full: Seq<char>, xml: StationXMLView) -> Result<
        (Self, StationXMLView),
        StationError,
    > {
        Ok((SensorSubState::Description, xml))
    }

    open spec fn admits_text(self, text: Seq<char>) -> bool {
        true
    }

    open spec fn text_ok(self, text: Seq<char>, xml: StationXMLView) -> bool {
        self is Description ==> xml.has_last_channel()
    }

    /// The text of the sensor's description is the channel's sensor name.
    open spec fn text_spec(self, text: Seq<char>, xml: StationXMLView) -> Result<
        StationXMLView,
        StationError,
    > {
        match self {
            SensorSubState::Initial => Ok(xml),
            SensorSubState::Description => Ok(
                xml.with_last_station(|s: StationView| station_set_sensor_description(s, text)),
            ),
        }
    }

    open spec fn end_spec(self) -> Result<EndEvent<Self>, StationError> {
        match self {
            SensorSubState::Initial => Ok(EndEvent::Backtrack),
            SensorSubState::Description => Ok(EndEvent::Continue(SensorSubState::Initial)),
        }
    }

    proof fn lemma_start_ok(self, tag: Seq<char>, full: Seq<char>, xml: StationXMLView) {
    }

    proof fn lemma_start_placed(self, tag: Seq<char>, full: Seq<char>, xml: StationXMLView) {
    }

    proof fn lemma_text_ok(self, text: Seq<char>, xml: StationXMLView) {
    }

    proof fn lemma_text_placed(self, text: Seq<char>, xml: StationXMLView) {
    }

    proof fn lemma_end_placed(self, xml: StationXMLView) {
    }

    fn start_admissible(&self, tag_lowercase: &str, full_start_text: &str, xml: &StationXML) -> (r:
        bool) {
        str_equals(tag_lowercase, "description")
    }

    fn text_admissible(&self, text: &str, xml: &StationXML) -> (r: bool) {
        match self {
            SensorSubState::Initial => true,
            SensorSubState::Description => xml.has_last_channel(),
        }
    }

    fn xml_start_event(self, _tag_lowercase: &str, _full_start_text: &str, xml: StationXML) -> (res:
        Result<(Self, StationXML), StationError>) {
        Ok((SensorSubState::Description, xml))
    }

    fn xml_text_event(&self, text: &str, xml: StationXML) -> (res: Result<StationXML, StationError>) {
        let mut xml = xml;
        match self {
            SensorSubState::Initial => {},
            SensorSubState::Description => {
                let op = StationOp::SetSensorDescription(text.to_string());
                let ghost op_g = op;
                update_last_station(&mut xml, op);
                assert((|s: StationView| op_g.apply(s)) =~= (|s: StationView|
                    station_set_sensor_description(s, text@)));
            },
        }
        Ok(xml)
    }

    fn xml_end_event(self) -> (res: Result<EndEvent<Self>, StationError>) {
        match self {
            SensorSubState::Initial => Ok(EndEvent::Backtrack),
            SensorSubState::Description => Ok(EndEvent::Continue(SensorSubState::Initial)),
        }
    }
}

/// Inside an `InstrumentSensitivity` element.
#[derive(Clone, Copy, PartialEq, Eq, Debug, Structural)]
pub enum InstrumentSensitivityState {
    Initial,
    Value,
    Frequency,
    InputUnits(UnitsSubState),
    OutputUnits(UnitsSubState),
}

impl SubState for InstrumentSensitivityState {
    open spec fn placed(self, xml: StationXMLView) -> bool {
        true
    }

    open spec fn admits_start(self, tag: Seq<char>, full: Seq<char>) -> bool {
        match self {
            InstrumentSensitivityState::Initial => tag == "value"@ || tag == "frequency"@ || tag
                == "inputunits"@ || tag == "outputunits"@,
            InstrumentSensitivityState::InputUnits(u) => u.admits_start(tag, full),
            InstrumentSensitivityState::OutputUnits(u) => u.admits_start(tag, full),
            _ => true,
        }
    }

    open spec fn start_ok(self, tag: Seq<char>, full: Seq<char>, xml: StationXMLView) -> bool {
        self.admits_start(tag, full)
    }

    /// Note that an `OutputUnits` element is read as an input unit.
    open spec fn start_spec(self, tag: Seq<char>, full: Seq<char>, xml: StationXMLView) -> Result<
        (Self, StationXMLView),
        StationError,
    > {
        match self {
            InstrumentSensitivityState::Initial => if tag == "value"@ {
                Ok((InstrumentSensitivityState::Value, xml))
            } else if tag == "frequency"@ {
                Ok((InstrumentSensitivityState::Frequency, xml))
            } else {
                Ok((InstrumentSensitivityState::InputUnits(UnitsSubState::Initial), xml))
            },
            InstrumentSensitivityState::InputUnits(u) => match u.start_spec(tag, full, xml) {
                Ok((u2, x2)) => Ok((InstrumentSensitivityState::InputUnits(u2), x2)),
                Err(e) => Err(e),
            },
            InstrumentSensitivityState::OutputUnits(u) => match u.start_spec(tag, full, xml) {
                Ok((u2, x2)) => Ok((InstrumentSensitivityState::OutputUnits(u2), x2)),
                Err(e) => Err(e),
            },
            _ => Err(StationError::XMLStructureError),
        }
    }

    open spec fn admits_text(self, text: Seq<char>) -> bool {
        true
    }

    open spec fn text_ok(self, text: Seq<char>, xml: StationXMLView) -> bool {
        true
    }

    open spec fn text_spec(self, text: Seq<char>, xml: StationXMLView) -> Result<
        StationXMLView,
        StationError,
    > {
        Ok(xml)
    }

    open spec fn end_spec(self) -> Result<EndEvent<Self>, StationError> {
        match self {
            InstrumentSensitivityState::Initial => Ok(EndEvent::Backtrack),
            InstrumentSensitivityState::InputUnits(u) => match u.end_spec() {
                Err(e) => Err(e),
                Ok(EndEvent::Backtrack) => Ok(EndEvent::Continue(InstrumentSensitivityState::Initial)),
                Ok(EndEvent::Continue(u2)) => Ok(
                    EndEvent::Continue(InstrumentSensitivityState::InputUnits(u2)),
                ),
            },
            InstrumentSensitivityState::OutputUnits(u) => match u.end_spec() {
                Err(e) => Err(e),
                Ok(EndEvent::Backtrack) => Ok(EndEvent::Continue(InstrumentSensitivityState::Initial)),
                Ok(EndEvent::Continue(u2)) => Ok(
                    EndEvent::Continue(InstrumentSensitivityState::OutputUnits(u2)),
                ),
            },
            _ => Ok(EndEvent::Continue(InstrumentSensitivityState::Initial)),
        }
    }

    proof fn lemma_start_ok(self, tag: Seq<char>, full: Seq<char>, xml: StationXMLView) {
    }

    proof fn lemma_start_placed(self, tag: Seq<char>, full: Seq<char>, xml: StationXMLView) {
    }

    proof fn lemma_text_ok(self, text: Seq<char>, xml: StationXMLView) {
    }

    proof fn lemma_text_placed(self, text: Seq<char>, xml: StationXMLView) {
    }

    proof fn lemma_end_placed(self, xml: StationXMLView) {
    }

    fn start_admissible(&self, tag_lowercase: &str, full_start_text: &str, xml: &StationXML) -> (r:
        bool) {
        match self {
            InstrumentSensitivityState::Initial => str_equals(tag_lowercase, "value") || str_equals(tag_lowercase, "frequency") || str_equals(tag_lowercase, "inputunits") || str_equals(tag_lowercase, "outputunits"),
            InstrumentSensitivityState::InputUnits(u) => u.start_admissible(
                tag_lowercase,
                full_start_text,
                xml,
            ),
            InstrumentSensitivityState::OutputUnits(u) => u.start_admissible(
                tag_lowercase,
                full_start_text,
                xml,
            ),
            _ => true,
        }
    }

    fn text_admissible(&self, text: &str, xml: &StationXML) -> (r: bool) {
        true
    }

    fn xml_start_event(self, tag_lowercase: &str, full_start_text: &str, xml: StationXML) -> (res:
        Result<(Self, StationXML), StationError>) {
        match self {
            InstrumentSensitivityState::Initial => if str_equals(tag_lowercase, "value") {
                Ok((InstrumentSensitivityState::Value, xml))
            } else if str_equals(tag_lowercase, "frequency") {
                Ok((InstrumentSensitivityState::Frequency, xml))
            } else {
                Ok((InstrumentSensitivityState::InputUnits(UnitsSubState::Initial), xml))
            },
            InstrumentSensitivityState::Value => Err(StationError::XMLStructureError),
            InstrumentSensitivityState::Frequency => Err(StationError::XMLStructureError),
            InstrumentSensitivityState::InputUnits(state) => {
                match state.xml_start_event(tag_lowercase, full_start_text, xml) {
                    Ok((state, xml)) => Ok((InstrumentSensitivityState::InputUnits(state), xml)),
                    Err(e) => Err(e),
                }
            },
            InstrumentSensitivityState::OutputUnits(state) => {
                match state.xml_start_event(tag_lowercase, full_start_text, xml) {
                    Ok((state, xml)) => Ok((InstrumentSensitivityState::OutputUnits(state), xml)),
                    Err(e) => Err(e),
                }
            },
        }
    }

    fn xml_text_event(&self, _text: &str, xml: StationXML) -> (res: Result<StationXML, StationError>) {
        Ok(xml)
    }

    fn xml_end_event(self) -> (res: Result<EndEvent<Self>, StationError>) {
        match self {
            InstrumentSensitivityState::Initial => Ok(EndEvent::Backtrack),
            InstrumentSensitivityState::Value => Ok(
                EndEvent::Continue(InstrumentSensitivityState::Initial),
            ),
            InstrumentSensitivityState::Frequency => Ok(
                EndEvent::Continue(InstrumentSensitivityState::Initial),
            ),
            InstrumentSensitivityState::InputUnits(state) => match state.xml_end_event() {
                Err(e) => Err(e),
                Ok(EndEvent::Backtrack) => Ok(EndEvent::Continue(InstrumentSensitivityState::Initial)),
                Ok(EndEvent::Continue(state)) => Ok(
                    EndEvent::Continue(InstrumentSensitivityState::InputUnits(state)),
                ),
            },
            InstrumentSensitivityState::OutputUnits(state) => match state.xml_end_event() {
                Err(e) => Err(e),
                Ok(EndEvent::Backtrack) => Ok(EndEvent::Continue(InstrumentSensitivityState::Initial)),
                Ok(EndEvent::Continue(state)) => Ok(
                    EndEvent::Continue(InstrumentSensitivityState::OutputUnits(state)),
                ),
            },
        }
    }
}

/// Inside a `Response` element.
#[derive(Clone, Copy, PartialEq, Eq, Debug, Structural)]
pub enum ResponseSubState {
    Initial,
    InstrumentSensitivity(InstrumentSensitivityState),
}

impl SubState for ResponseSubState {
    open spec fn placed(self, xml: StationXMLView) -> bool {
        true
    }

    open spec fn admits_start(self, tag: Seq<char>, full: Seq<char>) -> bool {
        match self {
            ResponseSubState::Initial => tag == "instrumentsensitivity"@,
            ResponseSubState::InstrumentSensitivity(s) => s.admits_start(tag, full),
        }
    }

    open spec fn start_ok(self, tag: Seq<char>, full: Seq<char>, xml: StationXMLView) -> bool {
        self.admits_start(tag, full)
    }

    open spec fn start_spec(self, tag: Seq<char>, full: Seq<char>, xml: StationXMLView) -> Result<
        (Self, StationXMLView),
        StationError,
    > {
        match self {
            ResponseSubState::Initial => Ok(
                (ResponseSubState::InstrumentSensitivity(InstrumentSensitivityState::Initial), xml),
            ),
            ResponseSubState::InstrumentSensitivity(s) => match s.start_spec(tag, full, xml) {
                Ok((s2, x2)) => Ok((ResponseSubState::InstrumentSensitivity(s2), x2)),
                Err(e) => Err(e),
            },
        }
    }

    open spec fn admits_text(self, text: Seq<char>) -> bool {
        true
    }

    open spec fn text_ok(self, text: Seq<char>, xml: StationXMLView) -> bool {
        true
    }

    open spec fn text_spec(self, text: Seq<char>, xml: StationXMLView) -> Result<
        StationXMLView,
        StationError,
    > {
        Ok(xml)
    }

    open spec fn end_spec(self) -> Result<EndEvent<Self>, StationError> {
        match self {
            ResponseSubState::Initial => Ok(EndEvent::Backtrack),
            ResponseSubState::InstrumentSensitivity(s) => match s.end_spec() {
                Err(e) => Err(e),
                Ok(EndEvent::Backtrack) => Ok(EndEvent::Continue(ResponseSubState::Initial)),
                Ok(EndEvent::Continue(s2)) => Ok(
                    EndEvent::Continue(ResponseSubState::InstrumentSensitivity(s2)),
                ),
            },
        }
    }

    proof fn lemma_start_ok(self, tag: Seq<char>, full: Seq<char>, xml: StationXMLView) {
    }

    proof fn lemma_start_placed(self, tag: Seq<char>, full: Seq<char>, xml: StationXMLView) {
    }

    proof fn lemma_text_ok(self, text: Seq<char>, xml: StationXMLView) {
    }

    proof fn lemma_text_placed(self, text: Seq<char>, xml: StationXMLView) {
    }

    proof fn lemma_end_placed(self, xml: StationXMLView) {
    }

    fn start_admissible(&self, tag_lowercase: &str, full_start_text: &str, xml: &StationXML) -> (r:
        bool) {
        match self {
            ResponseSubState::Initial => str_equals(tag_lowercase, "instrumentsensitivity"),
            ResponseSubState::InstrumentSensitivity(st) => st.start_admissible(
                tag_lowercase,
                full_start_text,
                xml,
            ),
        }
    }

    fn text_admissible(&self, text: &str, xml: &StationXML) -> (r: bool) {
        true
    }

    fn xml_start_event(self, tag_lowercase: &str, full_start_text: &str, xml: StationXML) -> (res:
        Result<(Self, StationXML), StationError>) {
        match self {
            ResponseSubState::Initial => Ok(
                (ResponseSubState::InstrumentSensitivity(InstrumentSensitivityState::Initial), xml),
            ),
            ResponseSubState::InstrumentSensitivity(state) => {
                match state.xml_start_event(tag_lowercase, full_start_text, xml) {
                    Ok((state, xml)) => Ok((ResponseSubState::InstrumentSensitivity(state), xml)),
                    Err(e) => Err(e),
                }
            },
        }
    }

    fn xml_text_event(&self, _text: &str, xml: StationXML) -> (res: Result<StationXML, StationError>) {
        Ok(xml)
    }

    fn xml_end_event(self) -> (res: Result<EndEvent<Self>, StationError>) {
        match self {
            ResponseSubState::Initial => Ok(EndEvent::Backtrack),
            ResponseSubState::InstrumentSensitivity(state) => match state.xml_end_event() {
                Err(e) => Err(e),
                Ok(EndEvent::Backtrack) => Ok(EndEvent::Continue(ResponseSubState::Initial)),
                Ok(EndEvent::Continue(state)) => Ok(
                    EndEvent::Continue(ResponseSubState::InstrumentSensitivity(state)),
                ),
            },
        }
    }
}

/// Storing the decimal number `text` in the field `f` of the last channel.
pub open spec fn set_channel_decimal(xml: StationXMLView, f: ChannelField, text: Seq<char>) -> Result<
    StationXMLView,
    StationError,
> {
    match decimal_text(text) {
        Err(k) => Err(StationError::ParseFloatError(k)),
        Ok(_) => Ok(xml.with_last_station(|s: StationView| station_set_channel_text(s, f, text))),
    }
}

/// Storing the decimal number `text` in the field `f` of the last station.
pub open spec fn set_station_decimal(xml: StationXMLView, f: StationField, text: Seq<char>) -> Result<
    StationXMLView,
    StationError,
> {
    match decimal_text(text) {
        Err(k) => Err(StationError::ParseFloatError(k)),
        Ok(_) => Ok(xml.with_last_station(|s: StationView| station_with_text(s, f, text))),
    }
}

fn channel_decimal(xml: StationXML, f: ChannelField, text: &str) -> (res: Result<
    StationXML,
    StationError,
>)
    requires
        xml.deep_view().has_last_channel(),
    ensures
        text_matches(res, set_channel_decimal(xml.deep_view(), f, text@)),
{
    let mut xml = xml;
    match check_float_syntax(text) {
        Err(k) => Err(StationError::ParseFloatError(k)),
        Ok(()) => {
            let op = StationOp::SetChannelText(f, text.to_string());
            let ghost op_g = op;
            update_last_station(&mut xml, op);
            assert((|s: StationView| op_g.apply(s)) =~= (|s: StationView|
                station_set_channel_text(s, f, text@)));
            Ok(xml)
        },
    }
}

fn station_text(xml: StationXML, f: StationField, text: &str) -> (res: StationXML)
    requires
        xml.deep_view().has_last_station(),
    ensures
        res.deep_view() == xml.deep_view().with_last_station(
            |s: StationView| station_with_text(s, f, text@),
        ),
{
    let mut xml = xml;
    let op = StationOp::SetText(f, text.to_string());
    let ghost op_g = op;
    update_last_station(&mut xml, op);
    assert((|s: StationView| op_g.apply(s)) =~= (|s: StationView| station_with_text(s, f, text@)));
    xml
}

fn station_decimal(xml: StationXML, f: StationField, text: &str) -> (res: Result<
    StationXML,
    StationError,
>)
    requires
        xml.deep_view().has_last_station(),
    ensures
        text_matches(res, set_station_decimal(xml.deep_view(), f, text@)),
{
    match check_float_syntax(text) {
        Err(k) => Err(StationError::ParseFloatError(k)),
        Ok(()) => Ok(station_text(xml, f, text)),
    }
}

/// Inside a `Channel` element.
#[derive(Clone, Copy, PartialEq, Eq, Debug, Structural)]
pub enum ChannelSubState {
    Initial,
    Latitude,
    Longitude,
    Elevation,
    Depth,
    Azimuth,
    Dip,
    Type,
    SampleRate,
    ClockDrift,
    CalibrationUnits(UnitsSubState),
    Sensor(SensorSubState),
    Response(ResponseSubState),
}

impl ChannelSubState {
    /// The channel that a `Channel` element's start tag opens: its code, location code
    /// (none when empty) and start date, from the tag's attributes.
    pub fn from_start_text(text: &str) -> (res: Result<Channel, StationError>)
        requires
            !(channel_start_outcome(text@) is Panics),
        ensures
            result_matches(res, channel_start_outcome(text@)),
    {
        let header = match parse_header(text) {
            Ok(h) => h,
            Err(e) => return Err(e),
        };
        let start_date = match read_start_date(&header) {
            Ok(d) => d,
            Err(e) => return Err(e),
        };
        let location_code = match header.get("locationCode") {
            Some(code) => if code.as_str().is_empty() {
                None
            } else {
                Some(code.clone())
            },
            None => None,
        };
        Ok(
            Channel {
                code: clone_opt_string(header.get("code")),
                location_code,
                start_date,
                latitude: None,
                longitude: None,
                elevation: None,
                depth: None,
                azimuth: None,
                dip: None,
                sample_rate: None,
                clock_drift: None,
                calibration_unit: None,
                sensor: None,
                response: None,
            },
        )
    }
}

impl SubState for ChannelSubState {
    open spec fn placed(self, xml: StationXMLView) -> bool {
        xml.has_last_channel()
    }

    open spec fn admits_start(self, tag: Seq<char>, full: Seq<char>) -> bool {
        match self {
            ChannelSubState::Initial => tag == "latitude"@ || tag == "longitude"@ || tag
                == "elevation"@ || tag == "depth"@ || tag == "azimuth"@ || tag == "dip"@ || tag
                == "type"@ || tag == "samplerate"@ || tag == "clockdrift"@ || tag
                == "calibrationunits"@ || tag == "sensor"@ || tag == "response"@,
            ChannelSubState::CalibrationUnits(u) => u.admits_start(tag, full),
            ChannelSubState::Sensor(s) => s.admits_start(tag, full),
            ChannelSubState::Response(r) => r.admits_start(tag, full),
            _ => true,
        }
    }

    open spec fn start_ok(self, tag: Seq<char>, full: Seq<char>, xml: StationXMLView) -> bool {
        xml.has_last_channel() && self.admits_start(tag, full)
    }

    open spec fn start_spec(self, tag: Seq<char>, full: Seq<char>, xml: StationXMLView) -> Result<
        (Self, StationXMLView),
        StationError,
    > {
        match self {
            ChannelSubState::Initial => if tag == "latitude"@ {
                Ok((ChannelSubState::Latitude, xml))
            } else if tag == "longitude"@ {
                Ok((ChannelSubState::Longitude, xml))
            } else if tag == "elevation"@ {
                Ok((ChannelSubState::Elevation, xml))
            } else if tag == "depth"@ {
                Ok((ChannelSubState::Depth, xml))
            } else if tag == "azimuth"@ {
                Ok((ChannelSubState::Azimuth, xml))
            } else if tag == "dip"@ {
                Ok((ChannelSubState::Dip, xml))
            } else if tag == "type"@ {
                Ok((ChannelSubState::Type, xml))
            } else if tag == "samplerate"@ {
                Ok((ChannelSubState::SampleRate, xml))
            } else if tag == "clockdrift"@ {
                Ok((ChannelSubState::ClockDrift, xml))
            } else if tag == "calibrationunits"@ {
                Ok(
                    (
                        ChannelSubState::CalibrationUnits(UnitsSubState::Initial),
                        xml.with_last_station(
                            |s: StationView|
                                station_set_calibration_unit(
                                    s,
                                    UnitView { name: None, description: None },
                                ),
                        ),
                    ),
                )
            } else if tag == "sensor"@ {
                Ok((ChannelSubState::Sensor(SensorSubState::Initial), xml))
            } else {
                Ok((ChannelSubState::Response(ResponseSubState::Initial), xml))
            },
            ChannelSubState::CalibrationUnits(u) => match u.start_spec(tag, full, xml) {
                Ok((u2, x2)) => Ok((ChannelSubState::CalibrationUnits(u2), x2)),
                Err(e) => Err(e),
            },
            ChannelSubState::Sensor(st) => match st.start_spec(tag, full, xml) {
                Ok((s2, x2)) => Ok((ChannelSubState::Sensor(s2), x2)),
                Err(e) => Err(e),
            },
            ChannelSubState::Response(r) => match r.start_spec(tag, full, xml) {
                Ok((r2, x2)) => Ok((ChannelSubState::Response(r2), x2)),
                Err(e) => Err(e),
            },
            _ => Err(StationError::XMLStructureError),
        }
    }

    open spec fn admits_text(self, text: Seq<char>) -> bool {
        true
    }

    open spec fn text_ok(self, text: Seq<char>, xml: StationXMLView) -> bool {
        xml.has_last_channel()
    }

    open spec fn text_spec(self, text: Seq<char>, xml: StationXMLView) -> Result<
        StationXMLView,
        StationError,
    > {
        match self {
            ChannelSubState::Latitude => set_channel_decimal(xml, ChannelField::Latitude, text),
            ChannelSubState::Longitude => set_channel_decimal(xml, ChannelField::Longitude, text),
            ChannelSubState::Elevation => set_channel_decimal(xml, ChannelField::Elevation, text),
            ChannelSubState::Depth => set_channel_decimal(xml, ChannelField::Depth, text),
            ChannelSubState::Azimuth => set_channel_decimal(xml, ChannelField::Azimuth, text),
            ChannelSubState::Dip => set_channel_decimal(xml, ChannelField::Dip, text),
            ChannelSubState::SampleRate => set_channel_decimal(xml, ChannelField::SampleRate, text),
            ChannelSubState::ClockDrift => set_channel_decimal(xml, ChannelField::ClockDrift, text),
            ChannelSubState::CalibrationUnits(u) => u.text_spec(text, xml),
            ChannelSubState::Sensor(st) => st.text_spec(text, xml),
            ChannelSubState::Response(r) => r.text_spec(text, xml),
            _ => Ok(xml),
        }
    }

    open spec fn end_spec(self) -> Result<EndEvent<Self>, StationError> {
        match self {
            ChannelSubState::Initial => Ok(EndEvent::Backtrack),
            ChannelSubState::CalibrationUnits(u) => match u.end_spec() {
                Err(e) => Err(e),
                Ok(EndEvent::Backtrack) => Ok(EndEvent::Continue(ChannelSubState::Initial)),
                Ok(EndEvent::Continue(u2)) => Ok(
                    EndEvent::Continue(ChannelSubState::CalibrationUnits(u2)),
                ),
            },
            ChannelSubState::Sensor(st) => match st.end_spec() {
                Err(e) => Err(e),
                Ok(EndEvent::Backtrack) => Ok(EndEvent::Continue(ChannelSubState::Initial)),
                Ok(EndEvent::Continue(s2)) => Ok(EndEvent::Continue(ChannelSubState::Sensor(s2))),
            },
            ChannelSubState::Response(r) => match r.end_spec() {
                Err(e) => Err(e),
                Ok(EndEvent::Backtrack) => Ok(EndEvent::Continue(ChannelSubState::Initial)),
                Ok(EndEvent::Continue(r2)) => Ok(EndEvent::Continue(ChannelSubState::Response(r2))),
            },
            _ => Ok(EndEvent::Continue(ChannelSubState::Initial)),
        }
    }

    proof fn lemma_start_ok(self, tag: Seq<char>, full: Seq<char>, xml: StationXMLView) {
    }

    proof fn lemma_start_placed(self, tag: Seq<char>, full: Seq<char>, xml: StationXMLView) {
    }

    proof fn lemma_text_ok(self, text: Seq<char>, xml: StationXMLView) {
    }

    proof fn lemma_text_placed(self, text: Seq<char>, xml: StationXMLView) {
    }

    proof fn lemma_end_placed(self, xml: StationXMLView) {
    }

    fn start_admissible(&self, tag_lowercase: &str, full_start_text: &str, xml: &StationXML) -> (r:
        bool) {
        xml.has_last_channel() && match self {
            ChannelSubState::Initial => str_equals(tag_lowercase, "latitude") || str_equals(tag_lowercase, "longitude") || str_equals(tag_lowercase, "elevation") || str_equals(tag_lowercase, "depth") || str_equals(tag_lowercase, "azimuth") || str_equals(tag_lowercase, "dip") || str_equals(tag_lowercase, "type") || str_equals(tag_lowercase, "samplerate") || str_equals(tag_lowercase, "clockdrift") || str_equals(tag_lowercase, "calibrationunits") || str_equals(tag_lowercase, "sensor") || str_equals(tag_lowercase, "response"),
            ChannelSubState::CalibrationUnits(u) => u.start_admissible(
                tag_lowercase,
                full_start_text,
                xml,
            ),
            ChannelSubState::Sensor(st) => st.start_admissible(tag_lowercase, full_start_text, xml),
            ChannelSubState::Response(r) => r.start_admissible(tag_lowercase, full_start_text, xml),
            _ => true,
        }
    }

    fn text_admissible(&self, text: &str, xml: &StationXML) -> (r: bool) {
        xml.has_last_channel()
    }

    fn xml_start_event(self, tag_lowercase: &str, full_start_text: &str, xml: StationXML) -> (res:
        Result<(Self, StationXML), StationError>) {
        let mut xml = xml;
        match self {
            ChannelSubState::Initial => {
                if str_equals(tag_lowercase, "latitude") {
                    Ok((ChannelSubState::Latitude, xml))
                } else if str_equals(tag_lowercase, "longitude") {
                    Ok((ChannelSubState::Longitude, xml))
                } else if str_equals(tag_lowercase, "elevation") {
                    Ok((ChannelSubState::Elevation, xml))
                } else if str_equals(tag_lowercase, "depth") {
                    Ok((ChannelSubState::Depth, xml))
                } else if str_equals(tag_lowercase, "azimuth") {
                    Ok((ChannelSubState::Azimuth, xml))
                } else if str_equals(tag_lowercase, "dip") {
                    Ok((ChannelSubState::Dip, xml))
                } else if str_equals(tag_lowercase, "type") {
                    Ok((ChannelSubState::Type, xml))
                } else if str_equals(tag_lowercase, "samplerate") {
                    Ok((ChannelSubState::SampleRate, xml))
                } else if str_equals(tag_lowercase, "clockdrift") {
                    Ok((ChannelSubState::ClockDrift, xml))
                } else if str_equals(tag_lowercase, "calibrationunits") {
                    let unit = match UnitsSubState::from_start_text(full_start_text) {
                        Ok(u) => u,
                        Err(e) => return Err(e),
                    };
                    let op = StationOp::SetCalibrationUnit(unit);
                    let ghost op_g = op;
                    update_last_station(&mut xml, op);
                    assert((|s: StationView| op_g.apply(s)) =~= (|s: StationView|
                        station_set_calibration_unit(s, UnitView { name: None, description: None })));
                    Ok((ChannelSubState::CalibrationUnits(UnitsSubState::Initial), xml))
                } else if str_equals(tag_lowercase, "sensor") {
                    Ok((ChannelSubState::Sensor(SensorSubState::Initial), xml))
                } else {
                    Ok((ChannelSubState::Response(ResponseSubState::Initial), xml))
                }
            },
            ChannelSubState::Latitude => Err(StationError::XMLStructureError),
            ChannelSubState::Longitude => Err(StationError::XMLStructureError),
            ChannelSubState::Elevation => Err(StationError::XMLStructureError),
            ChannelSubState::Depth => Err(StationError::XMLStructureError),
            ChannelSubState::Azimuth => Err(StationError::XMLStructureError),
            ChannelSubState::Dip => Err(StationError::XMLStructureError),
            ChannelSubState::Type => Err(StationError::XMLStructureError),
            ChannelSubState::SampleRate => Err(StationError::XMLStructureError),
            ChannelSubState::ClockDrift => Err(StationError::XMLStructureError),
            ChannelSubState::CalibrationUnits(state) => {
                match state.xml_start_event(tag_lowercase, full_start_text, xml) {
                    Ok((state, xml)) => Ok((ChannelSubState::CalibrationUnits(state), xml)),
                    Err(e) => Err(e),
                }
            },
            ChannelSubState::Sensor(state) => {
                match state.xml_start_event(tag_lowercase, full_start_text, xml) {
                    Ok((state, xml)) => Ok((ChannelSubState::Sensor(state), xml)),
                    Err(e) => Err(e),
                }
            },
            ChannelSubState::Response(state) => {
                match state.xml_start_event(tag_lowercase, full_start_text, xml) {
                    Ok((state, xml)) => Ok((ChannelSubState::Response(state), xml)),
                    Err(e) => Err(e),
                }
            },
        }
    }

    fn xml_text_event(&self, text: &str, xml: StationXML) -> (res: Result<StationXML, StationError>) {
        match self {
            ChannelSubState::Initial => Ok(xml),
            ChannelSubState::Latitude => channel_decimal(xml, ChannelField::Latitude, text),
            ChannelSubState::Longitude => channel_decimal(xml, ChannelField::Longitude, text),
            ChannelSubState::Elevation => channel_decimal(xml, ChannelField::Elevation, text),
            ChannelSubState::Depth => channel_decimal(xml, ChannelField::Depth, text),
            ChannelSubState::Azimuth => channel_decimal(xml, ChannelField::Azimuth, text),
            ChannelSubState::Dip => channel_decimal(xml, ChannelField::Dip, text),
            ChannelSubState::Type => Ok(xml),
            ChannelSubState::SampleRate => channel_decimal(xml, ChannelField::SampleRate, text),
            ChannelSubState::ClockDrift => channel_decimal(xml, ChannelField::ClockDrift, text),
            ChannelSubState::CalibrationUnits(state) => state.xml_text_event(text, xml),
            ChannelSubState::Sensor(state) => state.xml_text_event(text, xml),
            ChannelSubState::Response(state) => state.xml_text_event(text, xml),
        }
    }

    fn xml_end_event(self) -> (res: Result<EndEvent<Self>, StationError>) {
        match self {
            ChannelSubState::Initial => Ok(EndEvent::Backtrack),
            ChannelSubState::Latitude => Ok(EndEvent::Continue(ChannelSubState::Initial)),
            ChannelSubState::Longitude => Ok(EndEvent::Continue(ChannelSubState::Initial)),
            ChannelSubState::Elevation => Ok(EndEvent::Continue(ChannelSubState::Initial)),
            ChannelSubState::Depth => Ok(EndEvent::Continue(ChannelSubState::Initial)),
            ChannelSubState::Azimuth => Ok(EndEvent::Continue(ChannelSubState::Initial)),
            ChannelSubState::Dip => Ok(EndEvent::Continue(ChannelSubState::Initial)),
            ChannelSubState::Type => Ok(EndEvent::Continue(ChannelSubState::Initial)),
            ChannelSubState::SampleRate => Ok(EndEvent::Continue(ChannelSubState::Initial)),
            ChannelSubState::ClockDrift => Ok(EndEvent::Continue(ChannelSubState::Initial)),
            ChannelSubState::CalibrationUnits(unit_state) => match unit_state.xml_end_event() {
                Err(e) => Err(e),
                Ok(EndEvent::Backtrack) => Ok(EndEvent::Continue(ChannelSubState::Initial)),
                Ok(EndEvent::Continue(state)) => Ok(
                    EndEvent::Continue(ChannelSubState::CalibrationUnits(state)),
                ),
            },
            ChannelSubState::Sensor(sensor_state) => match sensor_state.xml_end_event() {
                Err(e) => Err(e),
                Ok(EndEvent::Backtrack) => Ok(EndEvent::Continue(ChannelSubState::Initial)),
                Ok(EndEvent::Continue(state)) => Ok(EndEvent::Continue(ChannelSubState::Sensor(state))),
            },
            ChannelSubState::Response(state) => match state.xml_end_event() {
                Err(e) => Err(e),
                Ok(EndEvent::Backtrack) => Ok(EndEvent::Continue(ChannelSubState::Initial)),
                Ok(EndEvent::Continue(state)) => Ok(
                    EndEvent::Continue(ChannelSubState::Response(state)),
                ),
            },
        }
    }
}

/// Inside a `Site` element.
#[derive(Clone, Copy, PartialEq, Eq, Debug, Structural)]
pub enum SiteSubState {
    Initial,
    Name,
}

impl SubState for SiteSubState {
    open spec fn placed(self, xml: StationXMLView) -> bool {
        xml.has_last_station()
    }

    open spec fn admits_start(self, tag: Seq<char>, full: Seq<char>) -> bool {
        self is Initial ==> tag == "name"@
    }

    open spec fn start_ok(self, tag: Seq<char>, full: Seq<char>, xml: StationXMLView) -> bool {
        self.admits_start(tag, full)
    }

    open spec fn start_spec(self, tag: Seq<char>, full: Seq<char>, xml: StationXMLView) -> Result<
        (Self, StationXMLView),
        StationError,
    > {
        match self {
            SiteSubState::Initial => Ok((SiteSubState::Name, xml)),
            SiteSubState::Name => Err(StationError::XMLStructureError),
        }
    }

    open spec fn admits_text(self, text: Seq<char>) -> bool {
        true
    }

    open spec fn text_ok(self, text: Seq<char>, xml: StationXMLView) -> bool {
        self is Name ==> xml.has_last_station()
    }

    open spec fn text_spec(self, text: Seq<char>, xml: StationXMLView) -> Result<
        StationXMLView,
        StationError,
    > {
        match self {
            SiteSubState::Initial => Ok(xml),
            SiteSubState::Name => Ok(
                xml.with_last_station(
                    |s: StationView| station_with_text(s, StationField::SiteName, text),
                ),
            ),
        }
    }

    open spec fn end_spec(self) -> Result<EndEvent<Self>, StationError> {
        match self {
            SiteSubState::Initial => Ok(EndEvent::Backtrack),
            SiteSubState::Name => Ok(EndEvent::Continue(SiteSubState::Initial)),
        }
    }

    proof fn lemma_start_ok(self, tag: Seq<char>, full: Seq<char>, xml: StationXMLView) {
    }

    proof fn lemma_start_placed(self, tag: Seq<char>, full: Seq<char>, xml: StationXMLView) {
    }

    proof fn lemma_text_ok(self, text: Seq<char>, xml: StationXMLView) {
    }

    proof fn lemma_text_placed(self, text: Seq<char>, xml: StationXMLView) {
    }

    proof fn lemma_end_placed(self, xml: StationXMLView) {
    }

    fn start_admissible(&self, tag_lowercase: &str, full_start_text: &str, xml: &StationXML) -> (r:
        bool) {
        match self {
            SiteSubState::Initial => str_equals(tag_lowercase, "name"),
            _ => true,
        }
    }

    fn text_admissible(&self, text: &str, xml: &StationXML) -> (r: bool) {
        match self {
            SiteSubState::Name => xml.has_last_station(),
            _ => true,
        }
    }

    fn xml_start_event(self, _tag_lowercase: &str, _full_start_text: &str, xml: StationXML) -> (res:
        Result<(Self, StationXML), StationError>) {
        match self {
            SiteSubState::Initial => Ok((SiteSubState::Name, xml)),
            SiteSubState::Name => Err(StationError::XMLStructureError),
        }
    }

    fn xml_text_event(&self, text: &str, xml: StationXML) -> (res: Result<StationXML, StationError>) {
        match self {
            SiteSubState::Initial => Ok(xml),
            SiteSubState::Name => Ok(station_text(xml, StationField::SiteName, text)),
        }
    }

    fn xml_end_event(self) -> (res: Result<EndEvent<Self>, StationError>) {
        match self {
            SiteSubState::Initial => Ok(EndEvent::Backtrack),
            SiteSubState::Name => Ok(EndEvent::Continue(SiteSubState::Initial)),
        }
    }
}

/// Inside a `Station` element.
#[derive(Clone, Copy, PartialEq, Eq, Debug, Structural)]
pub enum StationSubState {
    Initial,
    Latitude,
    Longitude,
    Elevation,
    Site(SiteSubState),
    CreationDate,
    TotalNumberChannels,
    SelectedNumberChannels,
    Channel(ChannelSubState),
}

impl StationSubState {
    /// The station that a `Station` element's start tag opens: its code and start date,
    /// from the tag's attributes, and no channels yet.
    pub fn from_start_text(start_text: &str) -> (res: Result<Station, StationError>)
        requires
            !(station_start_outcome(start_text@) is Panics),
        ensures
            result_matches(res, station_start_outcome(start_text@)),
    {
        let header = match parse_header(start_text) {
            Ok(h) => h,
            Err(e) => return Err(e),
        };
        let start_date = match read_start_date(&header) {
            Ok(d) => d,
            Err(e) => return Err(e),
        };
        let st = Station {
            code: clone_opt_string(header.get("code")),
            start_date,
            end_date: None,
            elevation: None,
            latitude: None,
            longitude: None,
            site_name: None,
            creation_date: None,
            channels: Vec::new(),
        };
        assert(st.channels.deep_view() =~= Seq::<ChannelView>::empty());
        Ok(st)
    }
}

impl SubState for StationSubState {
    open spec fn placed(self, xml: StationXMLView) -> bool {
        xml.has_last_station() && match self {
            StationSubState::Site(s) => s.placed(xml),
            StationSubState::Channel(c) => c.placed(xml),
            _ => true,
        }
    }

    open spec fn admits_start(self, tag: Seq<char>, full: Seq<char>) -> bool {
        match self {
            StationSubState::Initial => (tag == "latitude"@ || tag == "longitude"@ || tag
                == "elevation"@ || tag == "site"@ || tag == "creationdate"@ || tag
                == "totalnumberchannels"@ || tag == "selectednumberchannels"@ || tag
                == "channel"@) && (tag == "channel"@ ==> !(channel_start_outcome(full) is Panics)),
            StationSubState::Site(s) => s.admits_start(tag, full),
            StationSubState::Channel(c) => c.admits_start(tag, full),
            _ => true,
        }
    }

    open spec fn start_ok(self, tag: Seq<char>, full: Seq<char>, xml: StationXMLView) -> bool {
        match self {
            StationSubState::Initial => self.admits_start(tag, full) && (tag == "channel"@
                ==> xml.has_last_station()),
            StationSubState::Site(s) => s.start_ok(tag, full, xml),
            StationSubState::Channel(c) => c.start_ok(tag, full, xml),
            _ => true,
        }
    }

    open spec fn start_spec(self, tag: Seq<char>, full: Seq<char>, xml: StationXMLView) -> Result<
        (Self, StationXMLView),
        StationError,
    > {
        match self {
            StationSubState::Initial => if tag == "latitude"@ {
                Ok((StationSubState::Latitude, xml))
            } else if tag == "longitude"@ {
                Ok((StationSubState::Longitude, xml))
            } else if tag == "elevation"@ {
                Ok((StationSubState::Elevation, xml))
            } else if tag == "site"@ {
                Ok((StationSubState::Site(SiteSubState::Initial), xml))
            } else if tag == "creationdate"@ {
                Ok((StationSubState::CreationDate, xml))
            } else if tag == "totalnumberchannels"@ {
                Ok((StationSubState::TotalNumberChannels, xml))
            } else if tag == "selectednumberchannels"@ {
                Ok((StationSubState::SelectedNumberChannels, xml))
            } else {
                match channel_start_outcome(full) {
                    Outcome::Gives(c) => Ok(
                        (
                            StationSubState::Channel(ChannelSubState::Initial),
                            xml.with_last_station(|s: StationView| station_push_channel(s, c)),
                        ),
                    ),
                    Outcome::Fails(e) => Err(e),
                    Outcome::Panics => Err(StationError::XMLStructureError),
                }
            },
            StationSubState::Site(st) => match st.start_spec(tag, full, xml) {
                Ok((s2, x2)) => Ok((StationSubState::Site(s2), x2)),
                Err(e) => Err(e),
            },
            StationSubState::Channel(c) => match c.start_spec(tag, full, xml) {
                Ok((c2, x2)) => Ok((StationSubState::Channel(c2), x2)),
                Err(e) => Err(e),
            },
            _ => Err(StationError::XMLStructureError),
        }
    }

    open spec fn admits_text(self, text: Seq<char>) -> bool {
        match self {
            StationSubState::CreationDate => !(date_text_outcome(text) is Panics),
            StationSubState::Site(s) => s.admits_text(text),
            StationSubState::Channel(c) => c.admits_text(text),
            _ => true,
        }
    }

    open spec fn text_ok(self, text: Seq<char>, xml: StationXMLView) -> bool {
        xml.has_last_station() && match self {
            StationSubState::CreationDate => !(date_text_outcome(text) is Panics),
            StationSubState::Site(s) => s.text_ok(text, xml),
            StationSubState::Channel(c) => c.text_ok(text, xml),
            _ => true,
        }
    }

    open spec fn text_spec(self, text: Seq<char>, xml: StationXMLView) -> Result<
        StationXMLView,
        StationError,
    > {
        match self {
            StationSubState::Latitude => set_station_decimal(xml, StationField::Latitude, text),
            StationSubState::Longitude => set_station_decimal(xml, StationField::Longitude, text),
            StationSubState::Elevation => set_station_decimal(xml, StationField::Elevation, text),
            StationSubState::Site(s) => s.text_spec(text, xml),
            StationSubState::CreationDate => match date_text_outcome(text) {
                Outcome::Gives(t) => Ok(
                    xml.with_last_station(|s: StationView| station_with_creation_date(s, t)),
                ),
                Outcome::Fails(e) => Err(e),
                Outcome::Panics => Err(StationError::InvalidTimeFormat),
            },
            StationSubState::Channel(c) => c.text_spec(text, xml),
            _ => Ok(xml),
        }
    }

    open spec fn end_spec(self) -> Result<EndEvent<Self>, StationError> {
        match self {
            StationSubState::Initial => Ok(EndEvent::Backtrack),
            StationSubState::Site(s) => match s.end_spec() {
                Err(e) => Err(e),
                Ok(EndEvent::Backtrack) => Ok(EndEvent::Continue(StationSubState::Initial)),
                Ok(EndEvent::Continue(s2)) => Ok(EndEvent::Continue(StationSubState::Site(s2))),
            },
            StationSubState::Channel(c) => match c.end_spec() {
                Err(e) => Err(e),
                Ok(EndEvent::Backtrack) => Ok(EndEvent::Continue(StationSubState::Initial)),
                Ok(EndEvent::Continue(c2)) => Ok(EndEvent::Continue(StationSubState::Channel(c2))),
            },
            _ => Ok(EndEvent::Continue(StationSubState::Initial)),
        }
    }

    proof fn lemma_start_ok(self, tag: Seq<char>, full: Seq<char>, xml: StationXMLView) {
        match self {
            StationSubState::Site(s) => s.lemma_start_ok(tag, full, xml),
            StationSubState::Channel(c) => c.lemma_start_ok(tag, full, xml),
            _ => {},
        }
    }

    proof fn lemma_start_placed(self, tag: Seq<char>, full: Seq<char>, xml: StationXMLView) {
        match self {
            StationSubState::Site(s) => s.lemma_start_placed(tag, full, xml),
            StationSubState::Channel(c) => c.lemma_start_placed(tag, full, xml),
            _ => {},
        }
    }

    proof fn lemma_text_ok(self, text: Seq<char>, xml: StationXMLView) {
        match self {
            StationSubState::Site(s) => s.lemma_text_ok(text, xml),
            StationSubState::Channel(c) => c.lemma_text_ok(text, xml),
            _ => {},
        }
    }

    proof fn lemma_text_placed(self, text: Seq<char>, xml: StationXMLView) {
        match self {
            StationSubState::Site(s) => s.lemma_text_placed(text, xml),
            StationSubState::Channel(c) => c.lemma_text_placed(text, xml),
            _ => {},
        }
    }

    proof fn lemma_end_placed(self, xml: StationXMLView) {
        match self {
            StationSubState::Site(s) => s.lemma_end_placed(xml),
            StationSubState::Channel(c) => c.lemma_end_placed(xml),
            _ => {},
        }
    }

    fn start_admissible(&self, tag_lowercase: &str, full_start_text: &str, xml: &StationXML) -> (r:
        bool) {
        match self {
            StationSubState::Initial => {
                let is_channel = str_equals(tag_lowercase, "channel");
                (str_equals(tag_lowercase, "latitude") || str_equals(tag_lowercase, "longitude") || str_equals(tag_lowercase, "elevation") || str_equals(tag_lowercase, "site") || str_equals(tag_lowercase, "creationdate") || str_equals(tag_lowercase, "totalnumberchannels") || str_equals(tag_lowercase, "selectednumberchannels") || is_channel) && (!is_channel || (
                !start_tag_date_panics(full_start_text) && xml.has_last_station()))
            },
            StationSubState::Site(st) => st.start_admissible(tag_lowercase, full_start_text, xml),
            StationSubState::Channel(c) => c.start_admissible(tag_lowercase, full_start_text, xml),
            _ => true,
        }
    }

    fn text_admissible(&self, text: &str, xml: &StationXML) -> (r: bool) {
        xml.has_last_station() && match self {
            StationSubState::CreationDate => !date_reading_panics(text),
            StationSubState::Site(st) => st.text_admissible(text, xml),
            StationSubState::Channel(c) => c.text_admissible(text, xml),
            _ => true,
        }
    }

    fn xml_start_event(self, tag_lowercase: &str, full_start_text: &str, xml: StationXML) -> (res:
        Result<(Self, StationXML), StationError>) {
        let mut xml = xml;
        match self {
            StationSubState::Initial => {
                if str_equals(tag_lowercase, "latitude") {
                    Ok((StationSubState::Latitude, xml))
                } else if str_equals(tag_lowercase, "longitude") {
                    Ok((StationSubState::Longitude, xml))
                } else if str_equals(tag_lowercase, "elevation") {
                    Ok((StationSubState::Elevation, xml))
                } else if str_equals(tag_lowercase, "site") {
                    Ok((StationSubState::Site(SiteSubState::Initial), xml))
                } else if str_equals(tag_lowercase, "creationdate") {
                    Ok((StationSubState::CreationDate, xml))
                } else if str_equals(tag_lowercase, "totalnumberchannels") {
                    Ok((StationSubState::TotalNumberChannels, xml))
                } else if str_equals(tag_lowercase, "selectednumberchannels") {
                    Ok((StationSubState::SelectedNumberChannels, xml))
                } else {
                    let channel = match ChannelSubState::from_start_text(full_start_text) {
                        Ok(c) => c,
                        Err(e) => return Err(e),
                    };
                    let ghost cv = channel.deep_view();
                    let op = StationOp::PushChannel(channel);
                    let ghost op_g = op;
                    update_last_station(&mut xml, op);
                    assert((|s: StationView| op_g.apply(s)) =~= (|s: StationView|
                        station_push_channel(s, cv)));
                    Ok((StationSubState::Channel(ChannelSubState::Initial), xml))
                }
            },
            StationSubState::Latitude => Err(StationError::XMLStructureError),
            StationSubState::Longitude => Err(StationError::XMLStructureError),
            StationSubState::Elevation => Err(StationError::XMLStructureError),
            StationSubState::Site(state) => {
                match state.xml_start_event(tag_lowercase, full_start_text, xml) {
                    Ok((state, xml)) => Ok((StationSubState::Site(state), xml)),
                    Err(e) => Err(e),
                }
            },
            StationSubState::CreationDate => Err(StationError::XMLStructureError),
            StationSubState::TotalNumberChannels => Err(StationError::XMLStructureError),
            StationSubState::SelectedNumberChannels => Err(StationError::XMLStructureError),
            StationSubState::Channel(state) => {
                match state.xml_start_event(tag_lowercase, full_start_text, xml) {
                    Ok((state, xml)) => Ok((StationSubState::Channel(state), xml)),
                    Err(e) => Err(e),
                }
            },
        }
    }

    fn xml_text_event(&self, text: &str, xml: StationXML) -> (res: Result<StationXML, StationError>) {
        let mut xml = xml;
        match self {
            StationSubState::Initial => Ok(xml),
            StationSubState::Latitude => station_decimal(xml, StationField::Latitude, text),
            StationSubState::Longitude => station_decimal(xml, StationField::Longitude, text),
            StationSubState::Elevation => station_decimal(xml, StationField::Elevation, text),
            StationSubState::Site(site) => site.xml_text_event(text, xml),
            StationSubState::CreationDate => {
                let t = match parse_to_date_time(text) {
                    Ok(t) => t,
                    Err(e) => return Err(e),
                };
                let op = StationOp::SetCreationDate(t);
                let ghost op_g = op;
                update_last_station(&mut xml, op);
                assert((|s: StationView| op_g.apply(s)) =~= (|s: StationView|
                    station_with_creation_date(s, t)));
                Ok(xml)
            },
            StationSubState::TotalNumberChannels => Ok(xml),
            StationSubState::SelectedNumberChannels => Ok(xml),
            StationSubState::Channel(channel) => channel.xml_text_event(text, xml),
        }
    }

    fn xml_end_event(self) -> (res: Result<EndEvent<Self>, StationError>) {
        match self {
            StationSubState::Initial => Ok(EndEvent::Backtrack),
            StationSubState::Latitude => Ok(EndEvent::Continue(StationSubState::Initial)),
            StationSubState::Longitude => Ok(EndEvent::Continue(StationSubState::Initial)),
            StationSubState::Elevation => Ok(EndEvent::Continue(StationSubState::Initial)),
            StationSubState::Site(state) => match state.xml_end_event() {
                Err(e) => Err(e),
                Ok(EndEvent::Backtrack) => Ok(EndEvent::Continue(StationSubState::Initial)),
                Ok(EndEvent::Continue(state)) => Ok(EndEvent::Continue(StationSubState::Site(state))),
            },
            StationSubState::CreationDate => Ok(EndEvent::Continue(StationSubState::Initial)),
            StationSubState::TotalNumberChannels => Ok(EndEvent::Continue(StationSubState::Initial)),
            StationSubState::SelectedNumberChannels => Ok(
                EndEvent::Continue(StationSubState::Initial),
            ),
            StationSubState::Channel(state) => match state.xml_end_event() {
                Err(e) => Err(e),
                Ok(EndEvent::Backtrack) => Ok(EndEvent::Continue(StationSubState::Initial)),
                Ok(EndEvent::Continue(state)) => Ok(
                    EndEvent::Continue(StationSubState::Channel(state)),
                ),
            },
        }
    }
}

/// Inside a `Network` element.
#[derive(Clone, Copy, PartialEq, Eq, Debug, Structural)]
pub enum NetworkSubState {
    Initial,
    Description,
    Identifier,
    TotalNumberStations,
    SelectedNumberStations,
    Station(StationSubState),
}

impl NetworkSubState {
    /// A network element's start tag, read into a network without stations.
    pub fn network_from_start_text(start_text: &str) -> (res: Result<Network, StationError>)
        requires
            !(network_start_outcome(start_text@) is Panics),
        ensures
            result_matches(res, network_start_outcome(start_text@)),
    {
        let header_map = match parse_header(start_text) {
            Ok(h) => h,
            Err(e) => return Err(e),
        };
        let start_date = match read_start_date(&header_map) {
            Ok(d) => d,
            Err(e) => return Err(e),
        };
        let n = Network {
            code: clone_opt_string(header_map.get("code")),
            start_date,
            restricted_status: clone_opt_string(header_map.get("restrictedStatus")),
            stations: Vec::new(),
        };
        assert(n.stations.deep_view() =~= Seq::<StationView>::empty());
        Ok(n)
    }
}

impl SubState for NetworkSubState {
    open spec fn placed(self, xml: StationXMLView) -> bool {
        xml.has_last_network() && match self {
            NetworkSubState::Station(s) => s.placed(xml),
            _ => true,
        }
    }

    open spec fn admits_start(self, tag: Seq<char>, full: Seq<char>) -> bool {
        match self {
            NetworkSubState::Initial => (tag == "description"@ || tag == "identifier"@ || tag
                == "totalnumberstations"@ || tag == "selectednumberstations"@ || tag
                == "station"@) && (tag == "station"@ ==> !(station_start_outcome(full) is Panics)),
            NetworkSubState::Station(s) => s.admits_start(tag, full),
            _ => true,
        }
    }

    open spec fn start_ok(self, tag: Seq<char>, full: Seq<char>, xml: StationXMLView) -> bool {
        match self {
            NetworkSubState::Initial => self.admits_start(tag, full) && (tag == "station"@
                ==> xml.has_last_network()),
            NetworkSubState::Station(s) => s.start_ok(tag, full, xml),
            _ => true,
        }
    }

    open spec fn start_spec(self, tag: Seq<char>, full: Seq<char>, xml: StationXMLView) -> Result<
        (Self, StationXMLView),
        StationError,
    > {
        match self {
            NetworkSubState::Initial => if tag == "description"@ {
                Ok((NetworkSubState::Description, xml))
            } else if tag == "identifier"@ {
                Ok((NetworkSubState::Identifier, xml))
            } else if tag == "totalnumberstations"@ {
                Ok((NetworkSubState::TotalNumberStations, xml))
            } else if tag == "selectednumberstations"@ {
                Ok((NetworkSubState::SelectedNumberStations, xml))
            } else {
                match station_start_outcome(full) {
                    Outcome::Gives(st) => Ok(
                        (
                            NetworkSubState::Station(StationSubState::Initial),
                            xml.with_last_network(
                                |n: NetworkView| NetworkView { stations: n.stations.push(st), ..n },
                            ),
                        ),
                    ),
                    Outcome::Fails(e) => Err(e),
                    Outcome::Panics => Err(StationError::XMLStructureError),
                }
            },
            NetworkSubState::Station(st) => match st.start_spec(tag, full, xml) {
                Ok((s2, x2)) => Ok((NetworkSubState::Station(s2), x2)),
                Err(e) => Err(e),
            },
            _ => Err(StationError::XMLStructureError),
        }
    }

    open spec fn admits_text(self, text: Seq<char>) -> bool {
        match self {
            NetworkSubState::Station(s) => s.admits_text(text),
            _ => true,
        }
    }

    open spec fn text_ok(self, text: Seq<char>, xml: StationXMLView) -> bool {
        match self {
            NetworkSubState::Station(s) => s.text_ok(text, xml),
            _ => true,
        }
    }

    open spec fn text_spec(self, text: Seq<char>, xml: StationXMLView) -> Result<
        StationXMLView,
        StationError,
    > {
        match self {
            NetworkSubState::Station(s) => s.text_spec(text, xml),
            _ => Ok(xml),
        }
    }

    open spec fn end_spec(self) -> Result<EndEvent<Self>, StationError> {
        match self {
            NetworkSubState::Initial => Ok(EndEvent::Backtrack),
            NetworkSubState::Station(s) => match s.end_spec() {
                Err(e) => Err(e),
                Ok(EndEvent::Backtrack) => Ok(EndEvent::Continue(NetworkSubState::Initial)),
                Ok(EndEvent::Continue(s2)) => Ok(EndEvent::Continue(NetworkSubState::Station(s2))),
            },
            _ => Ok(EndEvent::Continue(NetworkSubState::Initial)),
        }
    }

    proof fn lemma_start_ok(self, tag: Seq<char>, full: Seq<char>, xml: StationXMLView) {
        match self {
            NetworkSubState::Station(s) => s.lemma_start_ok(tag, full, xml),
            _ => {},
        }
    }

    proof fn lemma_start_placed(self, tag: Seq<char>, full: Seq<char>, xml: StationXMLView) {
        match self {
            NetworkSubState::Station(s) => s.lemma_start_placed(tag, full, xml),
            _ => {},
        }
    }

    proof fn lemma_text_ok(self, text: Seq<char>, xml: StationXMLView) {
        match self {
            NetworkSubState::Station(s) => s.lemma_text_ok(text, xml),
            _ => {},
        }
    }

    proof fn lemma_text_placed(self, text: Seq<char>, xml: StationXMLView) {
        match self {
            NetworkSubState::Station(s) => s.lemma_text_placed(text, xml),
            _ => {},
        }
    }

    proof fn lemma_end_placed(self, xml: StationXMLView) {
        match self {
            NetworkSubState::Station(s) => s.lemma_end_placed(xml),
            _ => {},
        }
    }

    fn start_admissible(&self, tag_lowercase: &str, full_start_text: &str, xml: &StationXML) -> (r:
        bool) {
        match self {
            NetworkSubState::Initial => {
                let is_station = str_equals(tag_lowercase, "station");
                (str_equals(tag_lowercase, "description") || str_equals(tag_lowercase, "identifier") || str_equals(tag_lowercase, "totalnumberstations") || str_equals(tag_lowercase, "selectednumberstations") || is_station) && (!is_station || (!start_tag_date_panics(
                full_start_text) && xml.has_last_network()))
            },
            NetworkSubState::Station(st) => st.start_admissible(tag_lowercase, full_start_text, xml),
            _ => true,
        }
    }

    fn text_admissible(&self, text: &str, xml: &StationXML) -> (r: bool) {
        match self {
            NetworkSubState::Station(st) => st.text_admissible(text, xml),
            _ => true,
        }
    }

    fn xml_start_event(self, tag_lowercase: &str, full_start_text: &str, xml: StationXML) -> (res:
        Result<(Self, StationXML), StationError>) {
        let mut xml = xml;
        match self {
            NetworkSubState::Initial => {
                if str_equals(tag_lowercase, "description") {
                    Ok((NetworkSubState::Description, xml))
                } else if str_equals(tag_lowercase, "identifier") {
                    Ok((NetworkSubState::Identifier, xml))
                } else if str_equals(tag_lowercase, "totalnumberstations") {
                    Ok((NetworkSubState::TotalNumberStations, xml))
                } else if str_equals(tag_lowercase, "selectednumberstations") {
                    Ok((NetworkSubState::SelectedNumberStations, xml))
                } else {
                    let station = match StationSubState::from_start_text(full_start_text) {
                        Ok(s) => s,
                        Err(e) => return Err(e),
                    };
                    push_station(&mut xml, station);
                    Ok((NetworkSubState::Station(StationSubState::Initial), xml))
                }
            },
            NetworkSubState::Description => Err(StationError::XMLStructureError),
            NetworkSubState::Identifier => Err(StationError::XMLStructureError),
            NetworkSubState::TotalNumberStations => Err(StationError::XMLStructureError),
            NetworkSubState::SelectedNumberStations => Err(StationError::XMLStructureError),
            NetworkSubState::Station(state) => {
                match state.xml_start_event(tag_lowercase, full_start_text, xml) {
                    Ok((state, xml)) => Ok((NetworkSubState::Station(state), xml)),
                    Err(e) => Err(e),
                }
            },
        }
    }

    fn xml_text_event(&self, text: &str, xml: StationXML) -> (res: Result<StationXML, StationError>) {
        match self {
            NetworkSubState::Station(state) => state.xml_text_event(text, xml),
            _ => Ok(xml),
        }
    }

    fn xml_end_event(self) -> (res: Result<EndEvent<Self>, StationError>) {
        match self {
            NetworkSubState::Initial => Ok(EndEvent::Backtrack),
            NetworkSubState::Description => Ok(EndEvent::Continue(NetworkSubState::Initial)),
            NetworkSubState::Identifier => Ok(EndEvent::Continue(NetworkSubState::Initial)),
            NetworkSubState::TotalNumberStations => Ok(EndEvent::Continue(NetworkSubState::Initial)),
            NetworkSubState::SelectedNumberStations => Ok(
                EndEvent::Continue(NetworkSubState::Initial),
            ),
            NetworkSubState::Station(state) => match state.xml_end_event() {
                Err(e) => Err(e),
                Ok(EndEvent::Backtrack) => Ok(EndEvent::Continue(NetworkSubState::Initial)),
                Ok(EndEvent::Continue(state)) => Ok(
                    EndEvent::Continue(NetworkSubState::Station(state)),
                ),
            },
        }
    }
}

/// The reader's state in an FDSN StationXML document.
#[derive(Clone, Copy, PartialEq, Eq, Debug, Structural)]
pub enum FDSNStationXMLState {
    Initial,
    Source,
    Sender,
    Module,
    ModuleUri,
    Created,
    Network(NetworkSubState),
}

impl SubState for FDSNStationXMLState {
    open spec fn placed(self, xml: StationXMLView) -> bool {
        match self {
            FDSNStationXMLState::Network(n) => n.placed(xml),
            _ => true,
        }
    }

    open spec fn admits_start(self, tag: Seq<char>, full: Seq<char>) -> bool {
        match self {
            FDSNStationXMLState::Initial => (tag == "source"@ || tag == "sender"@ || tag
                == "module"@ || tag == "moduleuri"@ || tag == "created"@ || tag == "network"@) && (
            tag == "network"@ ==> !(network_start_outcome(full) is Panics)),
            FDSNStationXMLState::Network(n) => n.admits_start(tag, full),
            _ => true,
        }
    }

    open spec fn start_ok(self, tag: Seq<char>, full: Seq<char>, xml: StationXMLView) -> bool {
        match self {
            FDSNStationXMLState::Network(n) => n.start_ok(tag, full, xml),
            _ => self.admits_start(tag, full),
        }
    }

    open spec fn start_spec(self, tag: Seq<char>, full: Seq<char>, xml: StationXMLView) -> Result<
        (Self, StationXMLView),
        StationError,
    > {
        match self {
            FDSNStationXMLState::Initial => if tag == "source"@ {
                Ok((FDSNStationXMLState::Source, xml))
            } else if tag == "sender"@ {
                Ok((FDSNStationXMLState::Sender, xml))
            } else if tag == "module"@ {
                Ok((FDSNStationXMLState::Module, xml))
            } else if tag == "moduleuri"@ {
                Ok((FDSNStationXMLState::ModuleUri, xml))
            } else if tag == "created"@ {
                Ok((FDSNStationXMLState::Created, xml))
            } else {
                match network_start_outcome(full) {
                    Outcome::Gives(n) => Ok(
                        (
                            FDSNStationXMLState::Network(NetworkSubState::Initial),
                            StationXMLView { networks: xml.networks.push(n), ..xml },
                        ),
                    ),
                    Outcome::Fails(e) => Err(e),
                    Outcome::Panics => Err(StationError::XMLStructureError),
                }
            },
            FDSNStationXMLState::Network(n) => match n.start_spec(tag, full, xml) {
                Ok((n2, x2)) => Ok((FDSNStationXMLState::Network(n2), x2)),
                Err(e) => Err(e),
            },
            _ => Err(StationError::XMLStructureError),
        }
    }

    open spec fn admits_text(self, text: Seq<char>) -> bool {
        match self {
            FDSNStationXMLState::Created => !(date_text_outcome(text) is Panics),
            FDSNStationXMLState::Network(n) => n.admits_text(text),
            _ => true,
        }
    }

    open spec fn text_ok(self, text: Seq<char>, xml: StationXMLView) -> bool {
        match self {
            FDSNStationXMLState::Network(n) => n.text_ok(text, xml),
            _ => self.admits_text(text),
        }
    }

    open spec fn text_spec(self, text: Seq<char>, xml: StationXMLView) -> Result<
        StationXMLView,
        StationError,
    > {
        match self {
            FDSNStationXMLState::Initial => Ok(xml),
            FDSNStationXMLState::Network(n) => n.text_spec(text, xml),
            FDSNStationXMLState::Source => Ok(StationXMLView { source: text, ..xml }),
            FDSNStationXMLState::Sender => Ok(StationXMLView { sender: text, ..xml }),
            FDSNStationXMLState::Module => Ok(StationXMLView { module: text, ..xml }),
            FDSNStationXMLState::ModuleUri => Ok(StationXMLView { module_uri: text, ..xml }),
            FDSNStationXMLState::Created => match date_text_outcome(text) {
                Outcome::Gives(t) => Ok(StationXMLView { creation_date: Some(t), ..xml }),
                Outcome::Fails(e) => Err(e),
                Outcome::Panics => Err(StationError::InvalidTimeFormat),
            },
        }
    }

    open spec fn end_spec(self) -> Result<EndEvent<Self>, StationError> {
        match self {
            FDSNStationXMLState::Initial => Ok(EndEvent::Backtrack),
            FDSNStationXMLState::Network(n) => match n.end_spec() {
                Err(e) => Err(e),
                Ok(EndEvent::Backtrack) => Ok(EndEvent::Continue(FDSNStationXMLState::Initial)),
                Ok(EndEvent::Continue(n2)) => Ok(
                    EndEvent::Continue(FDSNStationXMLState::Network(n2)),
                ),
            },
            _ => Ok(EndEvent::Continue(FDSNStationXMLState::Initial)),
        }
    }

    proof fn lemma_start_ok(self, tag: Seq<char>, full: Seq<char>, xml: StationXMLView) {
        match self {
            FDSNStationXMLState::Network(n) => n.lemma_start_ok(tag, full, xml),
            _ => {},
        }
    }

    proof fn lemma_start_placed(self, tag: Seq<char>, full: Seq<char>, xml: StationXMLView) {
        match self {
            FDSNStationXMLState::Network(n) => n.lemma_start_placed(tag, full, xml),
            _ => {},
        }
    }

    proof fn lemma_text_ok(self, text: Seq<char>, xml: StationXMLView) {
        match self {
            FDSNStationXMLState::Network(n) => n.lemma_text_ok(text, xml),
            _ => {},
        }
    }

    proof fn lemma_text_placed(self, text: Seq<char>, xml: StationXMLView) {
        match self {
            FDSNStationXMLState::Network(n) => n.lemma_text_placed(text, xml),
            _ => {},
        }
    }

    proof fn lemma_end_placed(self, xml: StationXMLView) {
        match self {
            FDSNStationXMLState::Network(n) => n.lemma_end_placed(xml),
            _ => {},
        }
    }

    fn start_admissible(&self, tag_lowercase: &str, full_start_text: &str, xml: &StationXML) -> (r:
        bool) {
        match self {
            FDSNStationXMLState::Initial => {
                let is_network = str_equals(tag_lowercase, "network");
                (str_equals(tag_lowercase, "source") || str_equals(tag_lowercase, "sender") || str_equals(tag_lowercase, "module") || str_equals(tag_lowercase, "moduleuri") || str_equals(tag_lowercase, "created") || is_network) && (!is_network || !start_tag_date_panics(full_start_text))
            },
            FDSNStationXMLState::Network(n) => n.start_admissible(tag_lowercase, full_start_text, xml),
            _ => true,
        }
    }

    fn text_admissible(&self, text: &str, xml: &StationXML) -> (r: bool) {
        match self {
            FDSNStationXMLState::Network(n) => n.text_admissible(text, xml),
            FDSNStationXMLState::Created => !date_reading_panics(text),
            _ => true,
        }
    }

    fn xml_start_event(self, tag_lowercase: &str, full_start_text: &str, xml: StationXML) -> (res:
        Result<(Self, StationXML), StationError>) {
        let mut xml = xml;
        match self {
            FDSNStationXMLState::Initial => {
                if str_equals(tag_lowercase, "source") {
                    Ok((FDSNStationXMLState::Source, xml))
                } else if str_equals(tag_lowercase, "sender") {
                    Ok((FDSNStationXMLState::Sender, xml))
                } else if str_equals(tag_lowercase, "module") {
                    Ok((FDSNStationXMLState::Module, xml))
                } else if str_equals(tag_lowercase, "moduleuri") {
                    Ok((FDSNStationXMLState::ModuleUri, xml))
                } else if str_equals(tag_lowercase, "created") {
                    Ok((FDSNStationXMLState::Created, xml))
                } else {
                    let network = match NetworkSubState::network_from_start_text(full_start_text) {
                        Ok(n) => n,
                        Err(e) => return Err(e),
                    };
                    push_network(&mut xml, network);
                    Ok((FDSNStationXMLState::Network(NetworkSubState::Initial), xml))
                }
            },
            FDSNStationXMLState::Network(state) => {
                match state.xml_start_event(tag_lowercase, full_start_text, xml) {
                    Ok((state, xml)) => Ok((FDSNStationXMLState::Network(state), xml)),
                    Err(e) => Err(e),
                }
            },
            FDSNStationXMLState::Source => Err(StationError::XMLStructureError),
            FDSNStationXMLState::Sender => Err(StationError::XMLStructureError),
            FDSNStationXMLState::Module => Err(StationError::XMLStructureError),
            FDSNStationXMLState::ModuleUri => Err(StationError::XMLStructureError),
            FDSNStationXMLState::Created => Err(StationError::XMLStructureError),
        }
    }

    fn xml_text_event(&self, text: &str, xml: StationXML) -> (res: Result<StationXML, StationError>) {
        let mut xml = xml;
        match self {
            FDSNStationXMLState::Initial => {},
            FDSNStationXMLState::Network(state) => {
                xml = match state.xml_text_event(text, xml) {
                    Ok(x) => x,
                    Err(e) => return Err(e),
                };
            },
            FDSNStationXMLState::Source => {
                xml.source = text.to_string();
            },
            FDSNStationXMLState::Sender => {
                xml.sender = text.to_string();
            },
            FDSNStationXMLState::Module => {
                xml.module = text.to_string();
            },
            FDSNStationXMLState::ModuleUri => {
                xml.module_uri = text.to_string();
            },
            FDSNStationXMLState::Created => {
                xml.creation_date = Some(
                    match parse_to_date_time(text) {
                        Ok(t) => t,
                        Err(e) => return Err(e),
                    },
                );
            },
        }
        Ok(xml)
    }

    fn xml_end_event(self) -> (res: Result<EndEvent<Self>, StationError>) {
        match self {
            FDSNStationXMLState::Initial => Ok(EndEvent::Backtrack),
            FDSNStationXMLState::Network(state) => match state.xml_end_event() {
                Err(e) => Err(e),
                Ok(EndEvent::Backtrack) => Ok(EndEvent::Continue(FDSNStationXMLState::Initial)),
                Ok(EndEvent::Continue(state)) => Ok(
                    EndEvent::Continue(FDSNStationXMLState::Network(state)),
                ),
            },
            FDSNStationXMLState::Source => Ok(EndEvent::Continue(FDSNStationXMLState::Initial)),
            FDSNStationXMLState::Sender => Ok(EndEvent::Continue(FDSNStationXMLState::Initial)),
            FDSNStationXMLState::Module => Ok(EndEvent::Continue(FDSNStationXMLState::Initial)),
            FDSNStationXMLState::ModuleUri => Ok(EndEvent::Continue(FDSNStationXMLState::Initial)),
            FDSNStationXMLState::Created => Ok(EndEvent::Continue(FDSNStationXMLState::Initial)),
        }
    }
}

/// The reader stands in a sensor's `Description` element, where another `Description`
/// start tag is read as the same state.
pub open spec fn in_sensor_description(s: FDSNStationXMLState) -> bool {
    s matches FDSNStationXMLState::Network(
        NetworkSubState::Station(
            StationSubState::Channel(ChannelSubState::Sensor(SensorSubState::Description)),
        ),
    )
}

/// An end tag returns the reader to the state it was in before the matching start tag,
/// at every depth (but inside a sensor's description, see `in_sensor_description`).
pub proof fn lemma_end_undoes_start(
    s: FDSNStationXMLState,
    tag: Seq<char>,
    full: Seq<char>,
    xml: StationXMLView,
)
    requires
        s.start_spec(tag, full, xml) is Ok,
        !in_sensor_description(s),
    ensures
        s.start_spec(tag, full, xml)->Ok_0.0.end_spec() == Ok::<
            EndEvent<FDSNStationXMLState>,
            StationError,
        >(EndEvent::Continue(s)),
{
}

/// An end tag never fails: the reader leaves the document's root (`Backtrack`) from its
/// first state, and goes on in another state from every other.
pub proof fn lemma_end_never_fails(s: FDSNStationXMLState)
    ensures
        s.end_spec() is Ok,
        s == FDSNStationXMLState::Initial ==> s.end_spec() == Ok::<
            EndEvent<FDSNStationXMLState>,
            StationError,
        >(EndEvent::Backtrack),
        s != FDSNStationXMLState::Initial ==> s.end_spec() matches Ok(EndEvent::Continue(_)),
{
}

/// Reading the text of one of a channel's number elements (`Latitude`, `Longitude`,
/// `Elevation`, `Depth`, `Azimuth`, `Dip`, `SampleRate`, `ClockDrift`) stores the text in
/// that field of the last channel and changes nothing else in the document.
pub proof fn lemma_channel_text_sets_its_field(xml: StationXMLView, text: Seq<char>)
    requires
        xml.has_last_channel(),
        decimal_text(text) is Ok,
    ensures
        ChannelSubState::Latitude.text_spec(text, xml) == Ok::<StationXMLView, StationError>(
            xml.with_last_channel(|c: ChannelView| ChannelView { latitude: Some(text), ..c }),
        ),
        ChannelSubState::Longitude.text_spec(text, xml) == Ok::<StationXMLView, StationError>(
            xml.with_last_channel(|c: ChannelView| ChannelView { longitude: Some(text), ..c }),
        ),
        ChannelSubState::Elevation.text_spec(text, xml) == Ok::<StationXMLView, StationError>(
            xml.with_last_channel(|c: ChannelView| ChannelView { elevation: Some(text), ..c }),
        ),
        ChannelSubState::Depth.text_spec(text, xml) == Ok::<StationXMLView, StationError>(
            xml.with_last_channel(|c: ChannelView| ChannelView { depth: Some(text), ..c }),
        ),
        ChannelSubState::Azimuth.text_spec(text, xml) == Ok::<StationXMLView, StationError>(
            xml.with_last_channel(|c: ChannelView| ChannelView { azimuth: Some(text), ..c }),
        ),
        ChannelSubState::Dip.text_spec(text, xml) == Ok::<StationXMLView, StationError>(
            xml.with_last_channel(|c: ChannelView| ChannelView { dip: Some(text), ..c }),
        ),
        ChannelSubState::SampleRate.text_spec(text, xml) == Ok::<StationXMLView, StationError>(
            xml.with_last_channel(|c: ChannelView| ChannelView { sample_rate: Some(text), ..c }),
        ),
        ChannelSubState::ClockDrift.text_spec(text, xml) == Ok::<StationXMLView, StationError>(
            xml.with_last_channel(|c: ChannelView| ChannelView { clock_drift: Some(text), ..c }),
        ),
{
    assert((|s: StationView| station_set_channel_text(s, ChannelField::Latitude, text)) =~= (|s: StationView|
        StationView {
            channels: s.channels.update(
                s.channels.len() - 1,
                ChannelView { latitude: Some(text), ..s.channels.last() },
            ),
            ..s
        }));
    assert((|s: StationView| station_set_channel_text(s, ChannelField::Longitude, text)) =~= (|s: StationView|
        StationView {
            channels: s.channels.update(
                s.channels.len() - 1,
                ChannelView { longitude: Some(text), ..s.channels.last() },
            ),
            ..s
        }));
    assert((|s: StationView| station_set_channel_text(s, ChannelField::Elevation, text)) =~= (|s: StationView|
        StationView {
            channels: s.channels.update(
                s.channels.len() - 1,
                ChannelView { elevation: Some(text), ..s.channels.last() },
            ),
            ..s
        }));
    assert((|s: StationView| station_set_channel_text(s, ChannelField::Depth, text)) =~= (|s: StationView|
        StationView {
            channels: s.channels.update(
                s.channels.len() - 1,
                ChannelView { depth: Some(text), ..s.channels.last() },
            ),
            ..s
        }));
    assert((|s: StationView| station_set_channel_text(s, ChannelField::Azimuth, text)) =~= (|s: StationView|
        StationView {
            channels: s.channels.update(
                s.channels.len() - 1,
                ChannelView { azimuth: Some(text), ..s.channels.last() },
            ),
            ..s
        }));
    assert((|s: StationView| station_set_channel_text(s, ChannelField::Dip, text)) =~= (|s: StationView|
        StationView {
            channels: s.channels.update(
                s.channels.len() - 1,
                ChannelView { dip: Some(text), ..s.channels.last() },
            ),
            ..s
        }));
    assert((|s: StationView| station_set_channel_text(s, ChannelField::SampleRate, text)) =~= (|s: StationView|
        StationView {
            channels: s.channels.update(
                s.channels.len() - 1,
                ChannelView { sample_rate: Some(text), ..s.channels.last() },
            ),
            ..s
        }));
    assert((|s: StationView| station_set_channel_text(s, ChannelField::ClockDrift, text)) =~= (|s: StationView|
        StationView {
            channels: s.channels.update(
                s.channels.len() - 1,
                ChannelView { clock_drift: Some(text), ..s.channels.last() },
            ),
            ..s
        }));
}

/// A text that is not a decimal number is refused by every number element of a channel,
/// with the kind of error that std's float parsing gives.
pub proof fn lemma_channel_text_not_a_number(xml: StationXMLView, text: Seq<char>)
    requires
        decimal_text(text) is Err,
    ensures
        forall|s: ChannelSubState|
            (s is Latitude || s is Longitude || s is Elevation || s is Depth || s is Azimuth
                || s is Dip || s is SampleRate || s is ClockDrift) ==> #[trigger] s.text_spec(
                text,
                xml,
            ) == Err::<StationXMLView, StationError>(
                StationError::ParseFloatError(decimal_text(text)->Err_0),
            ),
{
}

/// The channel that a start tag opens takes its code from the `code` attribute, and its
/// location code from the `locationCode` attribute, an empty one standing for none.
pub proof fn lemma_channel_start_attributes(text: Seq<char>)
    ensures
        channel_start_outcome(text) matches Outcome::Gives(c) ==> parse_header_spec(text) matches Ok(m)
            && c.code == (if m.dom().contains("code"@) {
            Some(m["code"@])
        } else {
            None
        }) && (m.dom().contains("locationCode"@) && m["locationCode"@].len() > 0 ==> c.location_code
            == Some(m["locationCode"@])) && (!m.dom().contains("locationCode"@)
            || m["locationCode"@].len() == 0 ==> c.location_code is None),
        station_start_outcome(text) matches Outcome::Gives(st) ==> parse_header_spec(text) matches Ok(m)
            && st.code == (if m.dom().contains("code"@) {
            Some(m["code"@])
        } else {
            None
        }),
        network_start_outcome(text) matches Outcome::Gives(n) ==> parse_header_spec(text) matches Ok(m)
            && n.code == (if m.dom().contains("code"@) {
            Some(m["code"@])
        } else {
            None
        }),
{
}

} // verus!
