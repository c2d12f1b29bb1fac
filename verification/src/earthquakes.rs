//! Queries of the earthquake catalogue database.
use vstd::prelude::*;
use vstd::string::StringExecFns;

verus! {

/// Where the catalogue database is found.
pub struct ConnectionBuilder {
    pub database_path: String,
}

impl ConnectionBuilder {
    pub const DEFAULT_DATABASE_PATH: &'static str = "../all_events.db";

    pub fn with_database_path(self, database_path: String) -> (res: ConnectionBuilder)
        ensures
            res.database_path == database_path,
    {
        let mut s = self;
        s.database_path = database_path;
        s
    }
}

impl Default for ConnectionBuilder {
    fn default() -> (res: ConnectionBuilder)
        ensures
            res.database_path@ == "../all_events.db"@,
    {
        ConnectionBuilder { database_path: String::from_str(ConnectionBuilder::DEFAULT_DATABASE_PATH) }
    }
}

/// Which events to ask for.
pub struct EventQuery {
    pub maximum_events_returned: Option<i64>,
    pub event_name: Option<String>,
}

impl Default for EventQuery {
    fn default() -> (res: EventQuery)
        ensures
            res.maximum_events_returned is None,
            res.event_name is None,
    {
        EventQuery { maximum_events_returned: None, event_name: None }
    }
}

/// A parameter bound to a placeholder of the query text.
#[derive(Clone, Debug, PartialEq)]
pub enum QueryParameter {
    Text(String),
    Integer(i64),
}

/// The selection of event name, position, time and magnitude, joined over the catalogue's tables.
pub const EVENT_SELECTION: &'static str = "
            SELECT 
                aecevent.eventname,
                origin.lat,
                origin.lon,
                origin.time,
                netmag.magnitude, 
                netmag.magtype 
            FROM aecevent 
            JOIN event ON aecevent.evid = event.evid 
            JOIN origin ON event.prefor = origin.orid
            JOIN netmag ON origin.mlid = netmag.magid
            ";

impl EventQuery {
    /// Limits the number of events, which must be positive.
    pub fn with_maximum_events_returned(self, maximum_events_returned: i64) -> (res: EventQuery)
        requires
            maximum_events_returned > 0,
        ensures
            res.maximum_events_returned == Some(maximum_events_returned),
            res.event_name == self.event_name,
    {
        let mut s = self;
        s.maximum_events_returned = Some(maximum_events_returned);
        s
    }

    pub fn with_event_name(self, event_name: String) -> (res: EventQuery)
        ensures
            res.event_name == Some(event_name),
            res.maximum_events_returned == self.maximum_events_returned,
    {
        let mut s = self;
        s.event_name = Some(event_name);
        s
    }

    /// The text of the query: the selection, then a condition on the event name with the
    /// first placeholder if a name is asked for, then a limit with the next placeholder.
    pub open spec fn sql_text(self) -> Seq<char> {
        let named = self.event_name is Some;
        let with_name = if named {
            EVENT_SELECTION@ + "WHERE aecevent.eventname = ?1"@
        } else {
            EVENT_SELECTION@
        };
        match self.maximum_events_returned {
            Some(_) => with_name + (if named { " LIMIT ?2"@ } else { " LIMIT ?1"@ }),
            None => with_name,
        }
    }

    /// The values of the placeholders, in their order.
    pub open spec fn sql_parameters(self) -> Seq<QueryParameter> {
        let names = match self.event_name {
            Some(n) => seq![QueryParameter::Text(n)],
            None => Seq::empty(),
        };
        match self.maximum_events_returned {
            Some(m) => names.push(QueryParameter::Integer(m)),
            None => names,
        }
    }

    /// The query text and its parameters, as the database is asked.
    pub fn to_sql(&self) -> (res: (String, Vec<QueryParameter>))
        ensures
            res.0@ == self.sql_text(),
            res.1@ == self.sql_parameters(),
    {
        let mut params: Vec<QueryParameter> = Vec::new();
        let mut base_query = String::from_str(EVENT_SELECTION);
        let mut number_parameters_added: u64 = 0;
        if let Some(event_name) = &self.event_name {
            base_query.append("WHERE aecevent.eventname = ?1");
            params.push(QueryParameter::Text(event_name.clone()));
            number_parameters_added = number_parameters_added + 1;
        }
        if let Some(max_events) = self.maximum_events_returned {
            if number_parameters_added == 0 {
                base_query.append(" LIMIT ?1");
            } else {
                base_query.append(" LIMIT ?2");
            }
            params.push(QueryParameter::Integer(max_events));
        }
        assert(params@ =~= self.sql_parameters());
        (base_query, params)
    }
}

/// A query for a named event selects that event: the text is the selection followed by
/// the condition on the event name with the first placeholder, and the first parameter is
/// the name, whether or not a limit is set.
pub proof fn lemma_named_query_selects_the_name(q: EventQuery)
    requires
        q.event_name is Some,
    ensures
        q.sql_text().len() >= EVENT_SELECTION@.len() + "WHERE aecevent.eventname = ?1"@.len(),
        q.sql_text().take((EVENT_SELECTION@.len() + "WHERE aecevent.eventname = ?1"@.len()) as int)
            == EVENT_SELECTION@ + "WHERE aecevent.eventname = ?1"@,
        q.sql_parameters().len() >= 1,
        q.sql_parameters()[0] == QueryParameter::Text(q.event_name.unwrap()),
{
    let p = EVENT_SELECTION@ + "WHERE aecevent.eventname = ?1"@;
    match q.maximum_events_returned {
        Some(_) => {
            assert((p + " LIMIT ?2"@).take(p.len() as int) =~= p);
        },
        None => {
            assert(p.take(p.len() as int) =~= p);
        },
    }
}

/// A limit is the last parameter, and the limit clause names it by its position among the
/// parameters; a query with neither name nor limit is the bare selection with no
/// parameters.
pub proof fn lemma_limit_is_the_last_parameter(q: EventQuery)
    ensures
        q.maximum_events_returned matches Some(m) ==> q.sql_parameters().len() >= 1
            && q.sql_parameters().last() == QueryParameter::Integer(m) && (q.sql_parameters().len()
            == 1 ==> q.sql_text().skip(q.sql_text().len() - " LIMIT ?1"@.len()) == " LIMIT ?1"@) && (
        q.sql_parameters().len() == 2 ==> q.sql_text().skip(q.sql_text().len() - " LIMIT ?2"@.len())
            == " LIMIT ?2"@),
        q.event_name is None && q.maximum_events_returned is None ==> q.sql_text() == EVENT_SELECTION@
            && q.sql_parameters().len() == 0,
        q.event_name is None ==> forall|i: int|
            0 <= i < q.sql_parameters().len() ==> !(#[trigger] q.sql_parameters()[i] is Text),
{
    let w = if q.event_name is Some {
        EVENT_SELECTION@ + "WHERE aecevent.eventname = ?1"@
    } else {
        EVENT_SELECTION@
    };
    assert((w + " LIMIT ?1"@).skip(w.len() as int) =~= " LIMIT ?1"@);
    assert((w + " LIMIT ?2"@).skip(w.len() as int) =~= " LIMIT ?2"@);
    reveal_strlit(" LIMIT ?1");
    reveal_strlit(" LIMIT ?2");
}

} // verus!
