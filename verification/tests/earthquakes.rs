use seismology::earthquakes::{ConnectionBuilder, EventQuery, QueryParameter, EVENT_SELECTION};

#[test]
fn db_connection_default_path() {
    let builder = ConnectionBuilder::default();
    assert_eq!(
        builder.database_path,
        ConnectionBuilder::DEFAULT_DATABASE_PATH
    );
}

#[test]
fn update_db_path() {
    let new_path = "./foo.db";
    let builder = ConnectionBuilder::default().with_database_path(new_path.to_string());
    assert_eq!(builder.database_path, new_path);
}

#[test]
fn event_query_empty_defaults() {
    let query = EventQuery::default();
    assert_eq!(query.maximum_events_returned, None);
    assert_eq!(query.event_name, None);
}

#[test]
fn with_event_name() {
    for i in 0..3 {
        let name = i.to_string();
        let query = EventQuery::default().with_event_name(name.clone());
        assert_eq!(query.event_name, Some(name));
    }
}

#[test]
fn event_query_update_defaults() {
    let m = 1000;
    let query = EventQuery::default().with_maximum_events_returned(m);
    assert_eq!(query.maximum_events_returned, Some(m));
}

#[test]
fn sql_without_conditions_is_the_selection() {
    let (text, params) = EventQuery::default().to_sql();
    assert_eq!(text, EVENT_SELECTION);
    assert!(params.is_empty());
}

#[test]
fn sql_with_name_and_limit_numbers_placeholders_in_order() {
    let query = EventQuery::default()
        .with_maximum_events_returned(100)
        .with_event_name("0151odwn3".to_string());
    let (text, params) = query.to_sql();
    assert_eq!(
        text,
        format!("{}WHERE aecevent.eventname = ?1 LIMIT ?2", EVENT_SELECTION)
    );
    assert_eq!(
        params,
        vec![
            QueryParameter::Text("0151odwn3".to_string()),
            QueryParameter::Integer(100)
        ]
    );
}

#[test]
fn sql_with_limit_only_uses_first_placeholder() {
    let (text, params) = EventQuery::default().with_maximum_events_returned(5).to_sql();
    assert_eq!(text, format!("{} LIMIT ?1", EVENT_SELECTION));
    assert_eq!(params, vec![QueryParameter::Integer(5)]);
}
