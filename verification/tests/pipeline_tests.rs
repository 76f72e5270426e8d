use betteruptime::api::require_token;
use betteruptime::commands::ack_args;
use betteruptime::event::{StreamMessage, WebsiteEvent};
use betteruptime::probe::{make_result, ProbeOutcome, ProbeStatus};
use betteruptime::producer::{cycle_commands, events_for};
use betteruptime::registry::{check_password, new_user, new_website, Config, Website};
use betteruptime::stream_model::StreamModel;
use betteruptime::worker::Batch;

fn website(id: &str, url: &str) -> Website {
    Website {
        id: id.to_string(),
        url: url.to_string(),
        user_id: "owner".to_string(),
        time_added_micros: 1700000000000000,
    }
}

#[test]
fn a_cycle_maps_every_website_to_one_event() {
    let sites = vec![
        website("w1", "https://a.example"),
        website("w2", "https://b.example"),
        website("w3", "https://c.example"),
    ];
    let events = events_for(&sites);
    assert_eq!(events.len(), 3);
    assert_eq!(events[0].url, "https://a.example");
    assert_eq!(events[0].id, "w1");
    assert_eq!(events[2].url, "https://c.example");
    assert_eq!(events[2].id, "w3");
}

#[test]
fn a_cycle_issues_one_append_per_website() {
    let sites = vec![website("w1", "https://a.example"), website("w2", "https://b.example")];
    let commands = cycle_commands(&sites);
    assert_eq!(commands.len(), 2);
    assert_eq!(commands[0].len(), 7);
    assert_eq!(commands[1].len(), 7);
}

#[test]
fn publishing_n_events_adds_n_entries() {
    let mut broker = StreamModel::new();
    let sites = vec![
        website("w1", "https://a.example"),
        website("w2", "https://b.example"),
        website("w3", "https://c.example"),
    ];
    let events = events_for(&sites);
    broker.publish_bulk(&events);
    assert_eq!(broker.entries.len(), 3);
    broker.publish_bulk(&events);
    assert_eq!(broker.entries.len(), 6);
    let mut seen: Vec<u64> = Vec::new();
    for e in &broker.entries {
        assert!(!seen.contains(&e.entry_id));
        seen.push(e.entry_id);
    }
}

#[test]
fn group_setup_twice_succeeds_and_changes_nothing() {
    let mut broker = StreamModel::new();
    let region = "us-east".to_string();
    broker.ensure_group(&region);
    assert_eq!(broker.groups.len(), 1);
    assert_eq!(broker.groups[0].region_id, "us-east");
    broker.ensure_group(&region);
    assert_eq!(broker.groups.len(), 1);
    assert_eq!(broker.groups[0].region_id, "us-east");
    assert_eq!(broker.groups[0].cursor, 0);
    assert!(broker.groups[0].pending.is_empty());
}

#[test]
fn independent_regions_each_see_every_entry() {
    let mut broker = StreamModel::new();
    let east = "us-east".to_string();
    let west = "eu-west".to_string();
    broker.ensure_group(&east);
    broker.ensure_group(&west);
    let events = vec![WebsiteEvent { url: "https://a.example".to_string(), id: "w1".to_string() }];
    broker.publish_bulk(&events);
    let east_batch = broker.read_group(&east, 5).unwrap();
    let west_batch = broker.read_group(&west, 5).unwrap();
    assert_eq!(east_batch.len(), 1);
    assert_eq!(west_batch.len(), 1);
    assert_eq!(east_batch[0].entry_id, west_batch[0].entry_id);
}

#[test]
fn read_with_nothing_new_returns_none() {
    let mut broker = StreamModel::new();
    let region = "us-east".to_string();
    broker.ensure_group(&region);
    assert!(broker.read_group(&region, 5).is_none());
    let events = vec![WebsiteEvent { url: "https://a.example".to_string(), id: "w1".to_string() }];
    broker.publish_bulk(&events);
    assert!(broker.read_group(&region, 5).is_some());
    assert!(broker.read_group(&region, 5).is_none());
}

#[test]
fn three_registered_websites_probed_and_acknowledged_end_to_end() {
    let mut broker = StreamModel::new();
    let region = "us-east".to_string();
    broker.ensure_group(&region);

    let sites = vec![
        website("w1", "https://a.example"),
        website("w2", "https://b.example"),
        website("w3", "https://c.example"),
    ];
    let events = events_for(&sites);
    broker.publish_bulk(&events);
    assert_eq!(broker.entries.len(), 3);

    let delivered = broker.read_group(&region, 5).unwrap();
    assert_eq!(delivered.len(), 3);
    assert_eq!(broker.groups[0].pending.len(), 3);

    let messages: Vec<StreamMessage> = delivered
        .iter()
        .map(|e| StreamMessage {
            id: e.entry_id.to_string(),
            message: WebsiteEvent { url: e.event.url.clone(), id: e.event.id.clone() },
        })
        .collect();
    let mut batch = Batch::new(messages);
    let mut rows = Vec::new();
    for i in 0..batch.len() {
        let row = make_result(
            batch.entries[i].message.id.clone(),
            region.clone(),
            ProbeOutcome::Response(200),
            25,
            10000,
            1700000000000,
        );
        rows.push(row);
        batch.record(i, true);
    }
    assert_eq!(rows.len(), 3);
    assert!(batch.all_recorded());

    let acked = batch.ack_list();
    assert_eq!(acked.len(), 3);
    let ack_command = ack_args(&region, &acked).unwrap();
    assert_eq!(ack_command.len(), 3 + 3);

    let acked_ids: Vec<u64> = acked.iter().map(|s| s.parse().unwrap()).collect();
    broker.ack_bulk(&region, &acked_ids);
    assert!(broker.groups[0].pending.is_empty());
}

#[test]
fn crash_before_acknowledgment_leaves_entries_pending_for_reprocessing() {
    let mut broker = StreamModel::new();
    let region = "us-east".to_string();
    broker.ensure_group(&region);
    let events = vec![
        WebsiteEvent { url: "https://a.example".to_string(), id: "wa".to_string() },
        WebsiteEvent { url: "https://b.example".to_string(), id: "wb".to_string() },
    ];
    broker.publish_bulk(&events);

    let delivered = broker.read_group(&region, 2).unwrap();
    assert_eq!(delivered.len(), 2);
    let id_a = delivered[0].entry_id;
    let id_b = delivered[1].entry_id;

    // A result row for entry A is persisted, then the worker dies
    // before acknowledging: no ack is sent, and both entries stay
    // pending, eligible for redelivery.
    let first_row = make_result(
        delivered[0].event.id.clone(),
        region.clone(),
        ProbeOutcome::Response(200),
        12,
        10000,
        1700000000000,
    );
    assert_eq!(first_row.status, ProbeStatus::Up);
    assert!(broker.groups[0].pending.contains(&id_a));
    assert!(broker.groups[0].pending.contains(&id_b));

    // A later worker processes both entries again; a second result
    // row for the same website is acceptable, not an error.
    let mut rows = vec![first_row];
    let messages: Vec<StreamMessage> = delivered
        .iter()
        .map(|e| StreamMessage {
            id: e.entry_id.to_string(),
            message: WebsiteEvent { url: e.event.url.clone(), id: e.event.id.clone() },
        })
        .collect();
    let mut batch = Batch::new(messages);
    for i in 0..batch.len() {
        rows.push(make_result(
            batch.entries[i].message.id.clone(),
            region.clone(),
            ProbeOutcome::Response(200),
            18,
            10000,
            1700000000500,
        ));
        batch.record(i, true);
    }
    assert_eq!(rows.len(), 3);
    assert_eq!(rows[0].website_id, rows[1].website_id);

    let acked = batch.ack_list();
    assert_eq!(acked.len(), 2);
    let acked_ids: Vec<u64> = acked.iter().map(|s| s.parse().unwrap()).collect();
    broker.ack_bulk(&region, &acked_ids);
    assert!(broker.groups[0].pending.is_empty());
}

#[test]
fn partial_persistence_keeps_the_failed_entry_pending() {
    let mut broker = StreamModel::new();
    let region = "us-east".to_string();
    broker.ensure_group(&region);
    let events = vec![
        WebsiteEvent { url: "https://a.example".to_string(), id: "wa".to_string() },
        WebsiteEvent { url: "https://b.example".to_string(), id: "wb".to_string() },
    ];
    broker.publish_bulk(&events);
    let delivered = broker.read_group(&region, 2).unwrap();
    let id_a = delivered[0].entry_id;
    let id_b = delivered[1].entry_id;

    let messages: Vec<StreamMessage> = delivered
        .iter()
        .map(|e| StreamMessage {
            id: e.entry_id.to_string(),
            message: WebsiteEvent { url: e.event.url.clone(), id: e.event.id.clone() },
        })
        .collect();
    let mut batch = Batch::new(messages);
    batch.record(0, true);
    batch.record(1, false);
    let acked = batch.ack_list();
    assert_eq!(acked.len(), 1);
    let acked_ids: Vec<u64> = acked.iter().map(|s| s.parse().unwrap()).collect();
    broker.ack_bulk(&region, &acked_ids);
    assert!(!broker.groups[0].pending.contains(&id_a));
    assert!(broker.groups[0].pending.contains(&id_b));
}

#[test]
fn sign_up_builds_a_row_with_a_fresh_identifier() {
    let u1 = new_user("alice".to_string(), "wonder".to_string());
    let u2 = new_user("alice".to_string(), "wonder".to_string());
    assert_eq!(u1.id.len(), 36);
    assert_eq!(u2.id.len(), 36);
    assert_ne!(u1.id, u2.id);
    assert_eq!(u1.username, "alice");
    assert_eq!(u1.password, "wonder");
}

#[test]
fn website_registration_builds_a_row_with_a_fresh_identifier() {
    let w = new_website("owner-1".to_string(), "https://a.example".to_string(), 42);
    assert_eq!(w.id.len(), 36);
    assert_eq!(w.url, "https://a.example");
    assert_eq!(w.user_id, "owner-1");
    assert_eq!(w.time_added_micros, 42);
}

#[test]
fn sign_in_compares_the_stored_password() {
    assert!(check_password(&"secret".to_string(), &"secret".to_string()));
    assert!(!check_password(&"secret".to_string(), &"other".to_string()));
}

#[test]
fn config_keeps_the_given_connection_string() {
    let c = Config::new("postgres://localhost/uptime".to_string());
    assert_eq!(c.db_url, "postgres://localhost/uptime");
}

#[test]
fn requests_without_a_token_are_refused() {
    assert_eq!(require_token(Some("token-abc".to_string())).unwrap(), "token-abc");
    assert_eq!(require_token(None).unwrap_err(), "missing token");
}
