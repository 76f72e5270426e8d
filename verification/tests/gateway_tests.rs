use betteruptime::commands::{
    ack_args, classify_group_create, group_create_args, read_group_args, str_contains, stream_name,
    xadd_args, Arg,
};
use betteruptime::event::WebsiteEvent;
use betteruptime::wire::{decode_read_reply, Wire};

fn data(s: &str) -> Wire {
    Wire::Data(s.to_string())
}

fn text_is(a: &Arg, expected: &str) -> bool {
    matches!(a, Arg::Text(s) if s == expected)
}

fn num_is(a: &Arg, expected: u64) -> bool {
    matches!(a, Arg::Num(n) if *n == expected)
}

#[test]
fn xadd_serializes_one_event_as_field_value_pairs() {
    let event = WebsiteEvent { url: "https://example.com".to_string(), id: "w1".to_string() };
    let args = xadd_args(&event);
    assert_eq!(args.len(), 7);
    assert!(text_is(&args[0], "XADD"));
    assert!(text_is(&args[1], "betteruptime:website"));
    assert!(text_is(&args[2], "*"));
    assert!(text_is(&args[3], "url"));
    assert!(text_is(&args[4], "https://example.com"));
    assert!(text_is(&args[5], "id"));
    assert!(text_is(&args[6], "w1"));
}

#[test]
fn read_group_command_carries_group_consumer_count_and_block() {
    let args = read_group_args(&"us-east".to_string(), &"worker-1".to_string(), 5, 5000);
    assert_eq!(args.len(), 11);
    assert!(text_is(&args[0], "XREADGROUP"));
    assert!(text_is(&args[1], "GROUP"));
    assert!(text_is(&args[2], "us-east"));
    assert!(text_is(&args[3], "worker-1"));
    assert!(text_is(&args[4], "BLOCK"));
    assert!(num_is(&args[5], 5000));
    assert!(text_is(&args[6], "COUNT"));
    assert!(num_is(&args[7], 5));
    assert!(text_is(&args[8], "STREAMS"));
    assert!(text_is(&args[9], "betteruptime:website"));
    assert!(text_is(&args[10], ">"));
}

#[test]
fn ack_of_no_ids_is_a_no_op() {
    assert!(ack_args(&"us-east".to_string(), &Vec::new()).is_none());
}

#[test]
fn ack_command_lists_every_id_once() {
    let ids = vec!["1-0".to_string(), "1-1".to_string()];
    let args = ack_args(&"us-east".to_string(), &ids).unwrap();
    assert_eq!(args.len(), 5);
    assert!(text_is(&args[0], "XACK"));
    assert!(text_is(&args[1], "betteruptime:website"));
    assert!(text_is(&args[2], "us-east"));
    assert!(text_is(&args[3], "1-0"));
    assert!(text_is(&args[4], "1-1"));
}

#[test]
fn group_create_command_starts_at_the_beginning() {
    let args = group_create_args(&"eu-west".to_string());
    assert_eq!(args.len(), 6);
    assert!(text_is(&args[0], "XGROUP"));
    assert!(text_is(&args[1], "CREATE"));
    assert!(text_is(&args[2], "betteruptime:website"));
    assert!(text_is(&args[3], "eu-west"));
    assert!(text_is(&args[4], "0"));
    assert!(text_is(&args[5], "MKSTREAM"));
}

#[test]
fn stream_name_is_fixed() {
    assert_eq!(stream_name(), "betteruptime:website");
}

#[test]
fn substring_search_finds_needle_anywhere() {
    assert!(str_contains("xx BUSYGROUP yy", "BUSYGROUP"));
    assert!(str_contains("BUSYGROUP at start", "BUSYGROUP"));
    assert!(!str_contains("BUSY GROUP split", "BUSYGROUP"));
    assert!(str_contains("anything", ""));
    assert!(!str_contains("", "BUSYGROUP"));
}

#[test]
fn group_create_ok_is_accepted() {
    assert!(classify_group_create(Ok(())).is_ok());
}

#[test]
fn group_create_busygroup_is_accepted_as_existing_group() {
    let reply = Err("BUSYGROUP Consumer Group name already exists".to_string());
    assert!(classify_group_create(reply).is_ok());
}

#[test]
fn group_create_other_errors_are_surfaced_unchanged() {
    let reply = Err("ERR The XGROUP subcommand requires the key to exist".to_string());
    let r = classify_group_create(reply);
    assert_eq!(
        r.unwrap_err(),
        "ERR The XGROUP subcommand requires the key to exist".to_string()
    );
}

#[test]
fn decode_nil_reply_means_no_entries() {
    assert!(decode_read_reply(&Wire::Nil).is_none());
}

#[test]
fn decode_empty_array_means_no_entries() {
    assert!(decode_read_reply(&Wire::Array(Vec::new())).is_none());
}

#[test]
fn decode_unexpected_shapes_degrade_to_no_entries() {
    assert!(decode_read_reply(&Wire::Int(5)).is_none());
    assert!(decode_read_reply(&Wire::Okay).is_none());
    assert!(decode_read_reply(&data("surprise")).is_none());
    assert!(decode_read_reply(&Wire::Status("OK".to_string())).is_none());
    assert!(decode_read_reply(&Wire::Other).is_none());
}

#[test]
fn decode_reads_entries_of_one_stream() {
    let msg1 = Wire::Array(vec![
        data("1-0"),
        Wire::Array(vec![data("url"), data("https://a.example"), data("id"), data("w1")]),
    ]);
    let msg2 = Wire::Array(vec![
        data("1-1"),
        Wire::Array(vec![data("id"), data("w2"), data("url"), data("https://b.example")]),
    ]);
    let stream = Wire::Array(vec![data("betteruptime:website"), Wire::Array(vec![msg1, msg2])]);
    let reply = Wire::Array(vec![stream]);
    let msgs = decode_read_reply(&reply).unwrap();
    assert_eq!(msgs.len(), 2);
    assert_eq!(msgs[0].id, "1-0");
    assert_eq!(msgs[0].message.url, "https://a.example");
    assert_eq!(msgs[0].message.id, "w1");
    assert_eq!(msgs[1].id, "1-1");
    assert_eq!(msgs[1].message.url, "https://b.example");
    assert_eq!(msgs[1].message.id, "w2");
}

#[test]
fn decode_skips_malformed_entries_without_aborting_the_batch() {
    let good = Wire::Array(vec![
        data("2-0"),
        Wire::Array(vec![data("url"), data("https://ok.example"), data("id"), data("w9")]),
    ]);
    let too_short = Wire::Array(vec![data("2-1")]);
    let id_not_text = Wire::Array(vec![
        Wire::Int(7),
        Wire::Array(vec![data("url"), data("https://x.example"), data("id"), data("w0")]),
    ]);
    let missing_id_field = Wire::Array(vec![
        data("2-2"),
        Wire::Array(vec![data("url"), data("https://y.example")]),
    ]);
    let stream = Wire::Array(vec![
        data("betteruptime:website"),
        Wire::Array(vec![too_short, id_not_text, good, missing_id_field]),
    ]);
    let reply = Wire::Array(vec![stream]);
    let msgs = decode_read_reply(&reply).unwrap();
    assert_eq!(msgs.len(), 1);
    assert_eq!(msgs[0].id, "2-0");
    assert_eq!(msgs[0].message.url, "https://ok.example");
    assert_eq!(msgs[0].message.id, "w9");
}

#[test]
fn decode_keeps_the_last_value_of_a_repeated_field() {
    let msg = Wire::Array(vec![
        data("3-0"),
        Wire::Array(vec![
            data("url"),
            data("https://first.example"),
            data("url"),
            data("https://second.example"),
            data("id"),
            data("w3"),
        ]),
    ]);
    let reply = Wire::Array(vec![Wire::Array(vec![
        data("betteruptime:website"),
        Wire::Array(vec![msg]),
    ])]);
    let msgs = decode_read_reply(&reply).unwrap();
    assert_eq!(msgs.len(), 1);
    assert_eq!(msgs[0].message.url, "https://second.example");
}

#[test]
fn decode_collects_entries_across_streams() {
    let s1 = Wire::Array(vec![
        data("stream-a"),
        Wire::Array(vec![Wire::Array(vec![
            data("4-0"),
            Wire::Array(vec![data("url"), data("https://a.example"), data("id"), data("w1")]),
        ])]),
    ]);
    let s2 = Wire::Array(vec![
        data("stream-b"),
        Wire::Array(vec![Wire::Array(vec![
            data("4-1"),
            Wire::Array(vec![data("url"), data("https://b.example"), data("id"), data("w2")]),
        ])]),
    ]);
    let msgs = decode_read_reply(&Wire::Array(vec![s1, s2])).unwrap();
    assert_eq!(msgs.len(), 2);
    assert_eq!(msgs[0].id, "4-0");
    assert_eq!(msgs[1].id, "4-1");
}

#[test]
fn decode_of_all_malformed_entries_is_an_empty_batch_not_none() {
    let stream = Wire::Array(vec![
        data("betteruptime:website"),
        Wire::Array(vec![Wire::Array(vec![data("5-0")])]),
    ]);
    let msgs = decode_read_reply(&Wire::Array(vec![stream])).unwrap();
    assert!(msgs.is_empty());
}
