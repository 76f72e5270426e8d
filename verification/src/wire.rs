//! The broker's reply to a group read, modelled as a tagged variant,
//! and the defensive decode of that reply into delivered entries.
//!
//! A group read answers with a nested reply: an array of streams,
//! each stream an array whose second element is the array of
//! messages, each message an array of an entry id and a flat
//! field/value array. Anything outside that shape degrades to "no
//! entries" or to skipping the one malformed message, never to a
//! failure of the whole batch.

use vstd::prelude::*;

use crate::event::{EventView, MessageView, StreamMessage, WebsiteEvent, messages_view};

verus! {

/// One node of a broker reply, reduced to plain values. Binary-safe
/// strings arrive as `Data`, simple status lines as `Status`; `Other`
/// stands for every reply shape the decode does not read inside
/// (maps, doubles, booleans, ...).
#[derive(Debug)]
pub enum Wire {
    Nil,
    Int(i64),
    Data(String),
    Array(Vec<Wire>),
    Status(String),
    Okay,
    Other,
}

/// Scan a flat field/value array two elements at a time, keeping the
/// last `url` and `id` values seen. A pair whose key or value is not
/// `Data` is ignored, as is a trailing odd element.
pub open spec fn scan_fields(
    fields: Seq<Wire>,
    url: Option<Seq<char>>,
    website_id: Option<Seq<char>>,
) -> (Option<Seq<char>>, Option<Seq<char>>)
    decreases fields.len(),
{
    if fields.len() < 2 {
        (url, website_id)
    } else {
        let rest = fields.skip(2);
        match (fields[0], fields[1]) {
            (Wire::Data(k), Wire::Data(v)) => if k@ == "url"@ {
                scan_fields(rest, Some(v@), website_id)
            } else if k@ == "id"@ {
                scan_fields(rest, url, Some(v@))
            } else {
                scan_fields(rest, url, website_id)
            },
            _ => scan_fields(rest, url, website_id),
        }
    }
}

/// The entry one message node decodes to, if any: the node must be an
/// array of at least an entry id (`Data`) and a field array holding
/// both a `url` and an `id` field; otherwise the message is skipped.
pub open spec fn entry_of(msg: Wire) -> Option<MessageView> {
    match msg {
        Wire::Array(pair) => if pair@.len() >= 2 {
            match (pair@[0], pair@[1]) {
                (Wire::Data(entry_id), Wire::Array(fields)) => {
                    let (url, website_id) = scan_fields(fields@, None, None);
                    match (url, website_id) {
                        (Some(u), Some(w)) => Some(
                            MessageView {
                                id: entry_id@,
                                message: EventView { url: u, id: w },
                            },
                        ),
                        _ => None,
                    }
                },
                _ => None,
            }
        } else {
            None
        },
        _ => None,
    }
}

/// The entries decoded from one message array, in order, skipping
/// messages that decode to nothing.
pub open spec fn entries_of(msgs: Seq<Wire>) -> Seq<MessageView>
    decreases msgs.len(),
{
    if msgs.len() == 0 {
        Seq::empty()
    } else {
        match entry_of(msgs[0]) {
            Some(m) => seq![m] + entries_of(msgs.skip(1)),
            None => entries_of(msgs.skip(1)),
        }
    }
}

/// The entries contributed by one stream node: its second element
/// must be the message array; any other shape contributes nothing.
pub open spec fn stream_entries(stream: Wire) -> Seq<MessageView> {
    match stream {
        Wire::Array(arr) => if arr@.len() >= 2 {
            match arr@[1] {
                Wire::Array(msgs) => entries_of(msgs@),
                _ => Seq::empty(),
            }
        } else {
            Seq::empty()
        },
        _ => Seq::empty(),
    }
}

/// The entries of all streams of a reply, concatenated in order.
pub open spec fn all_stream_entries(streams: Seq<Wire>) -> Seq<MessageView>
    decreases streams.len(),
{
    if streams.len() == 0 {
        Seq::empty()
    } else {
        stream_entries(streams[0]) + all_stream_entries(streams.skip(1))
    }
}

/// What a whole group-read reply decodes to: `None` for a nil reply,
/// an empty array, or an unexpected shape (no entries delivered);
/// otherwise the decoded entries of every stream, a possibly empty
/// batch.
pub open spec fn decode_spec(reply: Wire) -> Option<Seq<MessageView>> {
    match reply {
        Wire::Nil => None,
        Wire::Array(streams) => if streams@.len() == 0 {
            None
        } else {
            Some(all_stream_entries(streams@))
        },
        _ => None,
    }
}

/// A field array holding exactly the two pairs a published event is
/// serialized to — `url` then `id` — scans back to exactly that URL
/// and website id: delivery decodes what the producer published.
pub proof fn lemma_fields_round_trip(
    ku: Wire,
    vu: Wire,
    ki: Wire,
    vi: Wire,
    url: Seq<char>,
    website_id: Seq<char>,
)
    requires
        ku matches Wire::Data(s) && s@ == "url"@,
        vu matches Wire::Data(s) && s@ == url,
        ki matches Wire::Data(s) && s@ == "id"@,
        vi matches Wire::Data(s) && s@ == website_id,
    ensures
        scan_fields(seq![ku, vu, ki, vi], None, None) == (
            Some(url),
            Some(website_id),
        ),
{
    reveal_strlit("url");
    reveal_strlit("id");
    let fields = seq![ku, vu, ki, vi];
    let tail = seq![ki, vi];
    let done = Seq::<Wire>::empty();
    assert(fields.skip(2) =~= tail);
    assert(tail.skip(2) =~= done);
    assert("url"@.len() != "id"@.len());
    assert(scan_fields(done, Some(url), Some(website_id)) == (Some(url), Some(website_id)));
    assert(scan_fields(tail, Some(url), None) == scan_fields(done, Some(url), Some(website_id)));
    assert(scan_fields(fields, None, None) == scan_fields(tail, Some(url), None));
}

/// View of an optionally decoded string.
pub open spec fn opt_view(o: Option<String>) -> Option<Seq<char>> {
    match o {
        Some(s) => Some(s@),
        None => None,
    }
}

/// Scan a field/value array for the `url` and `id` fields, later
/// occurrences overriding earlier ones.
fn scan_fields_exec(fields: &Vec<Wire>) -> (r: (Option<String>, Option<String>))
    ensures
        (opt_view(r.0), opt_view(r.1)) == scan_fields(fields@, None, None),
{
    let url_key: String = "url".to_owned();
    let id_key: String = "id".to_owned();
    let mut url: Option<String> = None;
    let mut website_id: Option<String> = None;
    let mut i: usize = 0;
    proof {
        assert(fields@.skip(0) =~= fields@);
    }
    while fields.len() - i >= 2
        invariant
            i <= fields.len(),
            url_key@ == "url"@,
            id_key@ == "id"@,
            scan_fields(fields@, None, None) == scan_fields(
                fields@.skip(i as int),
                opt_view(url),
                opt_view(website_id),
            ),
        decreases fields.len() - i,
    {
        proof {
            assert(fields@.skip(i as int).len() >= 2);
            assert(fields@.skip(i as int)[0] == fields@[i as int]);
            assert(fields@.skip(i as int)[1] == fields@[i as int + 1]);
            assert(fields@.skip(i as int).skip(2) =~= fields@.skip(i as int + 2));
        }
        match (&fields[i], &fields[i + 1]) {
            (Wire::Data(k), Wire::Data(v)) => {
                if k.eq(&url_key) {
                    url = Some(v.clone());
                } else if k.eq(&id_key) {
                    website_id = Some(v.clone());
                }
            },
            _ => {},
        }
        i = i + 2;
    }
    proof {
        assert(fields@.skip(i as int).len() < 2);
    }
    (url, website_id)
}

/// Decode one message node into a delivered entry, or nothing if the
/// node is malformed.
fn parse_entry(msg: &Wire) -> (r: Option<StreamMessage>)
    ensures
        match r {
            Some(m) => entry_of(*msg) == Some(m@),
            None => entry_of(*msg) is None,
        },
{
    match msg {
        Wire::Array(pair) => {
            if pair.len() >= 2 {
                match (&pair[0], &pair[1]) {
                    (Wire::Data(entry_id), Wire::Array(fields)) => {
                        let (url, website_id) = scan_fields_exec(fields);
                        match (url, website_id) {
                            (Some(u), Some(w)) => Some(
                                StreamMessage {
                                    id: entry_id.clone(),
                                    message: WebsiteEvent { url: u, id: w },
                                },
                            ),
                            _ => None,
                        }
                    },
                    _ => None,
                }
            } else {
                None
            }
        },
        _ => None,
    }
}

/// Decode the messages of one stream node of the reply, appending the
/// decoded entries to `out` and skipping malformed messages.
fn decode_stream_node(node: &Wire, out: &mut Vec<StreamMessage>)
    ensures
        messages_view(final(out)@) == messages_view(old(out)@) + stream_entries(*node),
{
    proof {
        assert(messages_view(out@) + Seq::<MessageView>::empty() =~= messages_view(out@));
    }
    match node {
        Wire::Array(arr) => {
            if arr.len() >= 2 {
                match &arr[1] {
                    Wire::Array(msgs) => {
                        let ghost start = out@;
                        let mut j: usize = 0;
                        proof {
                            assert(msgs@.skip(0) =~= msgs@);
                        }
                        while j < msgs.len()
                            invariant
                                j <= msgs.len(),
                                messages_view(out@) + entries_of(msgs@.skip(j as int))
                                    == messages_view(start) + entries_of(msgs@),
                            decreases msgs.len() - j,
                        {
                            proof {
                                assert(msgs@.skip(j as int)[0] == msgs@[j as int]);
                                assert(msgs@.skip(j as int).skip(1) =~= msgs@.skip(j as int + 1));
                            }
                            match parse_entry(&msgs[j]) {
                                Some(m) => {
                                    proof {
                                        assert(messages_view(out@.push(m)) =~= messages_view(out@)
                                            + seq![m@]);
                                        assert((messages_view(out@) + seq![m@]) + entries_of(
                                            msgs@.skip(j as int + 1),
                                        ) =~= messages_view(out@) + (seq![m@] + entries_of(
                                            msgs@.skip(j as int + 1),
                                        )));
                                    }
                                    out.push(m);
                                },
                                None => {},
                            }
                            j = j + 1;
                        }
                        proof {
                            assert(entries_of(msgs@.skip(j as int)) =~= Seq::<
                                MessageView,
                            >::empty());
                            assert(messages_view(out@) + Seq::<MessageView>::empty()
                                =~= messages_view(out@));
                        }
                    },
                    _ => {},
                }
            }
        },
        _ => {},
    }
}

/// Decode a whole group-read reply. Returns `None` when the broker
/// delivered nothing (nil reply, empty array, or an unexpected
/// shape); otherwise the decoded entries, malformed messages skipped
/// so that one poisoned entry never blocks the rest of the batch.
pub fn decode_read_reply(reply: &Wire) -> (r: Option<Vec<StreamMessage>>)
    ensures
        match r {
            Some(msgs) => decode_spec(*reply) == Some(messages_view(msgs@)),
            None => decode_spec(*reply) is None,
        },
{
    match reply {
        Wire::Nil => None,
        Wire::Array(streams) => {
            if streams.len() == 0 {
                None
            } else {
                let mut out: Vec<StreamMessage> = Vec::new();
                let mut i: usize = 0;
                proof {
                    assert(streams@.skip(0) =~= streams@);
                    assert(messages_view(out@) =~= Seq::<MessageView>::empty());
                    assert(Seq::<MessageView>::empty() + all_stream_entries(streams@)
                        =~= all_stream_entries(streams@));
                }
                while i < streams.len()
                    invariant
                        i <= streams.len(),
                        messages_view(out@) + all_stream_entries(streams@.skip(i as int))
                            == all_stream_entries(streams@),
                    decreases streams.len() - i,
                {
                    proof {
                        assert(streams@.skip(i as int)[0] == streams@[i as int]);
                        assert(streams@.skip(i as int).skip(1) =~= streams@.skip(i as int + 1));
                    }
                    let ghost prev = out@;
                    decode_stream_node(&streams[i], &mut out);
                    proof {
                        assert(all_stream_entries(streams@.skip(i as int)) == stream_entries(
                            streams@[i as int],
                        ) + all_stream_entries(streams@.skip(i as int + 1)));
                        assert(messages_view(out@) + all_stream_entries(streams@.skip(i as int + 1))
                            =~= messages_view(prev) + all_stream_entries(streams@.skip(i as int)));
                    }
                    i = i + 1;
                }
                proof {
                    assert(all_stream_entries(streams@.skip(i as int)) =~= Seq::<
                        MessageView,
                    >::empty());
                    assert(messages_view(out@) + Seq::<MessageView>::empty() =~= messages_view(
                        out@,
                    ));
                }
                Some(out)
            }
        },
        _ => None,
    }
}

} // verus!
