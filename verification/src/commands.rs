//! The broker commands the gateway issues, built as plain argument
//! lists, and the classification of the group-create outcome.
//!
//! Only four operations ever reach the broker: bulk append, group
//! creation, blocking group read, and bulk acknowledge. Each builder
//! here pins the exact argument list; the transport merely sends it.

use vstd::prelude::*;
use vstd::string::StrSliceExecFns;

use crate::event::WebsiteEvent;

verus! {

/// One argument of a broker command: binary-safe text or a number.
#[derive(Debug)]
pub enum Arg {
    Text(String),
    Num(u64),
}

/// Mathematical value of one command argument.
pub enum ArgView {
    Text(Seq<char>),
    Num(u64),
}

impl View for Arg {
    type V = ArgView;

    open spec fn view(&self) -> ArgView {
        match self {
            Arg::Text(s) => ArgView::Text(s@),
            Arg::Num(n) => ArgView::Num(*n),
        }
    }
}

/// The views of an argument list, element by element.
pub open spec fn args_view(args: Seq<Arg>) -> Seq<ArgView> {
    args.map_values(|a: Arg| a@)
}

/// The fixed name of the stream all check requests travel on.
pub open spec fn stream_name_spec() -> Seq<char> {
    "betteruptime:website"@
}

/// The fixed name of the stream all check requests travel on.
pub fn stream_name() -> (r: String)
    ensures
        r@ == stream_name_spec(),
{
    "betteruptime:website".to_owned()
}

/// The append command for one event: one such command adds exactly
/// one entry, with the event serialized as `url`/`id` field pairs.
pub open spec fn xadd_spec(url: Seq<char>, website_id: Seq<char>) -> Seq<ArgView> {
    seq![
        ArgView::Text("XADD"@),
        ArgView::Text(stream_name_spec()),
        ArgView::Text("*"@),
        ArgView::Text("url"@),
        ArgView::Text(url),
        ArgView::Text("id"@),
        ArgView::Text(website_id),
    ]
}

/// Build the append command for one event.
pub fn xadd_args(event: &WebsiteEvent) -> (r: Vec<Arg>)
    ensures
        args_view(r@) == xadd_spec(event.url@, event.id@),
{
    let mut r: Vec<Arg> = Vec::new();
    r.push(Arg::Text("XADD".to_owned()));
    r.push(Arg::Text(stream_name()));
    r.push(Arg::Text("*".to_owned()));
    r.push(Arg::Text("url".to_owned()));
    r.push(Arg::Text(event.url.clone()));
    r.push(Arg::Text("id".to_owned()));
    r.push(Arg::Text(event.id.clone()));
    proof {
        assert(args_view(r@) =~= xadd_spec(event.url@, event.id@));
    }
    r
}

/// The blocking group-read command: up to `count` previously
/// undelivered entries for `consumer` within `group`, blocking up to
/// `block_ms` milliseconds.
pub open spec fn read_group_spec(
    group: Seq<char>,
    consumer: Seq<char>,
    count: u64,
    block_ms: u64,
) -> Seq<ArgView> {
    seq![
        ArgView::Text("XREADGROUP"@),
        ArgView::Text("GROUP"@),
        ArgView::Text(group),
        ArgView::Text(consumer),
        ArgView::Text("BLOCK"@),
        ArgView::Num(block_ms),
        ArgView::Text("COUNT"@),
        ArgView::Num(count),
        ArgView::Text("STREAMS"@),
        ArgView::Text(stream_name_spec()),
        ArgView::Text(">"@),
    ]
}

/// Build the blocking group-read command.
pub fn read_group_args(group: &String, consumer: &String, count: u64, block_ms: u64) -> (r: Vec<
    Arg,
>)
    ensures
        args_view(r@) == read_group_spec(group@, consumer@, count, block_ms),
{
    let mut r: Vec<Arg> = Vec::new();
    r.push(Arg::Text("XREADGROUP".to_owned()));
    r.push(Arg::Text("GROUP".to_owned()));
    r.push(Arg::Text(group.clone()));
    r.push(Arg::Text(consumer.clone()));
    r.push(Arg::Text("BLOCK".to_owned()));
    r.push(Arg::Num(block_ms));
    r.push(Arg::Text("COUNT".to_owned()));
    r.push(Arg::Num(count));
    r.push(Arg::Text("STREAMS".to_owned()));
    r.push(Arg::Text(stream_name()));
    r.push(Arg::Text(">".to_owned()));
    proof {
        assert(args_view(r@) =~= read_group_spec(group@, consumer@, count, block_ms));
    }
    r
}

/// The bulk-acknowledge command for the given entry ids, or nothing
/// at all for an empty id list: acknowledging nothing is a no-op that
/// never reaches the broker.
pub open spec fn xack_spec(group: Seq<char>, ids: Seq<String>) -> Seq<ArgView> {
    seq![
        ArgView::Text("XACK"@),
        ArgView::Text(stream_name_spec()),
        ArgView::Text(group),
    ] + ids.map_values(|id: String| ArgView::Text(id@))
}

/// Build the bulk-acknowledge command, or `None` for no ids.
pub fn ack_args(group: &String, ids: &Vec<String>) -> (r: Option<Vec<Arg>>)
    ensures
        r is None <==> ids@.len() == 0,
        r matches Some(args) ==> args_view(args@) == xack_spec(group@, ids@),
{
    if ids.len() == 0 {
        return None;
    }
    let mut r: Vec<Arg> = Vec::new();
    r.push(Arg::Text("XACK".to_owned()));
    r.push(Arg::Text(stream_name()));
    r.push(Arg::Text(group.clone()));
    let mut i: usize = 0;
    while i < ids.len()
        invariant
            i <= ids.len(),
            args_view(r@) =~= xack_spec(group@, ids@.take(i as int)),
        decreases ids.len() - i,
    {
        let ghost prev = r@;
        let a = Arg::Text(ids[i].clone());
        r.push(a);
        proof {
            assert(args_view(prev.push(a)) =~= args_view(prev).push(a@));
            assert(ids@.take(i + 1 as int) =~= ids@.take(i as int).push(ids@[i as int]));
            assert(xack_spec(group@, ids@.take(i as int).push(ids@[i as int])) =~= xack_spec(
                group@,
                ids@.take(i as int),
            ).push(ArgView::Text(ids@[i as int]@)));
        }
        i = i + 1;
    }
    proof {
        assert(ids@.take(i as int) =~= ids@);
    }
    Some(r)
}

/// The group-create command: a group for `group` over the shared
/// stream, starting at the beginning, creating the stream if absent.
pub open spec fn group_create_spec(group: Seq<char>) -> Seq<ArgView> {
    seq![
        ArgView::Text("XGROUP"@),
        ArgView::Text("CREATE"@),
        ArgView::Text(stream_name_spec()),
        ArgView::Text(group),
        ArgView::Text("0"@),
        ArgView::Text("MKSTREAM"@),
    ]
}

/// Build the group-create command.
pub fn group_create_args(group: &String) -> (r: Vec<Arg>)
    ensures
        args_view(r@) == group_create_spec(group@),
{
    let mut r: Vec<Arg> = Vec::new();
    r.push(Arg::Text("XGROUP".to_owned()));
    r.push(Arg::Text("CREATE".to_owned()));
    r.push(Arg::Text(stream_name()));
    r.push(Arg::Text(group.clone()));
    r.push(Arg::Text("0".to_owned()));
    r.push(Arg::Text("MKSTREAM".to_owned()));
    proof {
        assert(args_view(r@) =~= group_create_spec(group@));
    }
    r
}

/// `needle` occurs contiguously somewhere in `hay`.
pub open spec fn contains_seq(hay: Seq<char>, needle: Seq<char>) -> bool {
    exists|k: int|
        0 <= k <= hay.len() - needle.len() && #[trigger] hay.subrange(k, k + needle.len())
            == needle
}

/// Collect the characters of a string into a vector.
fn chars_of(s: &str) -> (r: Vec<char>)
    ensures
        r@ == s@,
{
    let n = s.unicode_len();
    let mut r: Vec<char> = Vec::new();
    let mut i: usize = 0;
    while i < n
        invariant
            i <= n,
            n == s@.len(),
            r@ =~= s@.take(i as int),
        decreases n - i,
    {
        r.push(s.get_char(i));
        proof {
            assert(r@ =~= s@.take(i + 1 as int));
        }
        i = i + 1;
    }
    proof {
        assert(s@.take(i as int) =~= s@);
    }
    r
}

/// Substring search over character vectors.
fn contains_chars(hay: &Vec<char>, needle: &Vec<char>) -> (r: bool)
    ensures
        r == contains_seq(hay@, needle@),
{
    if needle.len() == 0 {
        proof {
            assert(hay@.subrange(0, 0 + needle@.len() as int) =~= needle@);
        }
        return true;
    }
    if needle.len() > hay.len() {
        return false;
    }
    let last = hay.len() - needle.len();
    let mut k: usize = 0;
    while k <= last
        invariant
            k <= last + 1,
            last == hay@.len() - needle@.len(),
            needle@.len() >= 1,
            forall|k2: int|
                0 <= k2 < k ==> #[trigger] hay@.subrange(k2, k2 + needle@.len()) != needle@,
        decreases last + 1 - k,
    {
        let mut matched = true;
        let mut t: usize = 0;
        while t < needle.len() && matched
            invariant
                t <= needle.len(),
                k + needle.len() <= hay.len(),
                matched ==> forall|t2: int| 0 <= t2 < t ==> hay@[k + t2] == #[trigger] needle@[t2],
                !matched ==> hay@.subrange(k as int, k + needle@.len()) != needle@,
            decreases needle.len() - t,
        {
            if hay[k + t] != needle[t] {
                proof {
                    assert(hay@.subrange(k as int, k + needle@.len())[t as int] == hay@[k + t]);
                }
                matched = false;
            }
            t = t + 1;
        }
        if matched {
            proof {
                assert(hay@.subrange(k as int, k + needle@.len()) =~= needle@);
            }
            return true;
        }
        k = k + 1;
    }
    proof {
        assert(forall|k2: int|
            0 <= k2 <= hay@.len() - needle@.len() ==> #[trigger] hay@.subrange(
                k2,
                k2 + needle@.len(),
            ) != needle@);
    }
    false
}

/// Substring search over strings.
pub fn str_contains(hay: &str, needle: &str) -> (r: bool)
    ensures
        r == contains_seq(hay@, needle@),
{
    let h = chars_of(hay);
    let n = chars_of(needle);
    contains_chars(&h, &n)
}

/// A group-create outcome that counts as success: the broker either
/// accepted the command or refused it because the group already
/// exists, which its error text reports as a busy group.
pub open spec fn group_create_accepted(outcome: Result<(), Seq<char>>) -> bool {
    match outcome {
        Ok(u) => true,
        Err(text) => contains_seq(text, "BUSYGROUP"@),
    }
}

/// Classify the broker's answer to a group-create command: "group
/// already exists" is success, so that group setup is idempotent; any
/// other refusal is surfaced unchanged as fatal at startup.
pub fn classify_group_create(outcome: Result<(), String>) -> (r: Result<(), String>)
    ensures
        r is Ok <==> group_create_accepted(
            match outcome {
                Ok(u) => Ok(u),
                Err(e) => Err(e@),
            },
        ),
        r matches Err(e) ==> outcome matches Err(e0) && e == e0,
{
    match outcome {
        Ok(u) => Ok(u),
        Err(e) => {
            if str_contains(e.as_str(), "BUSYGROUP") {
                Ok(())
            } else {
                Err(e)
            }
        },
    }
}

} // verus!
