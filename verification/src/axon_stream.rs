//! Decisions of the Axon server-sent-events stream: which channels a client
//! subscribed to, which queries each poll issues, and which polled events are
//! delivered so that no event reaches the client twice.

use vstd::prelude::*;

use crate::json::{int_number, json_int, member_is, text_member, text_member_is, JsonValue};
use crate::text::{
    chars_of, lemma_trim_idempotent, split, split_chars, str_eq, string_from_chars, trim, trim_chars, views,
    vviews,
};

verus! {

/// The trimmed, non-empty pieces among `pieces`, in order.
pub open spec fn trimmed_nonempty(pieces: Seq<Seq<char>>) -> Seq<Seq<char>>
    decreases pieces.len(),
{
    if pieces.len() == 0 {
        seq![]
    } else {
        let r = trimmed_nonempty(pieces.drop_last());
        let t = trim(pieces.last());
        if t.len() > 0 {
            r.push(t)
        } else {
            r
        }
    }
}

/// The channels named by a comma-separated list: each entry trimmed, empty
/// entries dropped; no list names none.
pub open spec fn channel_list(csv: Option<Seq<char>>) -> Seq<Seq<char>> {
    match csv {
        Some(s) => trimmed_nonempty(split(s, ',')),
        None => seq![],
    }
}

/// Each trimmed non-empty piece is non-empty and already trimmed.
proof fn lemma_trimmed_nonempty_clean(pieces: Seq<Seq<char>>)
    ensures
        forall|i: int|
            0 <= i < trimmed_nonempty(pieces).len() ==> (#[trigger] trimmed_nonempty(pieces)[i]).len()
                > 0 && trim(trimmed_nonempty(pieces)[i]) == trimmed_nonempty(pieces)[i],
    decreases pieces.len(),
{
    if pieces.len() > 0 {
        lemma_trimmed_nonempty_clean(pieces.drop_last());
        lemma_trim_idempotent(pieces.last());
        let r = trimmed_nonempty(pieces.drop_last());
        let t = trimmed_nonempty(pieces);
        assert forall|i: int| 0 <= i < t.len() implies (#[trigger] t[i]).len() > 0 && trim(t[i]) == t[i] by {
            if i < r.len() {
                assert(t[i] == r[i]);
            }
        }
    }
}

/// Every channel a subscription names is non-empty and carries no white space
/// at either end.
pub proof fn lemma_channels_clean(csv: Option<Seq<char>>)
    ensures
        forall|i: int|
            0 <= i < channel_list(csv).len() ==> (#[trigger] channel_list(csv)[i]).len() > 0 && trim(
                channel_list(csv)[i],
            ) == channel_list(csv)[i],
{
    if let Some(s) = csv {
        lemma_trimmed_nonempty_clean(split(s, ','));
    }
}

/// A subscription covers every channel when it names none or names `*`.
pub open spec fn is_wildcard_list(channels: Seq<Seq<char>>) -> bool {
    channels.len() == 0 || exists|i: int| 0 <= i < channels.len() && channels[i] == seq!['*']
}

/// A subscription covers every channel exactly when it names no channel or
/// names `*` at any position; in particular `*` inserted anywhere into a
/// list makes it a wildcard, and a non-empty list without `*` is not one.
pub proof fn lemma_wildcard_star_anywhere(front: Seq<Seq<char>>, back: Seq<Seq<char>>, cs: Seq<Seq<char>>)
    ensures
        is_wildcard_list(front + seq![seq!['*']] + back),
        is_wildcard_list(seq![]),
        cs.len() > 0 && (forall|i: int| 0 <= i < cs.len() ==> #[trigger] cs[i] != seq!['*']) ==> !is_wildcard_list(cs),
        is_wildcard_list(cs) <==> (cs.len() == 0 || exists|i: int| 0 <= i < cs.len() && #[trigger] cs[i] == seq!['*']),
{
    let l = front + seq![seq!['*']] + back;
    assert(l[front.len() as int] == seq!['*']);
}

/// Parses the `channels` query parameter.
pub fn parse_channels(csv: Option<&str>) -> (channels: Vec<String>)
    ensures
        views(channels@) == channel_list(
            match csv {
                Some(s) => Some(s@),
                None => None,
            },
        ),
{
    let mut out: Vec<String> = Vec::new();
    match csv {
        None => {
            assert(views(out@) =~= seq![]);
            out
        },
        Some(s) => {
            let cs = chars_of(s);
            let pieces = split_chars(&cs, ',');
            let n = pieces.len();
            let mut i: usize = 0;
            while i < n
                invariant
                    n == pieces@.len(),
                    i <= n,
                    vviews(pieces@) == split(s@, ','),
                    views(out@) == trimmed_nonempty(vviews(pieces@).take(i as int)),
                decreases n - i,
            {
                proof {
                    assert(vviews(pieces@).take(i + 1).drop_last() =~= vviews(pieces@).take(
                        i as int,
                    ));
                    assert(vviews(pieces@).take(i + 1).last() == pieces@[i as int]@);
                }
                let t = trim_chars(&pieces[i]);
                if t.len() > 0 {
                    let name = string_from_chars(t.as_slice());
                    out.push(name);
                    assert(views(out@) =~= trimmed_nonempty(vviews(pieces@).take(i as int)).push(
                        t@,
                    ));
                }
                i = i + 1;
            }
            assert(vviews(pieces@).take(n as int) =~= vviews(pieces@));
            out
        },
    }
}

/// Whether the subscription covers every channel.
pub fn is_wildcard(channels: &Vec<String>) -> (b: bool)
    ensures
        b == is_wildcard_list(views(channels@)),
{
    let n = channels.len();
    if n == 0 {
        return true;
    }
    let mut i: usize = 0;
    while i < n
        invariant
            n == channels@.len(),
            i <= n,
            forall|j: int| 0 <= j < i ==> views(channels@)[j] != seq!['*'],
        decreases n - i,
    {
        let cs = chars_of(channels[i].as_str());
        if cs.len() == 1 && cs[0] == '*' {
            assert(views(channels@)[i as int] =~= seq!['*']);
            return true;
        }
        assert(views(channels@)[i as int] != seq!['*']) by {
            if views(channels@)[i as int] == seq!['*'] {
                assert(cs@ == seq!['*']);
            }
        }
        i = i + 1;
    }
    false
}

/// The channels of `cs`, each once, in the order they first occur.
pub open spec fn distinct_channels(cs: Seq<Seq<char>>) -> Seq<Seq<char>>
    decreases cs.len(),
{
    if cs.len() == 0 {
        seq![]
    } else {
        let r = distinct_channels(cs.drop_last());
        if r.contains(cs.last()) {
            r
        } else {
            r.push(cs.last())
        }
    }
}

/// Whether `c` is among `seen`.
fn names_channel(seen: &Vec<String>, c: &str) -> (b: bool)
    ensures
        b == views(seen@).contains(c@),
{
    let n = seen.len();
    let mut i: usize = 0;
    while i < n
        invariant
            n == seen@.len(),
            i <= n,
            forall|j: int| 0 <= j < i ==> views(seen@)[j] != c@,
        decreases n - i,
    {
        if str_eq(seen[i].as_str(), c) {
            assert(views(seen@)[i as int] == c@);
            return true;
        }
        i = i + 1;
    }
    false
}

/// The channel filter of each query one poll issues: a single unfiltered query
/// for a wildcard subscription, else one query per named channel, a channel
/// named twice queried once.
pub fn channel_filters(channels: &Vec<String>) -> (filters: Vec<Option<String>>)
    ensures
        is_wildcard_list(views(channels@)) ==> filters@.len() == 1 && filters@[0] is None,
        !is_wildcard_list(views(channels@)) ==> {
            let d = distinct_channels(views(channels@));
            &&& filters@.len() == d.len()
            &&& forall|i: int| 0 <= i < d.len() ==> (#[trigger] filters@[i] matches Some(c) && c@ == d[i])
        },
{
    let mut filters: Vec<Option<String>> = Vec::new();
    if is_wildcard(channels) {
        filters.push(None);
        return filters;
    }
    let mut seen: Vec<String> = Vec::new();
    let n = channels.len();
    let mut i: usize = 0;
    while i < n
        invariant
            n == channels@.len(),
            i <= n,
            views(seen@) == distinct_channels(views(channels@).take(i as int)),
            filters@.len() == seen@.len(),
            forall|j: int| 0 <= j < seen@.len() ==> (#[trigger] filters@[j] matches Some(c) && c@ == seen@[j]@),
        decreases n - i,
    {
        proof {
            assert(views(channels@).take(i + 1).drop_last() =~= views(channels@).take(i as int));
            assert(views(channels@).take(i + 1).last() == channels@[i as int]@);
        }
        if !names_channel(&seen, channels[i].as_str()) {
            let ghost before = seen@;
            seen.push(channels[i].clone());
            filters.push(Some(channels[i].clone()));
            proof {
                assert(views(seen@) =~= views(before).push(channels@[i as int]@));
            }
        }
        i = i + 1;
    }
    proof {
        assert(views(channels@).take(n as int) =~= views(channels@));
        let d = distinct_channels(views(channels@));
        assert forall|j: int| 0 <= j < d.len() implies (#[trigger] filters@[j] matches Some(c) && c@ == d[j]) by {
            assert(views(seen@)[j] == seen@[j]@);
        }
    }
    filters
}

/// The events of one poll, given by their ids in the order the query returned
/// them, that are delivered when the newest id delivered so far is `last`:
/// each event newer than every event delivered before it. Returns the newest
/// id delivered afterwards and the positions of the delivered events.
pub open spec fn deliver(last: i64, ids: Seq<i64>) -> (i64, Seq<int>)
    decreases ids.len(),
{
    if ids.len() == 0 {
        (last, seq![])
    } else {
        let (l, picks) = deliver(last, ids.drop_last());
        let x = ids.last();
        if x <= l {
            (l, picks)
        } else {
            (x, picks.push(ids.len() - 1))
        }
    }
}

/// Delivery within one poll: positions rise, delivered ids rise and are newer
/// than `last`, the newest id never falls, and every polled id is at most
/// the newest id afterwards.
pub proof fn lemma_delivery_ordered(last: i64, ids: Seq<i64>)
    ensures
        ({
            let (nl, picks) = deliver(last, ids);
            &&& nl >= last
            &&& forall|i: int| 0 <= i < ids.len() ==> #[trigger] ids[i] <= nl
            &&& forall|k: int| 0 <= k < picks.len() ==> 0 <= #[trigger] picks[k] < ids.len()
            &&& forall|k: int| 0 <= k < picks.len() ==> last < #[trigger] ids[picks[k]] <= nl
            &&& forall|j: int, k: int|
                0 <= j < k < picks.len() ==> #[trigger] picks[j] < #[trigger] picks[k]
                    && ids[picks[j]] < ids[picks[k]]
            &&& picks.len() == 0 ==> nl == last
            &&& picks.len() > 0 ==> nl == ids[picks.last()]
        }),
    decreases ids.len(),
{
    if ids.len() > 0 {
        lemma_delivery_ordered(last, ids.drop_last());
        assert forall|i: int| 0 <= i < ids.drop_last().len() implies ids[i] == ids.drop_last()[i] by {}
    }
}

/// Across two polls, where the second starts from the newest id the first
/// delivered, every event the second delivers is newer than every event the
/// first delivered: no event is delivered twice.
pub proof fn lemma_no_redelivery(last: i64, first: Seq<i64>, second: Seq<i64>)
    ensures
        ({
            let (nl1, picks1) = deliver(last, first);
            let (nl2, picks2) = deliver(nl1, second);
            forall|j: int, k: int|
                0 <= j < picks1.len() && 0 <= k < picks2.len() ==> #[trigger] first[picks1[j]]
                    < #[trigger] second[picks2[k]]
        }),
{
    lemma_delivery_ordered(last, first);
    let (nl1, picks1) = deliver(last, first);
    lemma_delivery_ordered(nl1, second);
}

/// The positions of the events of one poll whose ids are newer than `last`.
pub open spec fn newer_positions(last: i64, ids: Seq<i64>) -> Seq<int>
    decreases ids.len(),
{
    if ids.len() == 0 {
        seq![]
    } else {
        let r = newer_positions(last, ids.drop_last());
        if ids.last() > last {
            r.push(ids.len() - 1)
        } else {
            r
        }
    }
}

/// When a channel's query returns its events oldest first, a poll delivers
/// every event newer than the channel's cursor, each once, and the cursor
/// moves to the newest of them.
pub proof fn lemma_ascending_poll_delivers_all_new(last: i64, ids: Seq<i64>)
    requires
        forall|i: int, j: int| 0 <= i < j < ids.len() ==> #[trigger] ids[i] < #[trigger] ids[j],
    ensures
        deliver(last, ids).1 == newer_positions(last, ids),
        deliver(last, ids).0 == if ids.len() > 0 && ids.last() > last {
            ids.last()
        } else {
            last
        },
    decreases ids.len(),
{
    if ids.len() > 0 {
        let prev = ids.drop_last();
        assert forall|i: int, j: int| 0 <= i < j < prev.len() implies #[trigger] prev[i] < #[trigger] prev[j] by {
            assert(prev[i] == ids[i] && prev[j] == ids[j]);
        }
        lemma_ascending_poll_delivers_all_new(last, prev);
        if prev.len() > 0 {
            assert(prev.last() == ids[ids.len() - 2]);
            assert(ids[ids.len() - 2] < ids[ids.len() - 1]);
        }
    }
}

/// The stream's position on each query a poll issues: for each, the newest
/// event id it has delivered so far. Every query keeps its own position, so
/// that events of one channel never hide newer-numbered ones of another.
pub struct StreamCursor {
    pub last_ids: Vec<i64>,
}

impl StreamCursor {
    /// A cursor for `queries` queries, each resuming after `last_event_id`,
    /// or from the start.
    pub fn new(queries: usize, last_event_id: Option<i64>) -> (c: StreamCursor)
        ensures
            c.last_ids@.len() == queries,
            forall|k: int| 0 <= k < queries ==> #[trigger] c.last_ids@[k] == match last_event_id {
                Some(id) => id,
                None => 0,
            },
    {
        let start = match last_event_id {
            Some(id) => id,
            None => 0,
        };
        let mut last_ids: Vec<i64> = Vec::new();
        let mut k: usize = 0;
        while k < queries
            invariant
                k <= queries,
                last_ids@.len() == k,
                forall|j: int| 0 <= j < k ==> #[trigger] last_ids@[j] == start,
            decreases queries - k,
        {
            last_ids.push(start);
            k = k + 1;
        }
        StreamCursor { last_ids }
    }

    /// Takes the ids of the events query `query` returned, in order, and gives
    /// the positions of those to deliver; that query's position moves to the
    /// newest, and the other queries' positions stay.
    pub fn advance(&mut self, query: usize, ids: &Vec<i64>) -> (picks: Vec<usize>)
        requires
            query < old(self).last_ids@.len(),
        ensures
            ({
                let (nl, p) = deliver(old(self).last_ids@[query as int], ids@);
                &&& final(self).last_ids@ == old(self).last_ids@.update(query as int, nl)
                &&& picks@.len() == p.len()
                &&& forall|k: int| 0 <= k < p.len() ==> picks@[k] as int == p[k]
            }),
    {
        let mut picks: Vec<usize> = Vec::new();
        let n = ids.len();
        let mut i: usize = 0;
        let start = self.last_ids[query];
        let mut last = start;
        while i < n
            invariant
                n == ids@.len(),
                i <= n,
                ({
                    let (nl, p) = deliver(start, ids@.take(i as int));
                    &&& last == nl
                    &&& picks@.len() == p.len()
                    &&& forall|k: int| 0 <= k < p.len() ==> picks@[k] as int == p[k]
                }),
            decreases n - i,
        {
            proof {
                assert(ids@.take(i + 1).drop_last() =~= ids@.take(i as int));
            }
            let id = ids[i];
            if id > last {
                last = id;
                picks.push(i);
            }
            i = i + 1;
        }
        assert(ids@.take(n as int) =~= ids@);
        self.last_ids.set(query, last);
        picks
    }
}

/// Polling one query moves only that query's position, to where its own
/// events take it; every other query's position stays as it was, whatever
/// ids the polled query returned.
pub proof fn lemma_queries_independent(before: Seq<i64>, after: Seq<i64>, query: int, other: int, ids: Seq<i64>)
    requires
        0 <= query < before.len(),
        0 <= other < before.len(),
        other != query,
        after == before.update(query, deliver(before[query], ids).0),
    ensures
        after[other] == before[other],
        after[query] == deliver(before[query], ids).0,
{
}

/// The data of one streamed event: an object with the event's `action`,
/// `channel`, `created_at`, `id`, `payload` and `source`, members in the
/// order serde_json keeps them.
pub open spec fn is_event_data(
    v: JsonValue,
    id: i64,
    channel: Seq<char>,
    action: Seq<char>,
    payload: JsonValue,
    source: Seq<char>,
    created_at: Seq<char>,
) -> bool {
    &&& v matches JsonValue::Object(m)
    &&& m@.len() == 6
    &&& text_member_is(m@[0], "action"@, action)
    &&& text_member_is(m@[1], "channel"@, channel)
    &&& text_member_is(m@[2], "created_at"@, created_at)
    &&& member_is(m@[3], "id"@, JsonValue::Number(json_int(id)))
    &&& member_is(m@[4], "payload"@, payload)
    &&& text_member_is(m@[5], "source"@, source)
}

/// The data a streamed event carries: the event's fields as a JSON object.
pub fn event_data(
    id: i64,
    channel: &str,
    action: &str,
    payload: JsonValue,
    source: &str,
    created_at: &str,
) -> (v: JsonValue)
    ensures
        is_event_data(v, id, channel@, action@, payload, source@, created_at@),
{
    let mut m: Vec<(String, JsonValue)> = Vec::new();
    m.push(text_member("action", action));
    m.push(text_member("channel", channel));
    m.push(text_member("created_at", created_at));
    m.push(("id".to_owned(), JsonValue::Number(int_number(id))));
    m.push(("payload".to_owned(), payload));
    m.push(text_member("source", source));
    JsonValue::Object(m)
}

} // verus!
