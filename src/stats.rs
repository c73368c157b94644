//! Trace statistics: aggregation keys taken from spans, and the stats
//! payload built for one partition of traces.
use vstd::prelude::*;
use crate::value::{
    Val, Value, entries_model, find_field, find_key,
};

verus! {

/// The metric that marks a span as the top-level span of its service.
pub const TOP_LEVEL_KEY: &'static str = "_dd.top_level";

/// The part of an aggregation key shared by a whole stats payload.
#[derive(Clone, Debug, PartialEq, Eq, PartialOrd, Ord)]
pub struct PayloadAggregationKey {
    pub env: String,
    pub hostname: String,
    pub version: String,
    pub container_id: String,
}

/// The part of an aggregation key that selects a group within a bucket.
#[derive(Debug, PartialEq, Eq, PartialOrd, Ord)]
pub struct BucketAggregationKey {
    pub service: String,
    pub name: String,
    pub resource: String,
    pub ty: String,
    pub status_code: u32,
}

/// The key under which a span's statistics are aggregated.
#[derive(Debug, PartialEq, Eq, PartialOrd, Ord)]
pub struct AggregationKey {
    pub payload_key: PayloadAggregationKey,
    pub bucket_key: BucketAggregationKey,
}

/// The grouped statistics of one aggregation key, as sent.
#[derive(Debug)]
pub struct ClientGroupedStats {
    pub service: String,
    pub name: String,
    pub resource: String,
    pub http_status_code: u32,
    pub ty: String,
    pub db_type: String,
    pub hits: u64,
    pub errors: u64,
    pub duration: u64,
    pub ok_summary: Vec<u8>,
    pub error_summary: Vec<u8>,
    pub synthetics: bool,
    pub top_level_hits: u64,
}

/// The statistics of one time bucket, as sent.
#[derive(Debug)]
pub struct ClientStatsBucket {
    pub start: u64,
    pub duration: u64,
    pub stats: Vec<ClientGroupedStats>,
    pub agent_time_shift: i64,
}

/// The statistics of one payload key, as sent.
#[derive(Debug)]
pub struct ClientStatsPayload {
    pub hostname: String,
    pub env: String,
    pub version: String,
    pub container_id: String,
    pub stats: Vec<ClientStatsBucket>,
}

/// The whole stats payload of one partition.
#[derive(Debug)]
pub struct StatsPayload {
    pub agent_hostname: String,
    pub agent_env: String,
    pub stats: Vec<ClientStatsPayload>,
    pub agent_version: String,
    pub client_computed: bool,
}

/// What traces are partitioned by before their stats are computed.
pub struct PartitionKey {
    pub env: Option<String>,
    pub hostname: Option<String>,
    pub agent_version: Option<String>,
}

/// The characters of a decimal digit.
pub open spec fn digit_char(d: nat) -> char {
    if d == 0 { '0' } else if d == 1 { '1' } else if d == 2 { '2' } else if d == 3 { '3' }
    else if d == 4 { '4' } else if d == 5 { '5' } else if d == 6 { '6' } else if d == 7 { '7' }
    else if d == 8 { '8' } else { '9' }
}

/// The decimal digits of `n`, most significant first.
pub open spec fn digits(n: nat) -> Seq<char>
    decreases n,
{
    if n < 10 {
        seq![digit_char(n)]
    } else {
        digits(n / 10).push(digit_char(n % 10))
    }
}

/// The decimal text of `i`, with a leading `-` when it is negative.
pub open spec fn decimal(i: int) -> Seq<char> {
    if i < 0 {
        seq!['-'] + digits((-i) as nat)
    } else {
        digits(i as nat)
    }
}

/// Relies on the `Display` impl of `i64`: it writes the decimal digits,
/// with a leading `-` for a negative number.
#[verifier::external_body]
fn integer_text(i: i64) -> (r: String)
    ensures
        r@ == decimal(i as int),
{
    i.to_string()
}

/// The text of a value where one is defined: a byte string is itself, a
/// boolean `true` or `false`, an integer its decimal digits, and null
/// `<null>`. Floats, sequences and mappings have none here.
pub open spec fn lossy_text(v: Val) -> Option<Seq<char>> {
    match v {
        Val::Bytes(s) => Some(s),
        Val::Null => Some("<null>"@),
        Val::Boolean(b) => Some(if b { "true"@ } else { "false"@ }),
        Val::Integer(i) => Some(decimal(i as int)),
        _ => None,
    }
}

/// The text of a scalar value, as [`lossy_text`] defines it.
pub fn to_string_lossy(v: &Value) -> (r: Option<String>)
    ensures
        match r {
            Some(s) => lossy_text(v@) == Some(s@),
            None => lossy_text(v@).is_none(),
        },
{
    match v {
        Value::Bytes(s) => Some(s.clone()),
        Value::Null => Some("<null>".to_string()),
        Value::Boolean(b) => if *b {
            Some("true".to_string())
        } else {
            Some("false".to_string())
        },
        Value::Integer(i) => Some(integer_text(*i)),
        _ => None,
    }
}

/// The text of the span field `key`: empty where the field is missing or
/// has no text.
pub open spec fn field_text(span: Seq<(Seq<char>, Val)>, key: Seq<char>) -> Seq<char> {
    let i = find_key(span, key, 0);
    if i < 0 {
        Seq::empty()
    } else {
        match lossy_text(span[i].1) {
            Some(s) => s,
            None => Seq::empty(),
        }
    }
}

fn span_field_text(span: &Vec<(String, Value)>, key: &str) -> (r: String)
    ensures
        r@ == field_text(entries_model(*span), key@),
{
    let k = key.to_string();
    match find_field(span, &k) {
        None => String::new(),
        Some(j) => {
            proof {
                crate::value::lemma_find_key_found(entries_model(*span), k@, 0);
            }
            assert(entries_model(*span)[j as int].1 == span@[j as int].1@);
            match to_string_lossy(&span[j].1) {
                Some(s) => s,
                None => String::new(),
            }
        },
    }
}

impl AggregationKey {
    /// The aggregation key of a span: the payload key as given, and the
    /// span's `service`, `name`, `resource` and `type` as text, each empty
    /// where the span lacks it; the status code is 0.
    #[allow(non_snake_case)]
    pub fn NewAggregationFromSpan(
        span: &Vec<(String, Value)>,
        origin: String,
        payload_key: PayloadAggregationKey,
    ) -> (r: AggregationKey)
        ensures
            r.payload_key == payload_key,
            r.bucket_key.service@ == field_text(entries_model(*span), "service"@),
            r.bucket_key.name@ == field_text(entries_model(*span), "name"@),
            r.bucket_key.resource@ == field_text(entries_model(*span), "resource"@),
            r.bucket_key.ty@ == field_text(entries_model(*span), "type"@),
            r.bucket_key.status_code == 0,
    {
        AggregationKey {
            payload_key,
            bucket_key: BucketAggregationKey {
                service: span_field_text(span, "service"),
                name: span_field_text(span, "name"),
                resource: span_field_text(span, "resource"),
                ty: span_field_text(span, "type"),
                status_code: 0,
            },
        }
    }
}

/// Aggregates the statistics of the spans it is handed.
pub struct Aggregator {}

impl Aggregator {
    /// An aggregator that has seen no trace.
    pub fn new() -> (r: Aggregator) {
        Aggregator {  }
    }

    /// Takes a trace into account. Traces do not yet contribute statistics.
    pub fn handle_trace(&self, _trace: &Value) {
    }

    /// The per-payload statistics gathered so far: none yet.
    pub fn get_client_stats_payload(&self) -> (r: Vec<ClientStatsPayload>)
        ensures
            r@.len() == 0,
    {
        Vec::new()
    }
}

/// A float's sign is positive (its `signum` is 1): the sign bit is clear
/// and the bits are not a NaN.
pub open spec fn positive_sign(bits: u64) -> bool {
    bits <= 0x7ff0_0000_0000_0000u64
}

/// A span is top-level when its `metrics` mapping holds the top-level
/// metric as a float of positive sign.
pub open spec fn top_level_spec(span: Seq<(Seq<char>, Val)>) -> bool {
    let i = find_key(span, "metrics"@, 0);
    &&& i >= 0
    &&& span[i].1 is Object
    &&& {
        let metrics = span[i].1->Object_0;
        let j = find_key(metrics, TOP_LEVEL_KEY@, 0);
        &&& j >= 0
        &&& metrics[j].1 is Float
        &&& positive_sign(metrics[j].1->Float_0)
    }
}

/// Whether the span is the top-level span of its service.
pub fn has_top_level(span: &Vec<(String, Value)>) -> (r: bool)
    ensures
        r == top_level_spec(entries_model(*span)),
{
    let key = "metrics".to_string();
    match find_field(span, &key) {
        None => false,
        Some(i) => {
            proof {
                crate::value::lemma_find_key_found(entries_model(*span), key@, 0);
            }
            assert(entries_model(*span)[i as int].1 == span@[i as int].1@);
            match &span[i].1 {
                Value::Object(metrics) => {
                    let top = TOP_LEVEL_KEY.to_string();
                    match find_field(metrics, &top) {
                        None => false,
                        Some(j) => {
                            proof {
                                crate::value::lemma_find_key_found(
                                    entries_model(*metrics),
                                    top@,
                                    0,
                                );
                            }
                            assert(entries_model(*metrics)[j as int].1 == metrics@[j as int].1@);
                            match &metrics[j].1 {
                                Value::Float(bits) => *bits <= 0x7ff0_0000_0000_0000u64,
                                _ => false,
                            }
                        },
                    }
                },
                _ => false,
            }
        },
    }
}

fn text_or_empty(s: &Option<String>) -> (r: String)
    ensures
        r@ == match s {
            Some(t) => t@,
            None => Seq::<char>::empty(),
        },
{
    match s {
        Some(t) => t.clone(),
        None => String::new(),
    }
}

/// The stats payload of one partition of traces: the partition's host,
/// environment and agent version (empty where unset), with the statistics
/// that the aggregator gathered from the traces.
pub fn compute_apm_stats(key: &PartitionKey, traces: &Vec<Value>) -> (r: StatsPayload)
    ensures
        r.agent_hostname@ == match key.hostname {
            Some(t) => t@,
            None => Seq::<char>::empty(),
        },
        r.agent_env@ == match key.env {
            Some(t) => t@,
            None => Seq::<char>::empty(),
        },
        r.agent_version@ == match key.agent_version {
            Some(t) => t@,
            None => Seq::<char>::empty(),
        },
        r.stats@.len() == 0,
        !r.client_computed,
{
    let aggregator = Aggregator::new();
    let mut i: usize = 0;
    while i < traces.len()
        invariant
            i <= traces.len(),
        decreases traces.len() - i,
    {
        aggregator.handle_trace(&traces[i]);
        i = i + 1;
    }
    StatsPayload {
        agent_hostname: text_or_empty(&key.hostname),
        agent_env: text_or_empty(&key.env),
        stats: aggregator.get_client_stats_payload(),
        agent_version: text_or_empty(&key.agent_version),
        client_computed: false,
    }
}

/// The model of a payload key: its four fields.
pub open spec fn payload_model(k: PayloadAggregationKey) -> Seq<Seq<char>> {
    seq![k.env@, k.hostname@, k.version@, k.container_id@]
}

/// Whether two payload keys are equal field by field.
pub fn payload_keys_equal(a: &PayloadAggregationKey, b: &PayloadAggregationKey) -> (r: bool)
    ensures
        r == (payload_model(*a) == payload_model(*b)),
{
    let r = a.env == b.env && a.hostname == b.hostname && a.version == b.version
        && a.container_id == b.container_id;
    if r {
        assert(payload_model(*a) =~= payload_model(*b));
    } else {
        proof {
            if payload_model(*a) == payload_model(*b) {
                assert(payload_model(*a)[0] == payload_model(*b)[0]);
                assert(payload_model(*a)[1] == payload_model(*b)[1]);
                assert(payload_model(*a)[2] == payload_model(*b)[2]);
                assert(payload_model(*a)[3] == payload_model(*b)[3]);
            }
        }
    }
    r
}

/// A group of statistics: its payload key and its entries in order.
pub type Group = (Seq<Seq<char>>, Seq<ClientGroupedStats>);

/// Index of the first group at or after `i` whose key is `k`, or -1.
pub open spec fn group_index(groups: Seq<Group>, k: Seq<Seq<char>>, i: int) -> int
    decreases groups.len() - i,
{
    if i < 0 || i >= groups.len() {
        -1
    } else if groups[i].0 == k {
        i
    } else {
        group_index(groups, k, i + 1)
    }
}

/// The entries grouped by payload key: one group per key, in order of the
/// key's first appearance, each holding that key's entries in order.
pub open spec fn grouped(entries: Seq<(PayloadAggregationKey, ClientGroupedStats)>) -> Seq<Group>
    decreases entries.len(),
{
    if entries.len() == 0 {
        Seq::empty()
    } else {
        let g = grouped(entries.drop_last());
        let (k, s) = entries.last();
        let j = group_index(g, payload_model(k), 0);
        if j < 0 {
            g.push((payload_model(k), seq![s]))
        } else {
            g.update(j, (g[j].0, g[j].1.push(s)))
        }
    }
}

/// The groups that a list of buckets holds.
pub open spec fn buckets_model(out: Seq<(PayloadAggregationKey, ClientStatsBucket)>) -> Seq<Group> {
    out.map_values(
        |e: (PayloadAggregationKey, ClientStatsBucket)| (payload_model(e.0), e.1.stats@),
    )
}

proof fn lemma_group_index_found(groups: Seq<Group>, k: Seq<Seq<char>>, i: int)
    ensures
        group_index(groups, k, i) >= 0 ==> i <= group_index(groups, k, i) < groups.len()
            && groups[group_index(groups, k, i)].0 == k,
    decreases groups.len() - i,
{
    if 0 <= i < groups.len() && groups[i].0 != k {
        lemma_group_index_found(groups, k, i + 1);
    }
}

/// Gathers the statistics of one time bucket by payload key: one bucket
/// per key, in order of first appearance, each starting at `start`, of
/// length `duration`, with no time shift, holding its key's entries in
/// order.
pub fn group_by_payload(
    start: u64,
    duration: u64,
    stats: Vec<(PayloadAggregationKey, ClientGroupedStats)>,
) -> (r: Vec<(PayloadAggregationKey, ClientStatsBucket)>)
    ensures
        buckets_model(r@) == grouped(stats@),
        forall|i: int|
            0 <= i < r@.len() ==> (#[trigger] r@[i]).1.start == start && r@[i].1.duration
                == duration && r@[i].1.agent_time_shift == 0,
{
    let ghost all = stats@;
    let mut rest = stats;
    let mut out: Vec<(PayloadAggregationKey, ClientStatsBucket)> = Vec::new();
    assert(buckets_model(out@) =~= grouped(all.subrange(0, 0)));
    while rest.len() > 0
        invariant
            rest@.len() <= all.len(),
            rest@ == all.subrange(all.len() - rest@.len(), all.len() as int),
            buckets_model(out@) == grouped(all.subrange(0, all.len() - rest@.len())),
            forall|i: int|
                0 <= i < out@.len() ==> (#[trigger] out@[i]).1.start == start && out@[i].1.duration
                    == duration && out@[i].1.agent_time_shift == 0,
        decreases rest.len(),
    {
        let ghost done = all.len() - rest@.len();
        let ghost before = buckets_model(out@);
        let ghost out_before = out@;
        let (k, s) = rest.remove(0);
        assert(all[done] == (k, s));
        assert(all.subrange(0, done + 1).drop_last() =~= all.subrange(0, done));
        assert(all.subrange(0, done + 1).last() == (k, s));
        assert(rest@ =~= all.subrange(done + 1, all.len() as int));
        let mut found: Option<usize> = None;
        let mut j: usize = 0;
        while j < out.len() && found.is_none()
            invariant
                j <= out.len(),
                out@ == out_before,
                before == buckets_model(out@),
                found is None ==> group_index(before, payload_model(k), 0) == group_index(
                    before,
                    payload_model(k),
                    j as int,
                ),
                found is Some ==> found->0 == j && j < out.len() && group_index(
                    before,
                    payload_model(k),
                    0,
                ) == j as int,
            decreases out.len() - j + if found is None { 1int } else { 0int },
        {
            assert(before[j as int].0 == payload_model(out@[j as int].0));
            if payload_keys_equal(&out[j].0, &k) {
                found = Some(j);
            } else {
                j = j + 1;
            }
        }
        proof {
            lemma_group_index_found(before, payload_model(k), 0);
        }
        match found {
            None => {
                assert(group_index(before, payload_model(k), 0) < 0);
                let mut items: Vec<ClientGroupedStats> = Vec::new();
                items.push(s);
                out.push(
                    (k, ClientStatsBucket { start, duration, stats: items, agent_time_shift: 0 }),
                );
                assert(buckets_model(out@) =~= before.push((payload_model(k), seq![s])));
            },
            Some(j) => {
                assert(group_index(before, payload_model(k), 0) == j);
                let (key, mut bucket) = out.remove(j);
                bucket.stats.push(s);
                out.insert(j, (key, bucket));
                assert(buckets_model(out@) =~= before.update(
                    j as int,
                    (before[j as int].0, before[j as int].1.push(s)),
                ));
            },
        }
    }
    assert(all.subrange(0, all.len() as int) =~= all);
    out
}

} // verus!
