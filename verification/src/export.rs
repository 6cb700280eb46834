//! What a dataset run stores: the object keys of its files, the start label
//! they carry, the timestamp and sequence columns, and the batching of rows
//! into Parquet row groups of bounded size.
use vstd::prelude::*;
use vstd::string::*;

use crate::config::{DatasetConfig, KafkaConfig};
use crate::text::{push_char, push_text};
use crate::time::{
    format_rfc3339_utc_seconds, parse_rfc3339_millis, rfc3339_timestamp_millis, rfc3339_utc_seconds,
    CALENDAR_REACH_MS,
};

verus! {

/// Characters that may stand unchanged in an object file name.
pub open spec fn is_file_name_char(c: char) -> bool {
    ||| ('A' <= c && c <= 'Z')
    ||| ('a' <= c && c <= 'z')
    ||| ('0' <= c && c <= '9')
    ||| c == '.'
    ||| c == '_'
    ||| c == '-'
}

/// Every character outside the file-name alphabet becomes `_`.
pub open spec fn spec_filename_component(value: Seq<char>) -> Seq<char> {
    value.map_values(|c: char| if is_file_name_char(c) { c } else { '_' })
}

/// `dataset/<sanitized entity id>-<start>.parquet`.
pub open spec fn spec_dataset_object_key(entity_id: Seq<char>, start_iso: Seq<char>) -> Seq<char> {
    "dataset/"@ + spec_filename_component(entity_id) + "-"@ + start_iso + ".parquet"@
}

/// `metadata/anomalies-<start>.json`.
pub open spec fn spec_metadata_object_key(start_iso: Seq<char>) -> Seq<char> {
    "metadata/anomalies-"@ + start_iso + ".json"@
}

/// Sanitizing keeps the value's length and every file-name character in
/// place, turns every other character into `_`, leaves only file-name
/// characters, and changes nothing when applied again.
pub proof fn lemma_filename_component(value: Seq<char>)
    ensures
        spec_filename_component(value).len() == value.len(),
        forall|i: int| 0 <= i < value.len() ==> is_file_name_char(#[trigger] value[i])
            ==> spec_filename_component(value)[i] == value[i],
        forall|i: int| 0 <= i < value.len() ==> !is_file_name_char(#[trigger] value[i])
            ==> spec_filename_component(value)[i] == '_',
        forall|i: int| 0 <= i < value.len() ==> is_file_name_char(#[trigger] spec_filename_component(value)[i]),
        spec_filename_component(spec_filename_component(value)) == spec_filename_component(value),
{
    assert(spec_filename_component(spec_filename_component(value)) =~= spec_filename_component(value));
}

/// A dataset object key reads, from left to right: `dataset/`, the
/// sanitized entity id, `-`, the start label, `.parquet`.
pub proof fn lemma_dataset_object_key_layout(entity_id: Seq<char>, start_iso: Seq<char>)
    ensures
        ({
            let k = spec_dataset_object_key(entity_id, start_iso);
            let n = entity_id.len();
            let m = start_iso.len();
            &&& k.len() == 8 + n + 1 + m + 8
            &&& k.subrange(0, 8) == "dataset/"@
            &&& k.subrange(8, 8 + n as int) == spec_filename_component(entity_id)
            &&& k[8 + n as int] == '-'
            &&& k.subrange(9 + n as int, 9 + n + m as int) == start_iso
            &&& k.subrange(9 + n + m as int, k.len() as int) == ".parquet"@
        }),
{
    reveal_strlit("dataset/");
    reveal_strlit("-");
    reveal_strlit(".parquet");
    let k = spec_dataset_object_key(entity_id, start_iso);
    let n = entity_id.len();
    let m = start_iso.len();
    let id = spec_filename_component(entity_id);
    assert(k.subrange(0, 8) =~= "dataset/"@);
    assert(k.subrange(8, 8 + n as int) =~= id);
    assert(k.subrange(9 + n as int, 9 + n + m as int) =~= start_iso);
    assert(k.subrange(9 + n + m as int, k.len() as int) =~= ".parquet"@);
}

/// A metadata object key reads `metadata/anomalies-`, the start label,
/// `.json`.
pub proof fn lemma_metadata_object_key_layout(start_iso: Seq<char>)
    ensures
        ({
            let k = spec_metadata_object_key(start_iso);
            let m = start_iso.len();
            &&& k.len() == 19 + m + 5
            &&& k.subrange(0, 19) == "metadata/anomalies-"@
            &&& k.subrange(19, 19 + m as int) == start_iso
            &&& k.subrange(19 + m as int, k.len() as int) == ".json"@
        }),
{
    reveal_strlit("metadata/anomalies-");
    reveal_strlit(".json");
    let k = spec_metadata_object_key(start_iso);
    let m = start_iso.len();
    assert(k.subrange(0, 19) =~= "metadata/anomalies-"@);
    assert(k.subrange(19, 19 + m as int) =~= start_iso);
    assert(k.subrange(19 + m as int, k.len() as int) =~= ".json"@);
}

/// Replaces every character that is not an ASCII letter, digit, `.`, `_` or
/// `-` with `_`, so the value can stand in an object file name.
pub fn filename_component(value: &str) -> (r: String)
    ensures
        r@ == spec_filename_component(value@),
{
    let n = value.unicode_len();
    let mut out = String::new();
    let mut i: usize = 0;
    while i < n
        invariant
            n == value@.len(),
            i <= n,
            out@ == spec_filename_component(value@.subrange(0, i as int)),
        decreases n - i,
    {
        let c = value.get_char(i);
        let keep = ('A' <= c && c <= 'Z') || ('a' <= c && c <= 'z') || ('0' <= c && c <= '9')
            || c == '.' || c == '_' || c == '-';
        if keep {
            push_char(&mut out, c);
        } else {
            push_char(&mut out, '_');
        }
        assert(value@.subrange(0, i + 1) =~= value@.subrange(0, i as int).push(c));
        i = i + 1;
    }
    assert(value@.subrange(0, n as int) =~= value@);
    out
}

/// The object key of the Parquet file for a dataset run, named after the
/// first emitted entity and the run's start instant.
pub fn dataset_object_key(entity_id: &str, dataset_start_iso: &str) -> (r: String)
    ensures
        r@ == spec_dataset_object_key(entity_id@, dataset_start_iso@),
{
    let mut key = String::new();
    push_text(&mut key, "dataset/");
    let component = filename_component(entity_id);
    push_text(&mut key, component.as_str());
    push_text(&mut key, "-");
    push_text(&mut key, dataset_start_iso);
    push_text(&mut key, ".parquet");
    assert(key@ =~= spec_dataset_object_key(entity_id@, dataset_start_iso@));
    key
}

/// The object key of the anomaly metadata document of a dataset run.
pub fn metadata_object_key(dataset_start_iso: &str) -> (r: String)
    ensures
        r@ == spec_metadata_object_key(dataset_start_iso@),
{
    let mut key = String::new();
    push_text(&mut key, "metadata/anomalies-");
    push_text(&mut key, dataset_start_iso);
    push_text(&mut key, ".json");
    assert(key@ =~= spec_metadata_object_key(dataset_start_iso@));
    key
}

/// The RFC 3339 label, to whole seconds in UTC, of a dataset run that starts
/// `start_ms` milliseconds after the Unix epoch, or the refusal of a start
/// outside the representable calendar.
pub fn dataset_start_label(start_ms: i64) -> (r: Result<String, String>)
    ensures
        r matches Ok(label) ==> label@ == rfc3339_utc_seconds(start_ms as int),
        r matches Err(e) ==> e@ == "dataset start timestamp is not representable"@,
        -CALENDAR_REACH_MS <= start_ms <= CALENDAR_REACH_MS ==> r is Ok,
{
    match format_rfc3339_utc_seconds(start_ms) {
        Some(label) => Ok(label),
        None => Err(String::from_str("dataset start timestamp is not representable")),
    }
}

/// The signed sequence column of a reading: its sequence number, saturated
/// at `i64::MAX`.
pub fn sequence_column(sequence: u64) -> (r: i64)
    ensures
        r == if sequence <= i64::MAX { sequence as int } else { i64::MAX as int },
{
    if sequence <= 0x7fff_ffff_ffff_ffffu64 {
        sequence as i64
    } else {
        i64::MAX
    }
}

/// The number of rows in each Parquet row group of a dataset file. Batching
/// rows keeps the number of row groups of long runs far below the format's
/// limit.
pub const ROW_GROUP_SIZE: usize = 100_000;

/// The rows of `groups`, in order.
pub open spec fn concat_groups<T>(groups: Seq<Seq<T>>) -> Seq<T>
    decreases groups.len(),
{
    if groups.len() == 0 {
        seq![]
    } else {
        concat_groups(groups.drop_last()) + groups.last()
    }
}

pub open spec fn group_views<T>(groups: Seq<Vec<T>>) -> Seq<Seq<T>> {
    groups.map_values(|g: Vec<T>| g@)
}

/// Rows waiting to be written, handed out in full row groups.
pub struct RowGroupBuffer<T> {
    group_size: usize,
    rows: Vec<T>,
}

impl<T> RowGroupBuffer<T> {
    /// Fewer rows wait than fill a group.
    pub closed spec fn well_formed(&self) -> bool {
        0 < self.rows@.len() + 1 <= self.group_size
    }

    pub closed spec fn view(&self) -> Seq<T> {
        self.rows@
    }

    pub closed spec fn group_size(&self) -> nat {
        self.group_size as nat
    }

    /// An empty buffer that hands out groups of `group_size` rows.
    pub fn new(group_size: usize) -> (r: Self)
        requires
            group_size > 0,
        ensures
            r.well_formed(),
            r@ == Seq::<T>::empty(),
            r.group_size() == group_size,
    {
        RowGroupBuffer { group_size, rows: Vec::new() }
    }

    /// Appends `rows` and hands out, in order, every full group that can be
    /// cut from the front of the waiting rows. The rows handed out followed
    /// by those still waiting are the rows that waited before followed by
    /// `rows`; fewer than a group's worth stay behind.
    pub fn push_rows(&mut self, rows: Vec<T>) -> (groups: Vec<Vec<T>>)
        requires
            old(self).well_formed(),
        ensures
            final(self).well_formed(),
            final(self).group_size() == old(self).group_size(),
            concat_groups(group_views(groups@)) + final(self)@ == old(self)@ + rows@,
            forall|i: int| 0 <= i < groups@.len() ==> (#[trigger] groups@[i])@.len() == old(self).group_size(),
    {
        let mut incoming = rows;
        self.rows.append(&mut incoming);
        let ghost total = self.rows@;
        let mut groups: Vec<Vec<T>> = Vec::new();
        assert(concat_groups(group_views(groups@)) + self.rows@ =~= total);
        while self.rows.len() >= self.group_size
            invariant
                self.group_size > 0,
                self.group_size == old(self).group_size,
                concat_groups(group_views(groups@)) + self.rows@ == total,
                forall|i: int| 0 <= i < groups@.len() ==> (#[trigger] groups@[i])@.len() == self.group_size,
            decreases self.rows@.len(),
        {
            let ghost before = groups@;
            let ghost waiting = self.rows@;
            let mut group = self.rows.split_off(self.group_size);
            std::mem::swap(&mut group, &mut self.rows);
            groups.push(group);
            proof {
                assert(groups@ == before.push(group));
                assert(group_views(groups@) =~= group_views(before).push(group@));
                assert(group_views(groups@).drop_last() =~= group_views(before));
                assert(waiting =~= group@ + self.rows@);
                assert(concat_groups(group_views(groups@)) + self.rows@ =~= concat_groups(group_views(before))
                    + waiting);
            }
        }
        groups
    }

    /// Hands out every waiting row, in order, and empties the buffer.
    pub fn take_remaining(&mut self) -> (r: Vec<T>)
        requires
            old(self).well_formed(),
        ensures
            final(self).well_formed(),
            final(self).group_size() == old(self).group_size(),
            r@ == old(self)@,
            final(self)@ == Seq::<T>::empty(),
    {
        let mut rest: Vec<T> = Vec::new();
        std::mem::swap(&mut rest, &mut self.rows);
        rest
    }
}

/// The HTTP route of the metrics endpoint: the configured path, with a
/// leading `/` added when it has none.
pub open spec fn spec_metrics_route(path: Seq<char>) -> Seq<char> {
    if path.len() > 0 && path[0] == '/' {
        path
    } else {
        "/"@ + path
    }
}

/// The metrics route always starts with `/`: a path that already does is
/// used as it is, any other path gets exactly one `/` in front.
pub proof fn lemma_metrics_route(path: Seq<char>)
    ensures
        spec_metrics_route(path).len() > 0,
        spec_metrics_route(path)[0] == '/',
        path.len() > 0 && path[0] == '/' ==> spec_metrics_route(path) == path,
        !(path.len() > 0 && path[0] == '/') ==> spec_metrics_route(path).len() == path.len() + 1
            && spec_metrics_route(path).drop_first() == path,
{
    reveal_strlit("/");
    if !(path.len() > 0 && path[0] == '/') {
        assert(spec_metrics_route(path).drop_first() =~= path);
    }
}

/// The HTTP route of the metrics endpoint.
pub fn metrics_route(path: &str) -> (r: String)
    ensures
        r@ == spec_metrics_route(path@),
{
    if path.unicode_len() > 0 && path.get_char(0) == '/' {
        path.to_string()
    } else {
        let mut route = String::from_str("/");
        push_text(&mut route, path);
        route
    }
}

/// The settings handed to the Kafka producer, in order: brokers, client id,
/// a five-second delivery timeout, idempotent delivery acknowledged by all
/// replicas, then each security setting that is configured.
pub open spec fn spec_kafka_settings(c: KafkaConfig) -> Seq<(Seq<char>, Seq<char>)> {
    seq![
        ("bootstrap.servers"@, c.brokers@),
        ("client.id"@, c.client_id@),
        ("message.timeout.ms"@, "5000"@),
        ("enable.idempotence"@, "true"@),
        ("acks"@, "all"@),
    ] + optional_setting("security.protocol"@, c.security.security_protocol)
        + optional_setting("sasl.mechanism"@, c.security.sasl_mechanism)
        + optional_setting("sasl.username"@, c.security.username)
        + optional_setting("sasl.password"@, c.security.password)
}

pub open spec fn optional_setting(key: Seq<char>, value: Option<String>) -> Seq<(Seq<char>, Seq<char>)> {
    match value {
        Some(v) => seq![(key, v@)],
        None => seq![],
    }
}

/// One for a configured option, none otherwise.
pub open spec fn configured_count(o: Option<String>) -> int {
    if o is Some { 1 } else { 0 }
}

/// The producer settings hold the brokers, the client id, the delivery
/// guarantees and every configured security option with its value, and
/// nothing more: five fixed settings plus one per configured option.
pub proof fn lemma_kafka_settings_complete(c: KafkaConfig)
    ensures
        spec_kafka_settings(c).len() == 5 + configured_count(c.security.security_protocol) + configured_count(
            c.security.sasl_mechanism,
        ) + configured_count(c.security.username) + configured_count(c.security.password),
        spec_kafka_settings(c).contains(("bootstrap.servers"@, c.brokers@)),
        spec_kafka_settings(c).contains(("client.id"@, c.client_id@)),
        spec_kafka_settings(c).contains(("message.timeout.ms"@, "5000"@)),
        spec_kafka_settings(c).contains(("enable.idempotence"@, "true"@)),
        spec_kafka_settings(c).contains(("acks"@, "all"@)),
        c.security.security_protocol matches Some(v) ==> spec_kafka_settings(c).contains(("security.protocol"@, v@)),
        c.security.sasl_mechanism matches Some(v) ==> spec_kafka_settings(c).contains(("sasl.mechanism"@, v@)),
        c.security.username matches Some(v) ==> spec_kafka_settings(c).contains(("sasl.username"@, v@)),
        c.security.password matches Some(v) ==> spec_kafka_settings(c).contains(("sasl.password"@, v@)),
{
    let base = seq![
        ("bootstrap.servers"@, c.brokers@),
        ("client.id"@, c.client_id@),
        ("message.timeout.ms"@, "5000"@),
        ("enable.idempotence"@, "true"@),
        ("acks"@, "all"@),
    ];
    let a = optional_setting("security.protocol"@, c.security.security_protocol);
    let b = optional_setting("sasl.mechanism"@, c.security.sasl_mechanism);
    let d = optional_setting("sasl.username"@, c.security.username);
    let e = optional_setting("sasl.password"@, c.security.password);
    let s = spec_kafka_settings(c);
    assert(s == base + a + b + d + e);
    assert(a.len() == configured_count(c.security.security_protocol));
    assert(b.len() == configured_count(c.security.sasl_mechanism));
    assert(d.len() == configured_count(c.security.username));
    assert(e.len() == configured_count(c.security.password));
    assert(s[0] == base[0] && s[1] == base[1] && s[2] == base[2] && s[3] == base[3] && s[4] == base[4]);
    if a.len() == 1 {
        assert(s[5] == a[0]);
    }
    if b.len() == 1 {
        assert(s[5 + a.len() as int] == b[0]);
    }
    if d.len() == 1 {
        assert(s[5 + a.len() + b.len() as int] == d[0]);
    }
    if e.len() == 1 {
        assert(s[5 + a.len() + b.len() + d.len() as int] == e[0]);
    }
}

pub open spec fn settings_view(v: Seq<(String, String)>) -> Seq<(Seq<char>, Seq<char>)> {
    v.map_values(|kv: (String, String)| (kv.0@, kv.1@))
}

fn push_setting(settings: &mut Vec<(String, String)>, key: &str, value: &str)
    ensures
        settings_view(final(settings)@) == settings_view(old(settings)@).push((key@, value@)),
{
    let ghost before = settings@;
    settings.push((key.to_string(), value.to_string()));
    assert(settings_view(settings@) =~= settings_view(before).push((key@, value@)));
}

fn push_optional_setting(settings: &mut Vec<(String, String)>, key: &str, value: &Option<String>)
    ensures
        settings_view(final(settings)@) == settings_view(old(settings)@) + optional_setting(key@, *value),
{
    match value {
        Some(v) => push_setting(settings, key, v.as_str()),
        None => {},
    }
    assert(settings_view(settings@) =~= settings_view(old(settings)@) + optional_setting(key@, *value));
}

/// The settings handed to the Kafka producer.
pub fn kafka_settings(c: &KafkaConfig) -> (r: Vec<(String, String)>)
    ensures
        settings_view(r@) == spec_kafka_settings(*c),
{
    let mut settings: Vec<(String, String)> = Vec::new();
    push_setting(&mut settings, "bootstrap.servers", c.brokers.as_str());
    push_setting(&mut settings, "client.id", c.client_id.as_str());
    push_setting(&mut settings, "message.timeout.ms", "5000");
    push_setting(&mut settings, "enable.idempotence", "true");
    push_setting(&mut settings, "acks", "all");
    push_optional_setting(&mut settings, "security.protocol", &c.security.security_protocol);
    push_optional_setting(&mut settings, "sasl.mechanism", &c.security.sasl_mechanism);
    push_optional_setting(&mut settings, "sasl.username", &c.security.username);
    push_optional_setting(&mut settings, "sasl.password", &c.security.password);
    assert(settings_view(settings@) =~= spec_kafka_settings(*c));
    settings
}

/// The exporter that uploads, when a dataset run ends, the anomaly
/// activations recorded during the run as one JSON document beside the
/// dataset.
pub struct MetadataExporter {
    config: DatasetConfig,
    key: String,
}

impl MetadataExporter {
    pub closed spec fn spec_config(&self) -> DatasetConfig {
        self.config
    }

    pub closed spec fn spec_key(&self) -> Seq<char> {
        self.key@
    }

    /// The metadata exporter of the dataset run that starts `start_ms`
    /// milliseconds after the Unix epoch, storing to the run's storage.
    /// `None` when the start lies outside the representable calendar.
    pub fn new(config: DatasetConfig, start_ms: i64) -> (r: Option<Self>)
        ensures
            r matches Some(m) ==> m.spec_config() == config && m.spec_key() == spec_metadata_object_key(
                rfc3339_utc_seconds(start_ms as int),
            ),
            -CALENDAR_REACH_MS <= start_ms <= CALENDAR_REACH_MS ==> r is Some,
    {
        match format_rfc3339_utc_seconds(start_ms) {
            Some(start) => {
                let key = metadata_object_key(start.as_str());
                Some(MetadataExporter { config, key })
            },
            None => None,
        }
    }

    /// The exporter's name.
    pub fn name(&self) -> (r: &'static str)
        ensures
            r@ == "metadata"@,
    {
        "metadata"
    }

    /// The object key of the metadata document.
    pub fn key(&self) -> (r: &str)
        ensures
            r@ == self.spec_key(),
    {
        self.key.as_str()
    }

    /// The storage settings of the run.
    pub fn config(&self) -> (r: &DatasetConfig)
        ensures
            *r == self.spec_config(),
    {
        &self.config
    }
}

/// The state of a dataset run: the label of its start, the object key of
/// its Parquet file once the first batch named the run's entity, and the rows
/// waiting for a full row group.
pub struct DatasetRun<T> {
    start_label: String,
    object_key: Option<String>,
    rows: RowGroupBuffer<T>,
}

impl<T> DatasetRun<T> {
    pub closed spec fn well_formed(&self) -> bool {
        self.rows.well_formed() && self.rows.group_size() == ROW_GROUP_SIZE
    }

    pub closed spec fn spec_start_label(&self) -> Seq<char> {
        self.start_label@
    }

    pub closed spec fn spec_object_key(&self) -> Option<Seq<char>> {
        match self.object_key {
            Some(k) => Some(k@),
            None => None,
        }
    }

    /// The rows waiting to be written.
    pub closed spec fn spec_waiting(&self) -> Seq<T> {
        self.rows@
    }

    /// A run that starts `start_ms` milliseconds after the Unix epoch, with
    /// no file yet, or the refusal of a start outside the calendar.
    pub fn new(start_ms: i64) -> (r: Result<Self, String>)
        ensures
            r matches Ok(run) ==> run.well_formed() && run.spec_start_label() == rfc3339_utc_seconds(
                start_ms as int,
            ) && run.spec_object_key() is None && run.spec_waiting() == Seq::<T>::empty(),
            r matches Err(e) ==> e@ == "dataset start timestamp is not representable"@,
            -CALENDAR_REACH_MS <= start_ms <= CALENDAR_REACH_MS ==> r is Ok,
    {
        match dataset_start_label(start_ms) {
            Ok(start_label) => Ok(DatasetRun { start_label, object_key: None, rows: RowGroupBuffer::new(ROW_GROUP_SIZE) }),
            Err(e) => Err(e),
        }
    }

    /// The RFC 3339 label of the run's start.
    pub fn start_label(&self) -> (r: &str)
        ensures
            r@ == self.spec_start_label(),
    {
        self.start_label.as_str()
    }

    /// The object key of the run's file, once it is open.
    pub fn object_key(&self) -> (r: Option<&str>)
        ensures
            match (r, self.spec_object_key()) {
                (Some(a), Some(b)) => a@ == b,
                (None, None) => true,
                _ => false,
            },
    {
        match &self.object_key {
            Some(k) => Some(k.as_str()),
            None => None,
        }
    }

    /// Opens the run's file for the entity of the first exported batch;
    /// returns whether it was opened now. A file once open keeps its key.
    pub fn open_for(&mut self, entity_id: &str) -> (opened: bool)
        requires
            old(self).well_formed(),
        ensures
            final(self).well_formed(),
            opened == old(self).spec_object_key() is None,
            final(self).spec_object_key() == if opened {
                Some(spec_dataset_object_key(entity_id@, old(self).spec_start_label()))
            } else {
                old(self).spec_object_key()
            },
            final(self).spec_start_label() == old(self).spec_start_label(),
            final(self).spec_waiting() == old(self).spec_waiting(),
    {
        if self.object_key.is_some() {
            return false;
        }
        let key = dataset_object_key(entity_id, self.start_label.as_str());
        self.object_key = Some(key);
        true
    }

    /// Buffers the rows of one exported batch and hands out every full row
    /// group, in order.
    pub fn buffer_rows(&mut self, rows: Vec<T>) -> (groups: Vec<Vec<T>>)
        requires
            old(self).well_formed(),
        ensures
            final(self).well_formed(),
            final(self).spec_object_key() == old(self).spec_object_key(),
            final(self).spec_start_label() == old(self).spec_start_label(),
            concat_groups(group_views(groups@)) + final(self).spec_waiting() == old(self).spec_waiting() + rows@,
            forall|i: int| 0 <= i < groups@.len() ==> (#[trigger] groups@[i])@.len() == ROW_GROUP_SIZE,
    {
        self.rows.push_rows(rows)
    }

    /// Ends the run: hands out its file's key with the rows still waiting,
    /// if a file was opened, and forgets the file.
    pub fn finish(&mut self) -> (r: Option<(String, Vec<T>)>)
        requires
            old(self).well_formed(),
        ensures
            final(self).well_formed(),
            final(self).spec_object_key() is None,
            final(self).spec_start_label() == old(self).spec_start_label(),
            match old(self).spec_object_key() {
                None => r is None && final(self).spec_waiting() == old(self).spec_waiting(),
                Some(k) => r matches Some((key, rest)) && key@ == k && rest@ == old(self).spec_waiting()
                    && final(self).spec_waiting() == Seq::<T>::empty(),
            },
    {
        let key = self.object_key.take();
        match key {
            None => None,
            Some(key) => {
                let rest = self.rows.take_remaining();
                Some((key, rest))
            },
        }
    }
}

/// The Unix millisecond instant at which a dataset run starts: its
/// configured RFC 3339 start time, when there is one that parses.
pub fn dataset_start_millis(d: &DatasetConfig) -> (r: Option<i64>)
    ensures
        match d.start_time {
            None => r is None,
            Some(text) => match rfc3339_timestamp_millis(text@) {
                Ok(ms) => r == Some(ms as i64),
                Err(_) => r is None,
            },
        },
{
    match &d.start_time {
        None => None,
        Some(text) => match parse_rfc3339_millis(text.as_str()) {
            Ok(ms) => Some(ms),
            Err(_) => None,
        },
    }
}

} // verus!
