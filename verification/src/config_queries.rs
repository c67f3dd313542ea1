//! The ClickHouse side of config snapshots: which column a hash is looked up
//! in, the text of the lookup, write and backfill statements, and the
//! decisions taken on what the database answers. Running the statements and
//! (de)serialising rows happens in the caller.

use crate::numeric::decimal_digits;
use crate::snapshot::{display_text, SnapshotHash, SnapshotHashScheme};
use vstd::prelude::*;

verus! {

/// The column that holds hashes of `scheme`: `hash` for the legacy scheme,
/// `canonical_hash` for the canonical one.
pub open spec fn hash_column_text(scheme: SnapshotHashScheme) -> Seq<char> {
    match scheme {
        SnapshotHashScheme::LegacyToml => "hash"@,
        SnapshotHashScheme::Canonical => "canonical_hash"@,
    }
}

/// The column that a lookup by a hash of `scheme` reads.
pub fn snapshot_hash_column(scheme: SnapshotHashScheme) -> (c: &'static str)
    ensures
        c@ == hash_column_text(scheme),
{
    match scheme {
        SnapshotHashScheme::LegacyToml => "hash",
        SnapshotHashScheme::Canonical => "canonical_hash",
    }
}

/// The query that looks up a snapshot by its hash, in the column of the hash's
/// scheme, with the bare decimal (ClickHouse's `toUInt256` takes no prefix).
pub fn get_config_snapshot_query(snapshot_hash: &SnapshotHash) -> (q: String)
    ensures
        q@ == "SELECT config, extra_templates, tags FROM ConfigSnapshot FINAL WHERE "@
            + hash_column_text(snapshot_hash@.scheme) + " = toUInt256('"@ + decimal_digits(
            snapshot_hash@.value,
        ) + "') LIMIT 1 FORMAT JSONEachRow"@,
{
    let mut q = String::from_str(
        "SELECT config, extra_templates, tags FROM ConfigSnapshot FINAL WHERE ",
    );
    q.append(snapshot_hash_column(snapshot_hash.scheme()));
    q.append(" = toUInt256('");
    q.append(snapshot_hash.to_decimal_string());
    q.append("') LIMIT 1 FORMAT JSONEachRow");
    q
}

/// No snapshot has the hash that was looked up.
#[derive(Debug, PartialEq, Eq)]
pub struct ConfigSnapshotNotFound {
    /// The hash in its prefixed text form.
    pub snapshot_hash: String,
}

/// An empty answer to the lookup means that no snapshot has the hash.
pub fn check_config_snapshot_response(response: &str, snapshot_hash: &SnapshotHash) -> (res: Result<
    (),
    ConfigSnapshotNotFound,
>)
    ensures
        res is Err <==> response@.len() == 0,
        res matches Err(e) ==> e.snapshot_hash@ == display_text(snapshot_hash@),
{
    if response.is_empty() {
        return Err(ConfigSnapshotNotFound { snapshot_hash: snapshot_hash.to_string() });
    }
    Ok(())
}

/// Rows handed to ClickHouse beside a statement, under a name the statement
/// reads them from.
#[derive(Debug, PartialEq, Eq)]
pub struct ExternalDataInfo {
    pub external_data_name: String,
    pub structure: String,
    pub format: String,
    pub data: String,
}

/// The external data that carries a snapshot row to the write statement.
pub fn config_snapshot_external_data(data: String) -> (info: ExternalDataInfo)
    ensures
        info.external_data_name@ == "new_data"@,
        info.structure@
            == "config String, extra_templates Map(String, String), hash String, canonical_hash String, tensorzero_version String, tags Map(String, String)"@,
        info.format@ == "JSONEachRow"@,
        info.data@ == data@,
{
    ExternalDataInfo {
        external_data_name: String::from_str("new_data"),
        structure: String::from_str(
            "config String, extra_templates Map(String, String), hash String, canonical_hash String, tensorzero_version String, tags Map(String, String)",
        ),
        format: String::from_str("JSONEachRow"),
        data,
    }
}

/// The write statement's text before the first occurrence of the legacy hash.
pub open spec fn write_query_head() -> Seq<char> {
    "INSERT INTO ConfigSnapshot\n(config, extra_templates, hash, canonical_hash, tensorzero_version, tags, created_at, last_used)\nSELECT\n    new_data.config,\n    new_data.extra_templates,\n    toUInt256(new_data.hash) as hash,\n    toUInt256(new_data.canonical_hash) as canonical_hash,\n    new_data.tensorzero_version,\n    mapUpdate(\n        (SELECT any(tags) FROM ConfigSnapshot FINAL WHERE hash = toUInt256('"@
}

/// The write statement's text between the two occurrences of the legacy hash.
pub open spec fn write_query_middle() -> Seq<char> {
    "')),\n        new_data.tags\n    ) as tags,\n    ifNull((SELECT any(created_at) FROM ConfigSnapshot FINAL WHERE hash = toUInt256('"@
}

/// The write statement's text after the second occurrence of the legacy hash.
pub open spec fn write_query_tail() -> Seq<char> {
    "')), now64()) as created_at,\n    now64() as last_used\nFROM new_data"@
}

/// The statement that writes a snapshot row from the `new_data` external data,
/// filling both `hash` and `canonical_hash`, merging the tags of an earlier row
/// with the same legacy hash and keeping its `created_at`.
pub fn write_config_snapshot_query(legacy_hash: &SnapshotHash) -> (q: String)
    ensures
        q@ == write_query_head() + decimal_digits(legacy_hash@.value) + write_query_middle()
            + decimal_digits(legacy_hash@.value) + write_query_tail(),
{
    let legacy_decimal = legacy_hash.to_decimal_string();
    let mut q = String::from_str(
        "INSERT INTO ConfigSnapshot\n(config, extra_templates, hash, canonical_hash, tensorzero_version, tags, created_at, last_used)\nSELECT\n    new_data.config,\n    new_data.extra_templates,\n    toUInt256(new_data.hash) as hash,\n    toUInt256(new_data.canonical_hash) as canonical_hash,\n    new_data.tensorzero_version,\n    mapUpdate(\n        (SELECT any(tags) FROM ConfigSnapshot FINAL WHERE hash = toUInt256('",
    );
    q.append(legacy_decimal);
    q.append(
        "')),\n        new_data.tags\n    ) as tags,\n    ifNull((SELECT any(created_at) FROM ConfigSnapshot FINAL WHERE hash = toUInt256('",
    );
    q.append(legacy_decimal);
    q.append("')), now64()) as created_at,\n    now64() as last_used\nFROM new_data");
    q
}

/// The query that finds the rows still waiting for a canonical hash: those whose
/// `canonical_hash` is the sentinel `0`. A row already backfilled is not found
/// again.
pub fn backfill_scan_query() -> (q: String)
    ensures
        q@
            == "SELECT toString(hash) AS hash, config FROM ConfigSnapshot FINAL WHERE canonical_hash = 0 FORMAT JSONEachRow"@,
{
    String::from_str(
        "SELECT toString(hash) AS hash, config FROM ConfigSnapshot FINAL WHERE canonical_hash = 0 FORMAT JSONEachRow",
    )
}

/// The backfill statement's text before the canonical hash.
pub open spec fn backfill_query_head() -> Seq<char> {
    "INSERT INTO ConfigSnapshot\n(config, extra_templates, hash, canonical_hash, tensorzero_version, tags, created_at, last_used)\nSELECT\n    config,\n    extra_templates,\n    hash,\n    toUInt256('"@
}

/// The backfill statement's text between the canonical and the legacy hash.
pub open spec fn backfill_query_middle() -> Seq<char> {
    "') as canonical_hash,\n    tensorzero_version,\n    tags,\n    created_at,\n    now64() as last_used\nFROM ConfigSnapshot FINAL\nWHERE hash = toUInt256('"@
}

/// The statement that re-inserts the row of `legacy_decimal` with its canonical
/// hash filled in, keeping everything else and refreshing `last_used`.
pub fn backfill_update_query(canonical_hash: &SnapshotHash, legacy_decimal: &str) -> (q: String)
    ensures
        q@ == backfill_query_head() + decimal_digits(canonical_hash@.value)
            + backfill_query_middle() + legacy_decimal@ + "')"@,
{
    let mut q = String::from_str(
        "INSERT INTO ConfigSnapshot\n(config, extra_templates, hash, canonical_hash, tensorzero_version, tags, created_at, last_used)\nSELECT\n    config,\n    extra_templates,\n    hash,\n    toUInt256('",
    );
    q.append(canonical_hash.to_decimal_string());
    q.append(
        "') as canonical_hash,\n    tensorzero_version,\n    tags,\n    created_at,\n    now64() as last_used\nFROM ConfigSnapshot FINAL\nWHERE hash = toUInt256('",
    );
    q.append(legacy_decimal);
    q.append("')");
    q
}

/// What happened to one scanned row of the backfill.
#[derive(Clone, Copy, Debug, PartialEq, Eq, Structural)]
pub enum BackfillRowEvent {
    /// The line is not a well-formed JSON row: the backfill stops with an error.
    MalformedRow,
    /// The row's config is not TOML that parses: the row is skipped.
    UnparseableConfig,
    /// Computing the canonical hash failed: the row is skipped.
    CanonicalHashFailed,
    /// Re-inserting the row failed: the row is skipped.
    UpdateFailed,
    /// The row was re-inserted with its canonical hash.
    Updated,
}

/// Whether the backfill goes on after a row.
#[derive(Clone, Copy, Debug, PartialEq, Eq, Structural)]
pub enum BackfillControl {
    Continue,
    Abort,
}

/// The counts of a backfill run.
#[derive(Debug, PartialEq, Eq)]
pub struct BackfillTally {
    pub backfilled: u64,
    pub skipped: u64,
}

/// The effect of one row on the counts and on whether the run goes on.
pub open spec fn backfill_step(
    backfilled: nat,
    skipped: nat,
    event: BackfillRowEvent,
) -> (nat, nat, BackfillControl) {
    match event {
        BackfillRowEvent::MalformedRow => (backfilled, skipped, BackfillControl::Abort),
        BackfillRowEvent::Updated => (backfilled + 1, skipped, BackfillControl::Continue),
        _ => (backfilled, skipped + 1, BackfillControl::Continue),
    }
}

impl BackfillTally {
    /// A run that has seen no row yet.
    pub fn new() -> (t: BackfillTally)
        ensures
            t.backfilled == 0,
            t.skipped == 0,
    {
        BackfillTally { backfilled: 0, skipped: 0 }
    }

    /// Takes one row's event into account: an update counts as backfilled, a
    /// failure after the row was read counts as skipped, and a malformed row
    /// stops the run and counts as neither.
    pub fn record(&mut self, event: BackfillRowEvent) -> (control: BackfillControl)
        requires
            event == BackfillRowEvent::Updated ==> old(self).backfilled < u64::MAX,
            event != BackfillRowEvent::Updated && event != BackfillRowEvent::MalformedRow
                ==> old(self).skipped < u64::MAX,
        ensures
            (final(self).backfilled as nat, final(self).skipped as nat, control) == backfill_step(
                old(self).backfilled as nat,
                old(self).skipped as nat,
                event,
            ),
    {
        match event {
            BackfillRowEvent::MalformedRow => BackfillControl::Abort,
            BackfillRowEvent::Updated => {
                self.backfilled = self.backfilled + 1;
                BackfillControl::Continue
            },
            _ => {
                self.skipped = self.skipped + 1;
                BackfillControl::Continue
            },
        }
    }

    /// A summary is reported once any row was backfilled or skipped.
    pub fn should_report(&self) -> (b: bool)
        ensures
            b == (self.backfilled > 0 || self.skipped > 0),
    {
        self.backfilled > 0 || self.skipped > 0
    }
}

/// What a backfill run over the rows' events comes to: the counts of
/// backfilled and skipped rows, or `Err` when a malformed row stopped it.
pub open spec fn backfill_run(events: Seq<BackfillRowEvent>) -> Result<(nat, nat), ()>
    decreases events.len(),
{
    if events.len() == 0 {
        Ok((0, 0))
    } else {
        match backfill_run(events.drop_last()) {
            Err(()) => Err(()),
            Ok((b, s)) => {
                let (b2, s2, control) = backfill_step(b, s, events.last());
                if control == BackfillControl::Abort {
                    Err(())
                } else {
                    Ok((b2, s2))
                }
            },
        }
    }
}

/// A backfill run fails exactly when one of its rows is malformed: a config
/// that does not parse, a failed canonical hash or a failed re-insert never
/// fails it, even when every row fails. Otherwise every row is counted once.
pub proof fn law_backfill_fails_only_on_malformed_rows(events: Seq<BackfillRowEvent>)
    ensures
        backfill_run(events) is Err <==> events.contains(BackfillRowEvent::MalformedRow),
        backfill_run(events) matches Ok((b, s)) ==> b + s == events.len(),
    decreases events.len(),
{
    if events.len() > 0 {
        let p = events.drop_last();
        law_backfill_fails_only_on_malformed_rows(p);
        if p.contains(BackfillRowEvent::MalformedRow) {
            let i = choose|i: int| 0 <= i < p.len() && p[i] == BackfillRowEvent::MalformedRow;
            assert(events[i] == BackfillRowEvent::MalformedRow);
        }
        if events.contains(BackfillRowEvent::MalformedRow) {
            let i = choose|i: int|
                0 <= i < events.len() && events[i] == BackfillRowEvent::MalformedRow;
            if i < events.len() - 1 {
                assert(p[i] == BackfillRowEvent::MalformedRow);
            }
        }
        if events.last() == BackfillRowEvent::MalformedRow {
            assert(events[events.len() - 1] == BackfillRowEvent::MalformedRow);
        }
    }
}

/// How many of `events` are `event`.
pub open spec fn count_events(events: Seq<BackfillRowEvent>, event: BackfillRowEvent) -> nat
    decreases events.len(),
{
    if events.len() == 0 {
        0
    } else if events.last() == event {
        count_events(events.drop_last(), event) + 1
    } else {
        count_events(events.drop_last(), event)
    }
}

/// A backfill run without a malformed row counts as backfilled exactly the rows
/// that were re-inserted, and as skipped exactly the others.
pub proof fn law_backfill_counts_by_outcome(events: Seq<BackfillRowEvent>)
    requires
        !events.contains(BackfillRowEvent::MalformedRow),
    ensures
        backfill_run(events) == Ok::<(nat, nat), ()>(
            (
                count_events(events, BackfillRowEvent::Updated),
                (events.len() - count_events(events, BackfillRowEvent::Updated)) as nat,
            ),
        ),
        count_events(events, BackfillRowEvent::Updated) <= events.len(),
    decreases events.len(),
{
    if events.len() > 0 {
        let p = events.drop_last();
        assert(!p.contains(BackfillRowEvent::MalformedRow)) by {
            if p.contains(BackfillRowEvent::MalformedRow) {
                let i = choose|i: int| 0 <= i < p.len() && p[i] == BackfillRowEvent::MalformedRow;
                assert(events[i] == BackfillRowEvent::MalformedRow);
            }
        }
        assert(events.last() != BackfillRowEvent::MalformedRow) by {
            if events.last() == BackfillRowEvent::MalformedRow {
                assert(events[events.len() - 1] == BackfillRowEvent::MalformedRow);
            }
        }
        law_backfill_counts_by_outcome(p);
    }
}

/// The two hash columns of a written snapshot row: `hash` holds the legacy
/// hash's decimal, `canonical_hash` the canonical hash's.
#[derive(Debug, PartialEq, Eq)]
pub struct ConfigSnapshotRowHashes {
    pub hash: String,
    pub canonical_hash: String,
}

/// The decimals that a written row carries in its two hash columns, so that
/// lookups by either scheme find it.
pub fn config_snapshot_row_hashes(legacy_hash: &SnapshotHash, canonical_hash: &SnapshotHash) -> (r:
    ConfigSnapshotRowHashes)
    ensures
        r.hash@ == decimal_digits(legacy_hash@.value),
        r.canonical_hash@ == decimal_digits(canonical_hash@.value),
{
    ConfigSnapshotRowHashes {
        hash: String::from_str(legacy_hash.to_decimal_string()),
        canonical_hash: String::from_str(canonical_hash.to_decimal_string()),
    }
}

/// A scanned line holds a row unless it is empty; an empty answer means that
/// there is nothing to backfill.
pub fn is_row_line(line: &str) -> (b: bool)
    ensures
        b == (line@.len() > 0),
{
    !line.is_empty()
}

/// Every row that the backfill gets through is counted once, as backfilled or
/// as skipped; only a malformed row stops it uncounted.
pub proof fn law_backfill_counts_each_row_once(backfilled: nat, skipped: nat, event: BackfillRowEvent)
    ensures
        ({
            let (b, s, control) = backfill_step(backfilled, skipped, event);
            &&& control == BackfillControl::Abort <==> event == BackfillRowEvent::MalformedRow
            &&& control == BackfillControl::Continue ==> b + s == backfilled + skipped + 1
            &&& control == BackfillControl::Abort ==> b == backfilled && s == skipped
        }),
{
}

} // verus!
