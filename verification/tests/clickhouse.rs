use snapshot_hash::config_queries::{
    backfill_scan_query, backfill_update_query, check_config_snapshot_response,
    config_snapshot_external_data, config_snapshot_row_hashes, get_config_snapshot_query,
    is_row_line,
    snapshot_hash_column, write_config_snapshot_query, BackfillControl, BackfillRowEvent,
    BackfillTally, ConfigSnapshotNotFound,
};
use snapshot_hash::migration::Migration0054;
use snapshot_hash::snapshot::{SnapshotHash, SnapshotHashScheme};

#[test]
fn lookup_column_follows_scheme() {
    assert_eq!(snapshot_hash_column(SnapshotHashScheme::LegacyToml), "hash");
    assert_eq!(snapshot_hash_column(SnapshotHashScheme::Canonical), "canonical_hash");
}

#[test]
fn lookup_query_uses_bare_decimal() {
    let q = get_config_snapshot_query(&SnapshotHash::from_canonical_bytes(&[0x01, 0x00]));
    assert_eq!(
        q,
        "SELECT config, extra_templates, tags FROM ConfigSnapshot FINAL WHERE canonical_hash = toUInt256('256') LIMIT 1 FORMAT JSONEachRow"
    );
    let q = get_config_snapshot_query(&SnapshotHash::from_bytes(&[0x07]));
    assert!(q.contains("SELECT config, extra_templates, tags"));
    assert!(q.contains("FROM ConfigSnapshot FINAL"));
    assert!(q.contains("WHERE hash = toUInt256('7')"));
    assert!(q.contains("LIMIT 1"));
    assert!(q.contains("FORMAT JSONEachRow"));
}

#[test]
fn empty_lookup_answer_is_not_found() {
    let h = SnapshotHash::from_canonical_bytes(&[0x2a]);
    assert_eq!(
        check_config_snapshot_response("", &h),
        Err(ConfigSnapshotNotFound { snapshot_hash: "v2:42".to_string() })
    );
    assert_eq!(check_config_snapshot_response("{\"config\":\"\"}", &h), Ok(()));
}

#[test]
fn write_query_and_external_data() {
    let q = write_config_snapshot_query(&SnapshotHash::from_bytes(&[0x01, 0x00]));
    assert!(q.starts_with("INSERT INTO ConfigSnapshot\n"));
    assert_eq!(q.matches("WHERE hash = toUInt256('256')").count(), 2);
    assert!(q.ends_with("FROM new_data"));
    let info = config_snapshot_external_data("{}".to_string());
    assert_eq!(info.external_data_name, "new_data");
    assert_eq!(info.format, "JSONEachRow");
    assert!(info.structure.contains("config String"));
    assert_eq!(info.data, "{}");
}

#[test]
fn backfill_queries() {
    assert_eq!(
        backfill_scan_query(),
        "SELECT toString(hash) AS hash, config FROM ConfigSnapshot FINAL WHERE canonical_hash = 0 FORMAT JSONEachRow"
    );
    let q = backfill_update_query(&SnapshotHash::from_canonical_bytes(&[0x0a]), "99");
    assert!(q.contains("toUInt256('10') as canonical_hash"));
    assert!(q.ends_with("WHERE hash = toUInt256('99')"));
}

#[test]
fn backfill_tally_counts_rows() {
    let mut t = BackfillTally::new();
    assert!(!t.should_report());
    assert_eq!(t.record(BackfillRowEvent::Updated), BackfillControl::Continue);
    assert_eq!(t.record(BackfillRowEvent::UnparseableConfig), BackfillControl::Continue);
    assert_eq!(t.record(BackfillRowEvent::CanonicalHashFailed), BackfillControl::Continue);
    assert_eq!(t.record(BackfillRowEvent::UpdateFailed), BackfillControl::Continue);
    assert_eq!(t.backfilled, 1);
    assert_eq!(t.skipped, 3);
    assert!(t.should_report());
    assert_eq!(t.record(BackfillRowEvent::MalformedRow), BackfillControl::Abort);
    assert_eq!((t.backfilled, t.skipped), (1, 3));
    assert!(is_row_line("{}"));
    assert!(!is_row_line(""));
}

#[test]
fn migration_decisions() {
    let m = Migration0054 { on_cluster_name: String::new() };
    assert!(m.can_apply(true).is_ok());
    let e = m.can_apply(false).unwrap_err();
    assert_eq!(e.id, "0054");
    assert_eq!(e.message, "`ConfigSnapshot` table does not exist");
    assert!(m.should_apply(false));
    assert!(!m.should_apply(true));
    assert!(m.has_succeeded(m.should_apply(true)));
    assert!(!m.has_succeeded(m.should_apply(false)));
    assert_eq!(
        m.apply_query(),
        "ALTER TABLE ConfigSnapshot ADD COLUMN IF NOT EXISTS canonical_hash UInt256 DEFAULT 0"
    );
    let m = Migration0054 { on_cluster_name: " ON CLUSTER c".to_string() };
    assert_eq!(
        m.apply_query(),
        "ALTER TABLE ConfigSnapshot ON CLUSTER c ADD COLUMN IF NOT EXISTS canonical_hash UInt256 DEFAULT 0"
    );
    assert_eq!(
        m.rollback_instructions(),
        "/* drop the canonical_hash column added by migration 0054 */\nALTER TABLE ConfigSnapshot DROP COLUMN IF EXISTS canonical_hash;"
    );
    assert_eq!(m.migration_id(), "0054");
    assert_eq!(m.table_name(), "ConfigSnapshot");
    assert_eq!(m.column_name(), "canonical_hash");
}

#[test]
fn written_row_carries_both_hashes() {
    let legacy = SnapshotHash::from_bytes(&[0x01, 0x00]);
    let canonical = SnapshotHash::from_canonical_bytes(&[0x02]);
    let r = config_snapshot_row_hashes(&legacy, &canonical);
    assert_eq!(r.hash, "256");
    assert_eq!(r.canonical_hash, "2");
}

#[test]
fn backfill_stops_only_on_malformed_rows() {
    let mut t = BackfillTally::new();
    for _ in 0..3 {
        assert_eq!(t.record(BackfillRowEvent::UpdateFailed), BackfillControl::Continue);
    }
    assert_eq!((t.backfilled, t.skipped), (0, 3));
    let mut full = BackfillTally { backfilled: 0, skipped: u64::MAX };
    assert_eq!(full.record(BackfillRowEvent::Updated), BackfillControl::Continue);
    assert_eq!(full.record(BackfillRowEvent::MalformedRow), BackfillControl::Abort);
    assert_eq!((full.backfilled, full.skipped), (1, u64::MAX));
}
