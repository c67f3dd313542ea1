//! What the statements that write and backfill snapshot rows do with each
//! column, stated over their text.

use crate::config_queries::{
    backfill_query_head, backfill_query_middle, write_query_head, write_query_middle,
    write_query_tail,
};
use vstd::prelude::*;

verus! {

/// `t` stands in `s` from position `i` on.
pub open spec fn text_at(s: Seq<char>, i: int, t: Seq<char>) -> bool {
    0 <= i && i + t.len() <= s.len() && s.subrange(i, i + t.len() as int) == t
}

/// `t` stands somewhere in `s`.
pub open spec fn has_text(s: Seq<char>, t: Seq<char>) -> bool {
    exists|i: int| text_at(s, i, t)
}

/// The write statement inserts, in the table's column order, `config`,
/// `extra_templates`, `hash` from the row's `hash`, `canonical_hash` from the
/// row's `canonical_hash` and `tensorzero_version` as the new row gives them;
/// it merges the tags of an earlier row with the same legacy hash into the new
/// tags, keeps that row's `created_at` (now when there is none), and sets
/// `last_used` to now.
pub proof fn law_write_statement_columns(legacy_decimal: Seq<char>)
    ensures
        ({
            let q = write_query_head() + legacy_decimal + write_query_middle() + legacy_decimal
                + write_query_tail();
            &&& q.take("INSERT INTO ConfigSnapshot\n(config, extra_templates, hash, canonical_hash, tensorzero_version, tags, created_at, last_used)\nSELECT\n"@.len() as int) == "INSERT INTO ConfigSnapshot\n(config, extra_templates, hash, canonical_hash, tensorzero_version, tags, created_at, last_used)\nSELECT\n"@
            &&& has_text(q, "new_data.config,\n    new_data.extra_templates,\n    toUInt256(new_data.hash) as hash,\n    toUInt256(new_data.canonical_hash) as canonical_hash,\n    new_data.tensorzero_version,"@)
            &&& has_text(q, "(SELECT any(tags) FROM ConfigSnapshot FINAL WHERE hash = toUInt256('"@ + legacy_decimal + "')),\n        new_data.tags\n    ) as tags,"@)
            &&& has_text(q, "ifNull((SELECT any(created_at) FROM ConfigSnapshot FINAL WHERE hash = toUInt256('"@ + legacy_decimal + "')), now64()) as created_at,"@)
            &&& q.skip(q.len() - "now64() as last_used\nFROM new_data"@.len()) == "now64() as last_used\nFROM new_data"@
        }),
{
    reveal_strlit("INSERT INTO ConfigSnapshot\n(config, extra_templates, hash, canonical_hash, tensorzero_version, tags, created_at, last_used)\nSELECT\n    new_data.config,\n    new_data.extra_templates,\n    toUInt256(new_data.hash) as hash,\n    toUInt256(new_data.canonical_hash) as canonical_hash,\n    new_data.tensorzero_version,\n    mapUpdate(\n        (SELECT any(tags) FROM ConfigSnapshot FINAL WHERE hash = toUInt256('");
    reveal_strlit("')),\n        new_data.tags\n    ) as tags,\n    ifNull((SELECT any(created_at) FROM ConfigSnapshot FINAL WHERE hash = toUInt256('");
    reveal_strlit("')), now64()) as created_at,\n    now64() as last_used\nFROM new_data");
    reveal_strlit("INSERT INTO ConfigSnapshot\n(config, extra_templates, hash, canonical_hash, tensorzero_version, tags, created_at, last_used)\nSELECT\n");
    reveal_strlit("new_data.config,\n    new_data.extra_templates,\n    toUInt256(new_data.hash) as hash,\n    toUInt256(new_data.canonical_hash) as canonical_hash,\n    new_data.tensorzero_version,");
    reveal_strlit("(SELECT any(tags) FROM ConfigSnapshot FINAL WHERE hash = toUInt256('");
    reveal_strlit("')),\n        new_data.tags\n    ) as tags,");
    reveal_strlit("ifNull((SELECT any(created_at) FROM ConfigSnapshot FINAL WHERE hash = toUInt256('");
    reveal_strlit("')), now64()) as created_at,");
    reveal_strlit("now64() as last_used\nFROM new_data");
    let d = legacy_decimal;
    let h = write_query_head();
    let m = write_query_middle();
    let t = write_query_tail();
    let q = h + d + m + d + t;
    let cols = "INSERT INTO ConfigSnapshot\n(config, extra_templates, hash, canonical_hash, tensorzero_version, tags, created_at, last_used)\nSELECT\n"@;
    assert(h.take(cols.len() as int) =~= cols);
    assert(q.take(cols.len() as int) =~= cols);
    let pb = "new_data.config,\n    new_data.extra_templates,\n    toUInt256(new_data.hash) as hash,\n    toUInt256(new_data.canonical_hash) as canonical_hash,\n    new_data.tensorzero_version,"@;
    assert(h.subrange(135, 135 + pb.len() as int) =~= pb);
    assert(q.subrange(135, 135 + pb.len() as int) =~= pb);
    assert(text_at(q, 135, pb));
    let ta = "(SELECT any(tags) FROM ConfigSnapshot FINAL WHERE hash = toUInt256('"@;
    let tb = "')),\n        new_data.tags\n    ) as tags,"@;
    assert(h.subrange(334, h.len() as int) =~= ta);
    assert(m.take(tb.len() as int) =~= tb);
    let tags = ta + d + tb;
    assert(q.subrange(334, 334 + tags.len() as int) =~= tags);
    assert(text_at(q, 334, tags));
    let ca = "ifNull((SELECT any(created_at) FROM ConfigSnapshot FINAL WHERE hash = toUInt256('"@;
    let cb = "')), now64()) as created_at,"@;
    assert(m.subrange(46, m.len() as int) =~= ca);
    assert(t.take(cb.len() as int) =~= cb);
    let created = ca + d + cb;
    let i: int = (h.len() + d.len()) as int + 46;
    assert(q.subrange(i, i + created.len() as int) =~= created);
    assert(text_at(q, i, created));
    let we = "now64() as last_used\nFROM new_data"@;
    assert(t.skip(t.len() - we.len()) =~= we);
    assert(q.skip(q.len() - we.len()) =~= we);
}

/// The backfill statement re-inserts, in the table's column order, the row's
/// own `config`, `extra_templates` and `hash`, the new canonical hash as
/// `canonical_hash`, the row's own `tensorzero_version`, `tags` and
/// `created_at`, and now as `last_used`, reading the row whose legacy hash is
/// `legacy_decimal`.
pub proof fn law_backfill_statement_columns(canonical_decimal: Seq<char>, legacy_decimal: Seq<char>)
    ensures
        ({
            let q = backfill_query_head() + canonical_decimal + backfill_query_middle()
                + legacy_decimal + "')"@;
            &&& q.take("INSERT INTO ConfigSnapshot\n(config, extra_templates, hash, canonical_hash, tensorzero_version, tags, created_at, last_used)\nSELECT\n"@.len() as int) == "INSERT INTO ConfigSnapshot\n(config, extra_templates, hash, canonical_hash, tensorzero_version, tags, created_at, last_used)\nSELECT\n"@
            &&& has_text(q, "\n    config,\n    extra_templates,\n    hash,\n"@)
            &&& has_text(q, "toUInt256('"@ + canonical_decimal + "') as canonical_hash,"@)
            &&& has_text(q, "\n    tensorzero_version,\n    tags,\n    created_at,\n    now64() as last_used\n"@)
            &&& q.skip(q.len() - ("FROM ConfigSnapshot FINAL\nWHERE hash = toUInt256('"@ + legacy_decimal + "')"@).len())
                == "FROM ConfigSnapshot FINAL\nWHERE hash = toUInt256('"@ + legacy_decimal + "')"@
        }),
{
    reveal_strlit("INSERT INTO ConfigSnapshot\n(config, extra_templates, hash, canonical_hash, tensorzero_version, tags, created_at, last_used)\nSELECT\n    config,\n    extra_templates,\n    hash,\n    toUInt256('");
    reveal_strlit("') as canonical_hash,\n    tensorzero_version,\n    tags,\n    created_at,\n    now64() as last_used\nFROM ConfigSnapshot FINAL\nWHERE hash = toUInt256('");
    reveal_strlit("INSERT INTO ConfigSnapshot\n(config, extra_templates, hash, canonical_hash, tensorzero_version, tags, created_at, last_used)\nSELECT\n");
    reveal_strlit("\n    config,\n    extra_templates,\n    hash,\n");
    reveal_strlit("toUInt256('");
    reveal_strlit("') as canonical_hash,");
    reveal_strlit("\n    tensorzero_version,\n    tags,\n    created_at,\n    now64() as last_used\n");
    reveal_strlit("FROM ConfigSnapshot FINAL\nWHERE hash = toUInt256('");
    reveal_strlit("')");
    let c = canonical_decimal;
    let l = legacy_decimal;
    let h = backfill_query_head();
    let m = backfill_query_middle();
    let e = "')"@;
    let q = h + c + m + l + e;
    let cols = "INSERT INTO ConfigSnapshot\n(config, extra_templates, hash, canonical_hash, tensorzero_version, tags, created_at, last_used)\nSELECT\n"@;
    assert(h.take(cols.len() as int) =~= cols);
    assert(q.take(cols.len() as int) =~= cols);
    let x = "\n    config,\n    extra_templates,\n    hash,\n"@;
    assert(h.subrange(130, 130 + x.len() as int) =~= x);
    assert(q.subrange(130, 130 + x.len() as int) =~= x);
    assert(text_at(q, 130, x));
    let y = "toUInt256('"@;
    let z = "') as canonical_hash,"@;
    assert(h.subrange(178, h.len() as int) =~= y);
    assert(m.take(z.len() as int) =~= z);
    let canonical = y + c + z;
    assert(q.subrange(178, 178 + canonical.len() as int) =~= canonical);
    assert(text_at(q, 178, canonical));
    let w = "\n    tensorzero_version,\n    tags,\n    created_at,\n    now64() as last_used\n"@;
    let j: int = (h.len() + c.len()) as int + 21;
    assert(m.subrange(21, 21 + w.len() as int) =~= w);
    assert(q.subrange(j, j + w.len() as int) =~= w);
    assert(text_at(q, j, w));
    let f = "FROM ConfigSnapshot FINAL\nWHERE hash = toUInt256('"@;
    assert(m.skip(m.len() - f.len()) =~= f);
    let tail = f + l + e;
    assert(q.skip(q.len() - tail.len()) =~= tail);
}

} // verus!
