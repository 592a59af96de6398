//! Exporting and importing the store: the OPML document of all
//! subscriptions grouped by group name, the SQL script of the tables (table
//! definitions, rows, indexes), and what an imported data file adds. The
//! rows of the store are taken as plain values; this library holds no
//! database.
use vstd::prelude::*;
use crate::text::{append_chars, append_str, chars_of, decimal_chars_u64, str_eq, string_of};
use crate::markup::{escape_text, join_with, spec_escape, Escaping};
use crate::content::{join_pieces, texts};
use crate::models::{Article, Feed};
use crate::feeds::{has_guid, has_guid_exec};
use crate::opml_import::{contains_text, texts_of};
use crate::feeds::groups_seen;
use crate::order::{is_stable_order, stable_order, TextKey};
use crate::syndication::{lossy_utf8, now_rfc3339, signed_decimal, signed_decimal_text, spec_lossy_utf8};

verus! {

// ---------------------------------------------------------------------------
// OPML of the store
// ---------------------------------------------------------------------------

pub open spec fn xesc(s: Seq<char>) -> Seq<char> {
    spec_escape(Escaping::Xml, s)
}

/// The outline of one stored subscription.
pub open spec fn store_feed_line(f: Feed) -> Seq<char> {
    "<outline text=\""@ + xesc(f.title@) + "\" title=\""@ + xesc(f.title@) + "\" type=\"rss\" xmlUrl=\""@
        + xesc(f.url@) + "\" htmlUrl=\""@ + f.link@ + "\" />\n"@
}

/// The outlines of the subscriptions of a group, in order.
pub open spec fn store_group_lines(feeds: Seq<Feed>, g: Seq<char>) -> Seq<char>
    decreases feeds.len(),
{
    if feeds.len() == 0 {
        Seq::empty()
    } else {
        store_group_lines(feeds.drop_last(), g) + if feeds.last().group@ == g {
            store_feed_line(feeds.last())
        } else {
            Seq::empty()
        }
    }
}

/// A group's part: its outline around its subscriptions, except for the
/// `Uncategorized` group, whose subscriptions stand alone.
pub open spec fn store_block(feeds: Seq<Feed>, g: Seq<char>) -> Seq<char> {
    if g == "Uncategorized"@ {
        store_group_lines(feeds, g)
    } else {
        "<outline text=\""@ + xesc(g) + "\" title=\""@ + xesc(g) + "\">\n"@ + store_group_lines(feeds, g)
            + "</outline>\n"@
    }
}

pub open spec fn store_blocks(feeds: Seq<Feed>, gs: Seq<Seq<char>>) -> Seq<char>
    decreases gs.len(),
{
    if gs.len() == 0 {
        Seq::empty()
    } else {
        store_blocks(feeds, gs.drop_last()) + store_block(feeds, gs.last())
    }
}

/// The OPML document of the store with the groups in the given order.
pub open spec fn store_opml(feeds: Seq<Feed>, gs: Seq<Seq<char>>) -> Seq<char> {
    "<?xml version=\"1.0\" encoding=\"UTF-8\"?>"@ + "<opml version=\"1.0\">"@ + "<head>"@
        + "<title>RSS Rust Reader Subscriptions</title>"@ + "</head>"@ + "<body>"@ + store_blocks(feeds, gs)
        + "</body></opml>"@
}

/// `gs` are the groups of the feeds in ascending order of their names.
pub open spec fn groups_sorted(feeds: Seq<Feed>, gs: Seq<Seq<char>>) -> bool {
    exists|keys: Seq<TextKey>, p: Seq<usize>|
        #![trigger is_stable_order(keys, p, false)]
        keys.len() == groups_seen(feeds).len() && (forall|i: int| 0 <= i < keys.len() ==> keys[i].chars@ == groups_seen(feeds)[i])
            && is_stable_order(keys, p, false) && gs.len() == p.len() && (forall|i: int| 0 <= i < gs.len() ==> gs[i] == groups_seen(feeds)[p[i] as int])
}

fn xesc_exec(s: &str) -> (r: Vec<char>)
    ensures
        r@ == xesc(s@),
{
    let e = escape_text(Escaping::Xml, s);
    chars_of(e.as_str())
}

fn push_store_group(out: &mut Vec<char>, feeds: &[Feed], g: &str)
    ensures
        final(out)@ == old(out)@ + store_block(feeds@, g@),
{
    let ghost o = old(out)@;
    let uncategorized = str_eq(g, "Uncategorized");
    if !uncategorized {
        append_str(out, "<outline text=\"");
        let e = xesc_exec(g);
        append_chars(out, e.as_slice());
        append_str(out, "\" title=\"");
        append_chars(out, e.as_slice());
        append_str(out, "\">\n");
    }
    let ghost head = out@;
    let mut k: usize = 0;
    while k < feeds.len()
        invariant
            k <= feeds@.len(),
            out@ == head + store_group_lines(feeds@.take(k as int), g@),
        decreases feeds@.len() - k,
    {
        proof {
            assert(feeds@.take(k + 1).drop_last() =~= feeds@.take(k as int));
            assert(feeds@.take(k + 1).last() == feeds@[k as int]);
        }
        let f = &feeds[k];
        if str_eq(f.group.as_str(), g) {
            let t = xesc_exec(f.title.as_str());
            append_str(out, "<outline text=\"");
            append_chars(out, t.as_slice());
            append_str(out, "\" title=\"");
            append_chars(out, t.as_slice());
            append_str(out, "\" type=\"rss\" xmlUrl=\"");
            let u = xesc_exec(f.url.as_str());
            append_chars(out, u.as_slice());
            append_str(out, "\" htmlUrl=\"");
            append_str(out, f.link.as_str());
            append_str(out, "\" />\n");
            assert(out@ =~= head + store_group_lines(feeds@.take(k + 1), g@));
        } else {
            assert(out@ =~= head + store_group_lines(feeds@.take(k + 1), g@));
        }
        k = k + 1;
    }
    assert(feeds@.take(feeds@.len() as int) =~= feeds@);
    if !uncategorized {
        append_str(out, "</outline>\n");
    }
    assert(out@ =~= o + store_block(feeds@, g@));
}

/// The groups of the feeds, each once, in order of first appearance.
pub(crate) fn groups_of(feeds: &[Feed]) -> (r: Vec<Vec<char>>)
    ensures
        texts(r@) == groups_seen(feeds@),
{
    let mut out: Vec<Vec<char>> = Vec::new();
    let mut k: usize = 0;
    while k < feeds.len()
        invariant
            k <= feeds@.len(),
            texts(out@) == groups_seen(feeds@.take(k as int)),
        decreases feeds@.len() - k,
    {
        proof {
            assert(feeds@.take(k + 1).drop_last() =~= feeds@.take(k as int));
            assert(feeds@.take(k + 1).last() == feeds@[k as int]);
        }
        let g = chars_of(feeds[k].group.as_str());
        let mut j: usize = 0;
        let mut seen = false;
        while j < out.len()
            invariant
                j <= out@.len(),
                seen == exists|i: int| 0 <= i < j && out@[i]@ == g@,
            decreases out@.len() - j,
        {
            if crate::text::chars_eq(out[j].as_slice(), g.as_slice()) {
                seen = true;
            }
            j = j + 1;
        }
        let ghost tv = texts(out@);
        proof {
            if seen {
                let i = choose|i: int| 0 <= i < out@.len() && out@[i]@ == g@;
                assert(tv[i] == g@);
            }
            if tv.contains(g@) {
                let i = choose|i: int| 0 <= i < tv.len() && tv[i] == g@;
                assert(out@[i]@ == g@);
            }
        }
        if !seen {
            let ghost before = out@;
            out.push(g);
            assert(texts(out@) =~= texts(before).push(feeds@[k as int].group@));
        }
        k = k + 1;
    }
    assert(feeds@.take(feeds@.len() as int) =~= feeds@);
    out
}

/// The OPML document of all stored subscriptions, groups in ascending order
/// of their names.
pub fn export_opml(feeds: &[Feed]) -> (r: String)
    ensures
        exists|gs: Seq<Seq<char>>| groups_sorted(feeds@, gs) && r@ == store_opml(feeds@, gs),
{
    let gs = groups_of(feeds);
    let mut keys: Vec<TextKey> = Vec::new();
    let mut i: usize = 0;
    while i < gs.len()
        invariant
            i <= gs@.len(),
            keys@.len() == i,
            forall|j: int| 0 <= j < i ==> keys@[j].chars@ == gs@[j]@,
        decreases gs@.len() - i,
    {
        let c = crate::text::slice_chars(gs[i].as_slice(), 0, gs[i].len());
        assert(c@ =~= gs@[i as int]@);
        keys.push(TextKey { chars: c });
        i = i + 1;
    }
    let p = stable_order(keys.as_slice(), false);
    proof {
        assert(p@.len() == keys@.len());
    }
    let ghost sorted: Seq<Seq<char>> = Seq::new(p@.len(), |i: int| groups_seen(feeds@)[p@[i] as int]);
    let mut out: Vec<char> = Vec::new();
    append_str(&mut out, "<?xml version=\"1.0\" encoding=\"UTF-8\"?>");
    append_str(&mut out, "<opml version=\"1.0\">");
    append_str(&mut out, "<head>");
    append_str(&mut out, "<title>RSS Rust Reader Subscriptions</title>");
    append_str(&mut out, "</head>");
    append_str(&mut out, "<body>");
    let ghost head = out@;
    let mut k: usize = 0;
    while k < p.len()
        invariant
            k <= p@.len(),
            p@.len() == gs@.len(),
            texts(gs@) == groups_seen(feeds@),
            crate::order::is_permutation(p@, gs@.len()),
            sorted == Seq::new(p@.len(), |i: int| groups_seen(feeds@)[p@[i] as int]),
            out@ == head + store_blocks(feeds@, sorted.take(k as int)),
        decreases p@.len() - k,
    {
        proof {
            assert(sorted.take(k + 1).drop_last() =~= sorted.take(k as int));
        }
        let idx = p[k];
        assert(texts(gs@)[idx as int] == gs@[idx as int]@);
        let g = string_of(gs[idx].as_slice());
        push_store_group(&mut out, feeds, g.as_str());
        k = k + 1;
    }
    assert(sorted.take(p@.len() as int) =~= sorted);
    append_str(&mut out, "</body></opml>");
    assert(out@ =~= store_opml(feeds@, sorted));
    assert(groups_sorted(feeds@, sorted));
    string_of(out.as_slice())
}

// ---------------------------------------------------------------------------
// SQL script
// ---------------------------------------------------------------------------

/// A column of a table as the database describes it.
#[derive(Debug)]
pub struct ColumnInfo {
    pub name: String,
    pub data_type: String,
    /// 1 when the column is declared `NOT NULL`.
    pub not_null: i32,
    pub default_value: Option<String>,
    /// 1 when the column is the primary key.
    pub primary_key: i32,
}

/// The definition of a column.
pub open spec fn column_def(c: ColumnInfo) -> Seq<char> {
    "    "@ + c.name@ + " "@ + c.data_type@ + (if c.primary_key == 1 {
        " PRIMARY KEY"@ + if c.data_type@ == "INTEGER"@ { " AUTOINCREMENT"@ } else { Seq::empty() }
    } else {
        Seq::empty()
    }) + (if c.not_null == 1 && c.primary_key == 0 { " NOT NULL"@ } else { Seq::empty() }) + match c.default_value {
        Some(d) => " DEFAULT "@ + d@,
        None => Seq::empty(),
    }
}

/// The foreign key a table declares.
pub open spec fn foreign_key(table: Seq<char>) -> Option<Seq<char>> {
    if table == "feeds"@ {
        Some("    FOREIGN KEY (group_id) REFERENCES feed_groups(id) ON DELETE SET NULL"@)
    } else if table == "articles"@ {
        Some("    FOREIGN KEY (feed_id) REFERENCES feeds(id) ON DELETE CASCADE"@)
    } else {
        None
    }
}

/// The `CREATE TABLE` statement of a table.
pub open spec fn spec_create_table(table: Seq<char>, cols: Seq<ColumnInfo>) -> Seq<char> {
    let defs = cols.map_values(|c: ColumnInfo| column_def(c));
    let all = match foreign_key(table) {
        Some(fk) => defs.push(fk),
        None => defs,
    };
    "CREATE TABLE IF NOT EXISTS "@ + table + " (\n"@ + join_with(all, ",\n"@) + "\n);"@
}

fn column_def_exec(c: &ColumnInfo) -> (r: Vec<char>)
    ensures
        r@ == column_def(*c),
{
    let mut v: Vec<char> = Vec::new();
    append_str(&mut v, "    ");
    append_str(&mut v, c.name.as_str());
    append_str(&mut v, " ");
    append_str(&mut v, c.data_type.as_str());
    if c.primary_key == 1 {
        append_str(&mut v, " PRIMARY KEY");
        if str_eq(c.data_type.as_str(), "INTEGER") {
            append_str(&mut v, " AUTOINCREMENT");
        }
    }
    if c.not_null == 1 && c.primary_key == 0 {
        append_str(&mut v, " NOT NULL");
    }
    match &c.default_value {
        Some(d) => {
            append_str(&mut v, " DEFAULT ");
            append_str(&mut v, d.as_str());
        },
        None => {},
    }
    proof {
        reveal_strlit("");
    }
    assert(v@ =~= column_def(*c));
    v
}

/// The `CREATE TABLE` statement of a table from its columns.
pub fn generate_create_table_sql(table_name: &str, columns: &[ColumnInfo]) -> (r: String)
    ensures
        r@ == spec_create_table(table_name@, columns@),
{
    let mut defs: Vec<Vec<char>> = Vec::new();
    let mut k: usize = 0;
    while k < columns.len()
        invariant
            k <= columns@.len(),
            texts(defs@) == columns@.map_values(|c: ColumnInfo| column_def(c)).take(k as int),
        decreases columns@.len() - k,
    {
        let d = column_def_exec(&columns[k]);
        let ghost before = defs@;
        defs.push(d);
        proof {
            assert(texts(defs@) =~= texts(before).push(column_def(columns@[k as int])));
            assert(columns@.map_values(|c: ColumnInfo| column_def(c)).take(k + 1) =~= columns@.map_values(|c: ColumnInfo| column_def(c)).take(k as int).push(column_def(columns@[k as int])));
        }
        k = k + 1;
    }
    assert(columns@.map_values(|c: ColumnInfo| column_def(c)).take(columns@.len() as int) =~= columns@.map_values(|c: ColumnInfo| column_def(c)));
    let ghost before = defs@;
    if str_eq(table_name, "feeds") {
        defs.push(chars_of("    FOREIGN KEY (group_id) REFERENCES feed_groups(id) ON DELETE SET NULL"));
        assert(texts(defs@) =~= texts(before).push("    FOREIGN KEY (group_id) REFERENCES feed_groups(id) ON DELETE SET NULL"@));
    } else if str_eq(table_name, "articles") {
        defs.push(chars_of("    FOREIGN KEY (feed_id) REFERENCES feeds(id) ON DELETE CASCADE"));
        assert(texts(defs@) =~= texts(before).push("    FOREIGN KEY (feed_id) REFERENCES feeds(id) ON DELETE CASCADE"@));
    }
    let sep = chars_of(",\n");
    let body = join_pieces(&defs, sep.as_slice());
    let mut out: Vec<char> = Vec::new();
    append_str(&mut out, "CREATE TABLE IF NOT EXISTS ");
    append_str(&mut out, table_name);
    append_str(&mut out, " (\n");
    append_chars(&mut out, body.as_slice());
    append_str(&mut out, "\n);");
    assert(out@ =~= spec_create_table(table_name@, columns@));
    string_of(out.as_slice())
}

/// A value read from a table.
#[derive(Debug)]
pub enum SqlValue {
    Null,
    BigInt(i64),
    /// A floating-point value, already written as text.
    Double(String),
    Text(Vec<u8>),
    Blob(Vec<u8>),
    /// A value of another type.
    Other,
}

/// How a value is written in an `INSERT` statement: text and blobs as
/// quoted, escaped literals.
pub open spec fn sql_literal(v: SqlValue) -> Seq<char> {
    match v {
        SqlValue::Null => "NULL"@,
        SqlValue::BigInt(i) => signed_decimal(i as int),
        SqlValue::Double(s) => s@,
        SqlValue::Text(b) => seq!['\''] + spec_escape(Escaping::Sql, spec_lossy_utf8(b@)) + seq!['\''],
        SqlValue::Blob(b) => seq!['\''] + spec_escape(Escaping::Sql, spec_lossy_utf8(b@)) + seq!['\''],
        SqlValue::Other => "NULL"@,
    }
}

fn sql_literal_exec(v: &SqlValue) -> (r: Vec<char>)
    ensures
        r@ == sql_literal(*v),
{
    match v {
        SqlValue::Null => chars_of("NULL"),
        SqlValue::BigInt(i) => signed_decimal_text(*i),
        SqlValue::Double(s) => chars_of(s.as_str()),
        SqlValue::Text(b) | SqlValue::Blob(b) => {
            let s = lossy_utf8(b.as_slice());
            let e = escape_text(Escaping::Sql, s.as_str());
            let mut out: Vec<char> = Vec::new();
            out.push('\'');
            append_str(&mut out, e.as_str());
            out.push('\'');
            assert(out@ =~= sql_literal(*v));
            out
        },
        SqlValue::Other => chars_of("NULL"),
    }
}

/// One `INSERT` statement.
pub open spec fn insert_line(table: Seq<char>, cols: Seq<Seq<char>>, row: Seq<SqlValue>) -> Seq<char> {
    "INSERT INTO "@ + table + " ("@ + join_with(cols, ", "@) + ") VALUES ("@ + join_with(
        row.map_values(|v: SqlValue| sql_literal(v)),
        ", "@,
    ) + ")\n"@
}

pub open spec fn insert_lines(table: Seq<char>, cols: Seq<Seq<char>>, rows: Seq<Vec<SqlValue>>) -> Seq<char>
    decreases rows.len(),
{
    if rows.len() == 0 {
        Seq::empty()
    } else {
        insert_lines(table, cols, rows.drop_last()) + insert_line(table, cols, rows.last()@)
    }
}

/// The `INSERT` statements of a table's rows under a comment line; nothing
/// when the table is empty.
pub open spec fn spec_insert_sql(table: Seq<char>, cols: Seq<Seq<char>>, rows: Seq<Vec<SqlValue>>) -> Seq<char> {
    if rows.len() == 0 {
        Seq::empty()
    } else {
        "-- 插入 "@ + table + " 表数据\n"@ + insert_lines(table, cols, rows)
    }
}

/// The `INSERT` statements of a table's rows.
pub fn generate_insert_sql(table_name: &str, columns: &Vec<Vec<char>>, rows: &[Vec<SqlValue>]) -> (r: String)
    ensures
        r@ == spec_insert_sql(table_name@, texts(columns@), rows@),
{
    if rows.len() == 0 {
        return String::new();
    }
    let comma = chars_of(", ");
    let cols = join_pieces(columns, comma.as_slice());
    let mut out: Vec<char> = Vec::new();
    append_str(&mut out, "-- 插入 ");
    append_str(&mut out, table_name);
    append_str(&mut out, " 表数据\n");
    let ghost head = out@;
    let mut k: usize = 0;
    while k < rows.len()
        invariant
            k <= rows@.len(),
            cols@ == join_with(texts(columns@), ", "@),
            comma@ == ", "@,
            out@ == head + insert_lines(table_name@, texts(columns@), rows@.take(k as int)),
        decreases rows@.len() - k,
    {
        proof {
            assert(rows@.take(k + 1).drop_last() =~= rows@.take(k as int));
            assert(rows@.take(k + 1).last() == rows@[k as int]);
        }
        let row = &rows[k];
        let mut vals: Vec<Vec<char>> = Vec::new();
        let mut j: usize = 0;
        while j < row.len()
            invariant
                j <= row@.len(),
                texts(vals@) == row@.map_values(|v: SqlValue| sql_literal(v)).take(j as int),
            decreases row@.len() - j,
        {
            let lit = sql_literal_exec(&row[j]);
            let ghost before = vals@;
            vals.push(lit);
            proof {
                assert(texts(vals@) =~= texts(before).push(sql_literal(row@[j as int])));
                assert(row@.map_values(|v: SqlValue| sql_literal(v)).take(j + 1) =~= row@.map_values(|v: SqlValue| sql_literal(v)).take(j as int).push(sql_literal(row@[j as int])));
            }
            j = j + 1;
        }
        assert(row@.map_values(|v: SqlValue| sql_literal(v)).take(row@.len() as int) =~= row@.map_values(|v: SqlValue| sql_literal(v)));
        let values = join_pieces(&vals, comma.as_slice());
        append_str(&mut out, "INSERT INTO ");
        append_str(&mut out, table_name);
        append_str(&mut out, " (");
        append_chars(&mut out, cols.as_slice());
        append_str(&mut out, ") VALUES (");
        append_chars(&mut out, values.as_slice());
        append_str(&mut out, ")\n");
        assert(out@ =~= head + insert_lines(table_name@, texts(columns@), rows@.take(k + 1)));
        k = k + 1;
    }
    assert(rows@.take(rows@.len() as int) =~= rows@);
    string_of(out.as_slice())
}

/// An index of a table: its name, whether it is unique, its columns.
#[derive(Debug)]
pub struct IndexInfo {
    pub name: String,
    pub unique: bool,
    pub columns: Vec<Vec<char>>,
}

/// The `CREATE INDEX` statement of an index.
pub open spec fn index_line(table: Seq<char>, ix: IndexInfo) -> Seq<char> {
    "CREATE "@ + (if ix.unique { "UNIQUE "@ } else { Seq::empty() }) + "INDEX IF NOT EXISTS "@ + ix.name@ + " ON "@
        + table + " ("@ + join_with(texts(ix.columns@), ", "@) + ")\n"@
}

pub open spec fn spec_index_sql(table: Seq<char>, ixs: Seq<IndexInfo>) -> Seq<char>
    decreases ixs.len(),
{
    if ixs.len() == 0 {
        Seq::empty()
    } else {
        spec_index_sql(table, ixs.drop_last()) + index_line(table, ixs.last())
    }
}

/// The `CREATE INDEX` statements of a table's indexes.
pub fn generate_create_index_sql(table_name: &str, indexes: &[IndexInfo]) -> (r: String)
    ensures
        r@ == spec_index_sql(table_name@, indexes@),
{
    let comma = chars_of(", ");
    let mut out: Vec<char> = Vec::new();
    let mut k: usize = 0;
    while k < indexes.len()
        invariant
            k <= indexes@.len(),
            comma@ == ", "@,
            out@ == spec_index_sql(table_name@, indexes@.take(k as int)),
        decreases indexes@.len() - k,
    {
        proof {
            assert(indexes@.take(k + 1).drop_last() =~= indexes@.take(k as int));
            assert(indexes@.take(k + 1).last() == indexes@[k as int]);
        }
        let ix = &indexes[k];
        append_str(&mut out, "CREATE ");
        if ix.unique {
            append_str(&mut out, "UNIQUE ");
        }
        append_str(&mut out, "INDEX IF NOT EXISTS ");
        append_str(&mut out, ix.name.as_str());
        append_str(&mut out, " ON ");
        append_str(&mut out, table_name);
        append_str(&mut out, " (");
        let cols = join_pieces(&ix.columns, comma.as_slice());
        append_chars(&mut out, cols.as_slice());
        append_str(&mut out, ")\n");
        proof {
            reveal_strlit("");
        }
        assert(out@ =~= spec_index_sql(table_name@, indexes@.take(k + 1)));
        k = k + 1;
    }
    assert(indexes@.take(indexes@.len() as int) =~= indexes@);
    string_of(out.as_slice())
}

// ---------------------------------------------------------------------------
// OPML saved from the subscriptions dialog
// ---------------------------------------------------------------------------

pub open spec fn nesc(s: Seq<char>) -> Seq<char> {
    spec_escape(Escaping::XmlNumeric, s)
}

/// The outline of a subscription in the dialog's export.
pub open spec fn dialog_feed_line(f: Feed) -> Seq<char> {
    "<outline type=\"rss\" text=\""@ + nesc(f.title@) + "\" title=\""@ + nesc(f.title@) + "\" xmlUrl=\""@
        + nesc(f.url@) + "\" htmlUrl=\""@ + nesc(f.link@) + "\" />\n"@
}

pub open spec fn dialog_group_lines(feeds: Seq<Feed>, g: Seq<char>) -> Seq<char>
    decreases feeds.len(),
{
    if feeds.len() == 0 {
        Seq::empty()
    } else {
        dialog_group_lines(feeds.drop_last(), g) + if feeds.last().group@ == g {
            dialog_feed_line(feeds.last())
        } else {
            Seq::empty()
        }
    }
}

/// A group's part: its outline around its subscriptions, except for the
/// unnamed group.
pub open spec fn dialog_block(feeds: Seq<Feed>, g: Seq<char>) -> Seq<char> {
    if g.len() == 0 {
        dialog_group_lines(feeds, g)
    } else {
        "<outline text=\""@ + nesc(g) + "\" title=\""@ + nesc(g) + "\">\n"@ + dialog_group_lines(feeds, g)
            + "</outline>\n"@
    }
}

pub open spec fn dialog_blocks(feeds: Seq<Feed>, gs: Seq<Seq<char>>) -> Seq<char>
    decreases gs.len(),
{
    if gs.len() == 0 {
        Seq::empty()
    } else {
        dialog_blocks(feeds, gs.drop_last()) + dialog_block(feeds, gs.last())
    }
}

/// The OPML document saved from the subscriptions dialog, created at
/// `created`, with the groups in the given order.
pub open spec fn dialog_opml(feeds: Seq<Feed>, gs: Seq<Seq<char>>, created: Seq<char>) -> Seq<char> {
    "<?xml version=\"1.0\" encoding=\"UTF-8\"?><opml version=\"1.0\">"@ + "<head><title>RSS订阅源</title>"@
        + "<dateCreated>"@ + created + "</dateCreated></head>"@ + "<body>"@ + dialog_blocks(feeds, gs) + "</body></opml>"@
}

fn nesc_exec(s: &str) -> (r: Vec<char>)
    ensures
        r@ == nesc(s@),
{
    let e = escape_text(Escaping::XmlNumeric, s);
    chars_of(e.as_str())
}

fn push_dialog_group(out: &mut Vec<char>, feeds: &[Feed], g: &str)
    ensures
        final(out)@ == old(out)@ + dialog_block(feeds@, g@),
{
    let ghost o = old(out)@;
    let unnamed = g.is_empty();
    if !unnamed {
        append_str(out, "<outline text=\"");
        let e = nesc_exec(g);
        append_chars(out, e.as_slice());
        append_str(out, "\" title=\"");
        append_chars(out, e.as_slice());
        append_str(out, "\">\n");
    }
    let ghost head = out@;
    let mut k: usize = 0;
    while k < feeds.len()
        invariant
            k <= feeds@.len(),
            out@ == head + dialog_group_lines(feeds@.take(k as int), g@),
        decreases feeds@.len() - k,
    {
        proof {
            assert(feeds@.take(k + 1).drop_last() =~= feeds@.take(k as int));
            assert(feeds@.take(k + 1).last() == feeds@[k as int]);
        }
        let f = &feeds[k];
        if str_eq(f.group.as_str(), g) {
            let t = nesc_exec(f.title.as_str());
            append_str(out, "<outline type=\"rss\" text=\"");
            append_chars(out, t.as_slice());
            append_str(out, "\" title=\"");
            append_chars(out, t.as_slice());
            append_str(out, "\" xmlUrl=\"");
            let u = nesc_exec(f.url.as_str());
            append_chars(out, u.as_slice());
            append_str(out, "\" htmlUrl=\"");
            let l = nesc_exec(f.link.as_str());
            append_chars(out, l.as_slice());
            append_str(out, "\" />\n");
            assert(out@ =~= head + dialog_group_lines(feeds@.take(k + 1), g@));
        } else {
            assert(out@ =~= head + dialog_group_lines(feeds@.take(k + 1), g@));
        }
        k = k + 1;
    }
    assert(feeds@.take(feeds@.len() as int) =~= feeds@);
    if !unnamed {
        append_str(out, "</outline>\n");
    }
    assert(out@ =~= o + dialog_block(feeds@, g@));
}

/// The OPML document saved from the subscriptions dialog, groups in
/// ascending order of their names.
pub fn dialog_opml_text(feeds: &[Feed], created: &str) -> (r: String)
    ensures
        exists|gs: Seq<Seq<char>>| groups_sorted(feeds@, gs) && r@ == dialog_opml(feeds@, gs, created@),
{
    let gs = groups_of(feeds);
    let mut keys: Vec<TextKey> = Vec::new();
    let mut i: usize = 0;
    while i < gs.len()
        invariant
            i <= gs@.len(),
            keys@.len() == i,
            forall|j: int| 0 <= j < i ==> keys@[j].chars@ == gs@[j]@,
        decreases gs@.len() - i,
    {
        let c = crate::text::slice_chars(gs[i].as_slice(), 0, gs[i].len());
        assert(c@ =~= gs@[i as int]@);
        keys.push(TextKey { chars: c });
        i = i + 1;
    }
    let p = stable_order(keys.as_slice(), false);
    let ghost sorted: Seq<Seq<char>> = Seq::new(p@.len(), |i: int| groups_seen(feeds@)[p@[i] as int]);
    let mut out: Vec<char> = Vec::new();
    append_str(&mut out, "<?xml version=\"1.0\" encoding=\"UTF-8\"?><opml version=\"1.0\">");
    append_str(&mut out, "<head><title>RSS订阅源</title>");
    append_str(&mut out, "<dateCreated>");
    append_str(&mut out, created);
    append_str(&mut out, "</dateCreated></head>");
    append_str(&mut out, "<body>");
    let ghost head = out@;
    let mut k: usize = 0;
    while k < p.len()
        invariant
            k <= p@.len(),
            p@.len() == gs@.len(),
            texts(gs@) == groups_seen(feeds@),
            crate::order::is_permutation(p@, gs@.len()),
            sorted == Seq::new(p@.len(), |i: int| groups_seen(feeds@)[p@[i] as int]),
            out@ == head + dialog_blocks(feeds@, sorted.take(k as int)),
        decreases p@.len() - k,
    {
        proof {
            assert(sorted.take(k + 1).drop_last() =~= sorted.take(k as int));
        }
        let idx = p[k];
        assert(texts(gs@)[idx as int] == gs@[idx as int]@);
        let g = string_of(gs[idx].as_slice());
        push_dialog_group(&mut out, feeds, g.as_str());
        k = k + 1;
    }
    assert(sorted.take(p@.len() as int) =~= sorted);
    append_str(&mut out, "</body></opml>");
    assert(out@ =~= dialog_opml(feeds@, sorted, created@));
    assert(groups_sorted(feeds@, sorted));
    string_of(out.as_slice())
}

/// The current instant in RFC 2822 (`chrono::Utc::now().to_rfc2822()`).
/// Nothing is stated of it: it is the time of the call.
#[verifier::external_body]
fn now_rfc2822() -> (r: String) {
    chrono::Utc::now().to_rfc2822()
}

/// The OPML document saved from the subscriptions dialog, stamped with the
/// current time.
pub fn dialog_opml_now(feeds: &[Feed]) -> (r: String)
    ensures
        exists|gs: Seq<Seq<char>>, created: Seq<char>| groups_sorted(feeds@, gs) && r@ == dialog_opml(feeds@, gs, created),
{
    let now = now_rfc2822();
    dialog_opml_text(feeds, now.as_str())
}


// ---------------------------------------------------------------------------
// The SQL script and imports
// ---------------------------------------------------------------------------

/// The tables of the store, in the order their dependencies ask for.
pub fn export_tables() -> (r: Vec<String>)
    ensures
        r@.len() == 4,
        r@[0]@ == "feed_groups"@,
        r@[1]@ == "feeds"@,
        r@[2]@ == "articles"@,
        r@[3]@ == "settings"@,
{
    let mut r: Vec<String> = Vec::new();
    r.push("feed_groups".to_string());
    r.push("feeds".to_string());
    r.push("articles".to_string());
    r.push("settings".to_string());
    r
}

/// Pieces of text, each followed by a new line.
pub open spec fn lines_of(ps: Seq<String>) -> Seq<char>
    decreases ps.len(),
{
    if ps.len() == 0 {
        Seq::empty()
    } else {
        lines_of(ps.drop_last()) + ps.last()@ + "\n"@
    }
}

/// The SQL script of the store exported at `at`: a header, then the tables'
/// definitions, their rows and their indexes, each part under a comment.
pub open spec fn spec_sql_script(at: Seq<char>, creates: Seq<String>, inserts: Seq<String>, indexes: Seq<String>) -> Seq<char> {
    "-- RSS Rust Reader 数据库导出\n-- 导出时间: "@ + at + "\n-- 支持DuckDB\n\n-- 表结构创建语句\n"@
        + lines_of(creates) + "\n-- 数据插入语句\n"@ + lines_of(inserts) + "\n-- 索引创建语句\n"@
        + lines_of(indexes)
}

fn push_lines(out: &mut Vec<char>, ps: &[String])
    ensures
        final(out)@ == old(out)@ + lines_of(ps@),
{
    let ghost start = out@;
    let mut k: usize = 0;
    while k < ps.len()
        invariant
            k <= ps@.len(),
            out@ == start + lines_of(ps@.take(k as int)),
        decreases ps@.len() - k,
    {
        proof {
            assert(ps@.take(k + 1).drop_last() =~= ps@.take(k as int));
        }
        append_str(out, ps[k].as_str());
        append_str(out, "\n");
        k = k + 1;
    }
    assert(ps@.take(ps@.len() as int) =~= ps@);
}

/// The SQL script of the store exported at `at`, from each table's
/// definition, rows and indexes.
pub fn sql_export_script(at: &str, creates: &[String], inserts: &[String], indexes: &[String]) -> (r: String)
    ensures
        r@ == spec_sql_script(at@, creates@, inserts@, indexes@),
{
    let mut out: Vec<char> = Vec::new();
    append_str(&mut out, "-- RSS Rust Reader 数据库导出\n-- 导出时间: ");
    append_str(&mut out, at);
    append_str(&mut out, "\n-- 支持DuckDB\n\n-- 表结构创建语句\n");
    push_lines(&mut out, creates);
    append_str(&mut out, "\n-- 数据插入语句\n");
    push_lines(&mut out, inserts);
    append_str(&mut out, "\n-- 索引创建语句\n");
    push_lines(&mut out, indexes);
    assert(out@ =~= spec_sql_script(at@, creates@, inserts@, indexes@));
    string_of(out.as_slice())
}

/// The SQL script of the store, stamped with the current time.
pub fn sql_export_script_now(creates: &[String], inserts: &[String], indexes: &[String]) -> (r: String)
    ensures
        exists|at: Seq<char>| r@ == spec_sql_script(at, creates@, inserts@, indexes@),
{
    let now = now_rfc3339();
    sql_export_script(now.as_str(), creates, inserts, indexes)
}

/// The id a feed of an imported file got: its last mapping, when the feed
/// was imported; its own id otherwise.
pub open spec fn spec_imported_id(map: Seq<(i64, i64)>, old_id: i64) -> i64
    decreases map.len(),
{
    if map.len() == 0 {
        old_id
    } else if map.last().0 == old_id {
        map.last().1
    } else {
        spec_imported_id(map.drop_last(), old_id)
    }
}

/// The feed id that an imported article is stored under, from the ids the
/// imported feeds got (old id, new id), in the order they were imported.
pub fn imported_feed_id(map: &[(i64, i64)], old_id: i64) -> (r: i64)
    ensures
        r == spec_imported_id(map@, old_id),
{
    let mut k: usize = map.len();
    assert(map@.take(k as int) =~= map@);
    while k > 0
        invariant
            k <= map@.len(),
            spec_imported_id(map@, old_id) == spec_imported_id(map@.take(k as int), old_id),
        decreases k,
    {
        assert(map@.take(k as int).drop_last() =~= map@.take(k - 1));
        let (a, b) = map[k - 1];
        if a == old_id {
            return b;
        }
        k = k - 1;
    }
    old_id
}

// ---------------------------------------------------------------------------
// Importing a data file
// ---------------------------------------------------------------------------

/// What becomes of an imported subscription.
#[derive(Debug, PartialEq, Eq, Structural)]
pub enum FeedImport {
    /// The stored subscription with this id has the same address and is
    /// updated.
    Update(i64),
    /// No stored subscription has the address: it is added.
    Insert,
}

/// The id of the first stored subscription (address, id) from position `k`
/// on with the address.
pub open spec fn first_with_url(stored: Seq<(String, i64)>, url: Seq<char>, k: int) -> Option<i64>
    decreases stored.len() - k,
{
    if k < 0 || k >= stored.len() {
        None
    } else if stored[k].0@ == url {
        Some(stored[k].1)
    } else {
        first_with_url(stored, url, k + 1)
    }
}

pub open spec fn spec_feed_import(stored: Seq<(String, i64)>, url: Seq<char>) -> FeedImport {
    match first_with_url(stored, url, 0) {
        Some(id) => FeedImport::Update(id),
        None => FeedImport::Insert,
    }
}

/// How an imported subscription is stored, given the stored subscriptions'
/// addresses and ids: the first one with its address is updated, otherwise
/// it is added.
pub fn feed_import_action(stored: &[(String, i64)], url: &str) -> (r: FeedImport)
    ensures
        r == spec_feed_import(stored@, url@),
{
    let mut k: usize = 0;
    while k < stored.len()
        invariant
            k <= stored@.len(),
            first_with_url(stored@, url@, 0) == first_with_url(stored@, url@, k as int),
        decreases stored@.len() - k,
    {
        if str_eq(stored[k].0.as_str(), url) {
            return FeedImport::Update(stored[k].1);
        }
        k = k + 1;
    }
    FeedImport::Insert
}

/// Whether an imported group is added: no stored group has its name.
pub fn group_is_new(stored_names: &Vec<String>, name: &str) -> (r: bool)
    ensures
        r == !texts_of(stored_names@).contains(name@),
{
    !contains_text(stored_names, name)
}

/// An article moved to another feed.
pub open spec fn with_feed_id(a: Article, feed_id: i64) -> Article {
    Article { feed_id, ..a }
}

/// The imported articles that are stored, in file order: an article whose
/// guid is already stored, or was stored earlier in the import, is skipped;
/// the others are stored under the new id of their feed.
pub open spec fn imported_articles(stored_guids: Seq<Seq<char>>, articles: Seq<Article>, map: Seq<(i64, i64)>) -> Seq<Article>
    decreases articles.len(),
{
    if articles.len() == 0 {
        Seq::empty()
    } else {
        let prev = imported_articles(stored_guids, articles.drop_last(), map);
        let a = articles.last();
        if stored_guids.contains(a.guid@) || has_guid(prev, a.guid@) {
            prev
        } else {
            prev.push(with_feed_id(a, spec_imported_id(map, a.feed_id)))
        }
    }
}

/// The articles of a data file to store, given the stored guids and the ids
/// the imported feeds got (old id, new id).
pub fn articles_to_import(stored_guids: &Vec<String>, articles: &[Article], map: &[(i64, i64)]) -> (r: Vec<Article>)
    ensures
        r@ == imported_articles(texts_of(stored_guids@), articles@, map@),
{
    let mut out: Vec<Article> = Vec::new();
    let mut i: usize = 0;
    while i < articles.len()
        invariant
            i <= articles@.len(),
            out@ == imported_articles(texts_of(stored_guids@), articles@.take(i as int), map@),
        decreases articles@.len() - i,
    {
        proof {
            assert(articles@.take(i + 1).drop_last() =~= articles@.take(i as int));
            assert(articles@.take(i + 1).last() == articles@[i as int]);
        }
        let a = &articles[i];
        if !contains_text(stored_guids, a.guid.as_str()) && !has_guid_exec(out.as_slice(), a.guid.as_str()) {
            let mut b = a.clone();
            b.feed_id = imported_feed_id(map, a.feed_id);
            out.push(b);
        }
        i = i + 1;
    }
    assert(articles@.take(articles@.len() as int) =~= articles@);
    out
}

} // verus!
