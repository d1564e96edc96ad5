//! The statements that a relational backend is sent: filters and order of
//! the listing, and the chunks that keep every statement under the ceiling
//! of bound parameters.

use vstd::prelude::*;
use crate::text::texts;
use crate::text::{signed_decimal, signed_decimal_string, str_eq, PathSet};

verus! {

/// The most parameters that one statement may bind.
pub const MAX_PARAMS: usize = 32766;

/// The number of parameters that one record binds in an upsert.
pub const FIELDS_PER_FILE: usize = 23;

/// The most paths in one `IN (...)` list.
pub const MAX_PATHS_PER_STATEMENT: usize = 32766;

/// The most paths in one touch, which binds the scan time as well.
pub const MAX_PATHS_PER_TOUCH: usize = 32765;

/// The most records in one upsert.
pub const MAX_FILES_PER_BATCH: usize = 1424;

/// The number of chunks of at most `size` items that `len` items make.
pub open spec fn chunk_count(len: int, size: int) -> int {
    (len + size - 1) / size
}

/// The bounds of the `k`-th chunk.
pub open spec fn chunk_at(len: int, size: int, k: int) -> (int, int) {
    (k * size, if (k + 1) * size < len {
        (k + 1) * size
    } else {
        len
    })
}

/// Cuts `len` items into chunks of at most `size`, in order: every chunk
/// but the last is full, none is empty, and together they cover every item
/// once.
pub fn chunk_bounds(len: usize, size: usize) -> (r: Vec<(usize, usize)>)
    requires
        size > 0,
    ensures
        r@.len() == chunk_count(len as int, size as int),
        forall|k: int|
            0 <= k < r@.len() ==> (r@[k].0 as int, r@[k].1 as int) == chunk_at(
                len as int,
                size as int,
                k,
            ),
        forall|k: int| 0 <= k < r@.len() ==> r@[k].0 < r@[k].1 <= len && r@[k].1 - r@[k].0 <= size,
        forall|k: int| 0 <= k < r@.len() - 1 ==> r@[k].1 == #[trigger] r@[k + 1].0,
        r@.len() > 0 ==> r@[0].0 == 0 && r@[r@.len() - 1].1 == len,
        len == 0 ==> r@.len() == 0,
{
    let mut out: Vec<(usize, usize)> = Vec::new();
    let mut from: usize = 0;
    assert(0 * size == 0) by (nonlinear_arith);
    while from < len
        invariant
            size > 0,
            from <= len,
            from < len ==> from == out@.len() * size,
            from == len ==> (out@.len() == 0 && len == 0) || (out@.len() > 0 && (out@.len() - 1)
                * size < len <= out@.len() * size),
            out@.len() > 0 ==> out@[out@.len() - 1].1 == from && out@[0].0 == 0,
            forall|k: int|
                0 <= k < out@.len() ==> (out@[k].0 as int, out@[k].1 as int) == chunk_at(
                    len as int,
                    size as int,
                    k,
                ),
            forall|k: int|
                0 <= k < out@.len() ==> out@[k].0 < out@[k].1 <= len && out@[k].1 - out@[k].0
                    <= size,
            forall|k: int| 0 <= k < out@.len() - 1 ==> out@[k].1 == #[trigger] out@[k + 1].0,
        decreases len - from,
    {
        let to: usize = if size < len - from {
            from + size
        } else {
            len
        };
        let ghost n = out@.len() as int;
        let ghost before = out@;
        proof {
            assert((n + 1) * size == n * size + size) by (nonlinear_arith);
            assert((n + 1 - 1) * size == n * size) by (nonlinear_arith);
        }
        out.push((from, to));
        proof {
            assert forall|k: int| 0 <= k < out@.len() - 1 implies out@[k].1 == #[trigger] out@[k
                + 1].0 by {
                if k + 1 < n {
                    assert(before[k].1 == before[k + 1].0);
                }
            }
        }
        from = to;
    }
    proof {
        let n = out@.len() as int;
        let l = len as int;
        let s = size as int;
        if n == 0 {
            assert((0 + s - 1) / s == 0) by (nonlinear_arith)
                requires
                    s > 0,
            ;
        } else {
            assert((l + s - 1) / s == n) by (nonlinear_arith)
                requires
                    (n - 1) * s < l <= n * s,
                    s > 0,
            ;
        }
    }
    out
}

/// The chunks of a list of paths for an `IN (...)` query.
pub fn path_chunks(len: usize) -> (r: Vec<(usize, usize)>)
    ensures
        r@.len() == chunk_count(len as int, MAX_PATHS_PER_STATEMENT as int),
        forall|k: int| 0 <= k < r@.len() ==> r@[k].0 < r@[k].1 <= len && r@[k].1 - r@[k].0
            <= MAX_PARAMS,
        forall|k: int| 0 <= k < r@.len() - 1 ==> r@[k].1 == #[trigger] r@[k + 1].0,
        r@.len() > 0 ==> r@[0].0 == 0 && r@[r@.len() - 1].1 == len,
{
    chunk_bounds(len, MAX_PATHS_PER_STATEMENT)
}

/// The chunks of a list of paths for a touch: each leaves room for the scan
/// time.
pub fn touch_chunks(len: usize) -> (r: Vec<(usize, usize)>)
    ensures
        r@.len() == chunk_count(len as int, MAX_PATHS_PER_TOUCH as int),
        forall|k: int| 0 <= k < r@.len() ==> r@[k].0 < r@[k].1 <= len && r@[k].1 - r@[k].0 + 1
            <= MAX_PARAMS,
        forall|k: int| 0 <= k < r@.len() - 1 ==> r@[k].1 == #[trigger] r@[k + 1].0,
        r@.len() > 0 ==> r@[0].0 == 0 && r@[r@.len() - 1].1 == len,
{
    chunk_bounds(len, MAX_PATHS_PER_TOUCH)
}

/// The chunks of a list of records for an upsert: each binds at most the
/// ceiling, at 23 parameters a record.
pub fn upsert_chunks(len: usize) -> (r: Vec<(usize, usize)>)
    ensures
        r@.len() == chunk_count(len as int, MAX_FILES_PER_BATCH as int),
        forall|k: int| 0 <= k < r@.len() ==> r@[k].0 < r@[k].1 <= len && (r@[k].1 - r@[k].0)
            * FIELDS_PER_FILE <= MAX_PARAMS,
        forall|k: int| 0 <= k < r@.len() - 1 ==> r@[k].1 == #[trigger] r@[k + 1].0,
        r@.len() > 0 ==> r@[0].0 == 0 && r@[r@.len() - 1].1 == len,
{
    chunk_bounds(len, MAX_FILES_PER_BATCH)
}

/// The paths of the catalog that are missing from the existing ones: what a
/// delete removes, as a list for `IN (...)` statements.
pub fn missing_paths(scanned: &Vec<String>, existing: &Vec<String>) -> (r: Vec<String>)
    ensures
        texts(r@) == texts(scanned@).filter(|p: Seq<char>| !texts(existing@).contains(p)),
{
    let ghost gone = |p: Seq<char>| !texts(existing@).contains(p);
    let present = PathSet::new(existing);
    let mut out: Vec<String> = Vec::new();
    let mut i: usize = 0;
    assert(texts(out@) =~= texts(scanned@).subrange(0, 0).filter(gone)) by {
        reveal(Seq::filter);
    }
    while i < scanned.len()
        invariant
            i <= scanned.len(),
            present.wf(),
            forall|text: Seq<char>| present.holds(text) == texts(existing@).contains(text),
            gone == (|p: Seq<char>| !texts(existing@).contains(p)),
            texts(out@) == texts(scanned@).subrange(0, i as int).filter(gone),
        decreases scanned.len() - i,
    {
        proof {
            crate::db::repository::lemma_filter_step(texts(scanned@), i as int, gone);
        }
        if !present.contains(scanned[i].as_str()) {
            let ghost before = texts(out@);
            out.push(scanned[i].clone());
            assert(texts(out@) =~= before.push(scanned@[i as int]@));
        }
        i = i + 1;
    }
    assert(texts(scanned@).subrange(0, i as int) == texts(scanned@));
    out
}

/// The column that a sort field of the listing maps to; the EXIF time for
/// an unknown field.
pub open spec fn sort_column_of(sort_by: Seq<char>) -> Seq<char> {
    if sort_by == "createTime"@ {
        "create_time"@
    } else if sort_by == "modifyTime"@ {
        "modify_time"@
    } else if sort_by == "fileName"@ {
        "file_name"@
    } else {
        "exif_timestamp"@
    }
}

/// The column for a sort field.
pub fn sort_column(sort_by: &str) -> (r: &'static str)
    ensures
        r@ == sort_column_of(sort_by@),
{
    if str_eq(sort_by, "createTime") {
        "create_time"
    } else if str_eq(sort_by, "modifyTime") {
        "modify_time"
    } else if str_eq(sort_by, "fileName") {
        "file_name"
    } else {
        "exif_timestamp"
    }
}

/// The direction of a sort order: ascending for `asc`, descending for
/// anything else.
pub open spec fn direction_of(order: Seq<char>) -> Seq<char> {
    if order == "asc"@ {
        "ASC"@
    } else {
        "DESC"@
    }
}

/// A statement with the values of its placeholders, in order.
#[derive(Debug, Clone)]
pub struct SqlQuery {
    pub sql: String,
    pub params: Vec<String>,
}

/// The filters of a listing.
#[derive(Debug, Clone)]
pub struct ListFilter {
    /// Part of the file path.
    pub path: Option<String>,
    /// `image`, `video`, or `all` for no filter.
    pub file_type: Option<String>,
    pub camera_model: Option<String>,
    /// A date pattern that any of the three time columns may match.
    pub date_prefix: Option<String>,
}

/// The conditions of a filter, to follow `WHERE 1=1`.
pub open spec fn conditions_of(f: ListFilter, with_camera_and_date: bool) -> Seq<char> {
    (if f.path is Some {
        " AND file_path LIKE ?"@
    } else {
        Seq::empty()
    }) + (if f.file_type is Some && f.file_type.unwrap()@ != "all"@ {
        " AND file_type = ?"@
    } else {
        Seq::empty()
    }) + (if with_camera_and_date && f.camera_model is Some {
        " AND camera_model = ?"@
    } else {
        Seq::empty()
    }) + (if with_camera_and_date && f.date_prefix is Some {
        " AND (exif_timestamp LIKE ? OR create_time LIKE ? OR modify_time LIKE ?)"@
    } else {
        Seq::empty()
    })
}

/// The values that the conditions of a filter bind, in order: the path
/// between `%` signs, the file type, the camera model, and the date
/// followed by `%`, three times.
pub open spec fn params_of(f: ListFilter, with_camera_and_date: bool) -> Seq<Seq<char>> {
    (if f.path is Some {
        seq![seq!['%'] + f.path.unwrap()@ + seq!['%']]
    } else {
        Seq::empty()
    }) + (if f.file_type is Some && f.file_type.unwrap()@ != "all"@ {
        seq![f.file_type.unwrap()@]
    } else {
        Seq::empty()
    }) + (if with_camera_and_date && f.camera_model is Some {
        seq![f.camera_model.unwrap()@]
    } else {
        Seq::empty()
    }) + (if with_camera_and_date && f.date_prefix is Some {
        seq![
            f.date_prefix.unwrap()@ + seq!['%'],
            f.date_prefix.unwrap()@ + seq!['%'],
            f.date_prefix.unwrap()@ + seq!['%'],
        ]
    } else {
        Seq::empty()
    })
}

/// The text of the listing statement: the filters, the order with missing
/// times last, and the page.
pub open spec fn find_all_sql(
    f: ListFilter,
    sort_by: Seq<char>,
    order: Seq<char>,
    page: i32,
    page_size: i32,
) -> Seq<char> {
    "SELECT * FROM media_files WHERE 1=1"@ + conditions_of(f, true) + " ORDER BY CASE WHEN "@
        + sort_column_of(sort_by) + " IS NOT NULL THEN 0 ELSE 1 END, "@ + sort_column_of(sort_by)
        + seq![' '] + direction_of(order) + " LIMIT "@ + signed_decimal(page_size as int)
        + " OFFSET "@ + signed_decimal(page as int * page_size as int)
}

fn push_conditions(sql: &mut String, params: &mut Vec<String>, f: &ListFilter, all: bool)
    ensures
        final(sql)@ == old(sql)@ + conditions_of(*f, all),
        texts(final(params)@) == texts(old(params)@) + params_of(*f, all),
{
    proof {
        reveal_strlit("%");
        assert("%"@ == seq!['%']);
    }
    let ghost sql0 = sql@;
    let ghost p0 = texts(params@);
    match &f.path {
        Some(path) => {
            sql.append(" AND file_path LIKE ?");
            let value = String::from_str("%").concat(path.as_str()).concat("%");
            params.push(value);
            assert(texts(params@) =~= p0 + seq![seq!['%'] + path@ + seq!['%']]);
        },
        None => {
            assert(texts(params@) =~= p0 + Seq::<Seq<char>>::empty());
            assert(sql@ =~= sql0 + Seq::<char>::empty());
        },
    }
    let ghost sql1 = sql@;
    let ghost p1 = texts(params@);
    let typed = match &f.file_type {
        Some(t) => !str_eq(t.as_str(), "all"),
        None => false,
    };
    if typed {
        sql.append(" AND file_type = ?");
        let value = f.file_type.as_ref().unwrap().clone();
        params.push(value);
        assert(texts(params@) =~= p1 + seq![f.file_type.unwrap()@]);
    }
    let ghost sql2 = sql@;
    let ghost p2 = texts(params@);
    if all {
        match &f.camera_model {
            Some(camera) => {
                sql.append(" AND camera_model = ?");
                params.push(camera.clone());
                assert(texts(params@) =~= p2 + seq![camera@]);
            },
            None => {},
        }
    }
    let ghost sql3 = sql@;
    let ghost p3 = texts(params@);
    if all {
        match &f.date_prefix {
            Some(date) => {
                sql.append(
                    " AND (exif_timestamp LIKE ? OR create_time LIKE ? OR modify_time LIKE ?)",
                );
                params.push(String::from_str(date.as_str()).concat("%"));
                params.push(String::from_str(date.as_str()).concat("%"));
                params.push(String::from_str(date.as_str()).concat("%"));
                assert(texts(params@) =~= p3 + seq![
                    date@ + seq!['%'],
                    date@ + seq!['%'],
                    date@ + seq!['%'],
                ]);
            },
            None => {},
        }
    }
    assert(sql@ =~= sql0 + conditions_of(*f, all));
    assert(texts(params@) =~= p0 + params_of(*f, all));
}

/// The statement that lists media files with filtering, order and
/// pagination. The order puts records without the sort time last.
pub fn find_all_query(f: &ListFilter, sort_by: &str, order: &str, page: i32, page_size: i32) -> (r:
    SqlQuery)
    ensures
        r.sql@ == find_all_sql(*f, sort_by@, order@, page, page_size),
        texts(r.params@) == params_of(*f, true),
{
    let mut sql = String::from_str("SELECT * FROM media_files WHERE 1=1");
    let mut params: Vec<String> = Vec::new();
    assert(texts(params@) =~= Seq::<Seq<char>>::empty());
    push_conditions(&mut sql, &mut params, f, true);
    let column = sort_column(sort_by);
    sql.append(" ORDER BY CASE WHEN ");
    sql.append(column);
    sql.append(" IS NOT NULL THEN 0 ELSE 1 END, ");
    sql.append(column);
    sql.append(" ");
    sql.append(if str_eq(order, "asc") {
        "ASC"
    } else {
        "DESC"
    });
    sql.append(" LIMIT ");
    sql.append(signed_decimal_string(page_size as i64).as_str());
    sql.append(" OFFSET ");
    assert(-0x8000_0000 * 0x8000_0000 <= page * page_size <= 0x8000_0000 * 0x8000_0000)
        by (nonlinear_arith)
        requires
            -0x8000_0000 <= page <= 0x7fff_ffff,
            -0x8000_0000 <= page_size <= 0x7fff_ffff,
    ;
    sql.append(signed_decimal_string((page as i64) * (page_size as i64)).as_str());
    proof {
        reveal_strlit(" ");
        assert(" "@ == seq![' ']);
        assert(sql@ =~= find_all_sql(*f, sort_by@, order@, page, page_size));
        assert(texts(params@) =~= params_of(*f, true));
    }
    SqlQuery { sql, params }
}

/// The statement that counts media files under the path and type filters.
pub fn count_query(f: &ListFilter) -> (r: SqlQuery)
    ensures
        r.sql@ == "SELECT COUNT(*) FROM media_files WHERE 1=1"@ + conditions_of(*f, false),
        texts(r.params@) == params_of(*f, false),
{
    let mut sql = String::from_str("SELECT COUNT(*) FROM media_files WHERE 1=1");
    let mut params: Vec<String> = Vec::new();
    assert(texts(params@) =~= Seq::<Seq<char>>::empty());
    push_conditions(&mut sql, &mut params, f, false);
    assert(texts(params@) =~= params_of(*f, false));
    SqlQuery { sql, params }
}

/// `n` copies of a text, joined by `, `.
pub open spec fn copies_of(item: Seq<char>, n: nat) -> Seq<char>
    decreases n,
{
    if n == 0 {
        Seq::empty()
    } else if n == 1 {
        item
    } else {
        copies_of(item, (n - 1) as nat) + ", "@ + item
    }
}

/// `n` copies of a text, joined by `, `.
pub fn copies(item: &str, n: usize) -> (r: String)
    ensures
        r@ == copies_of(item@, n as nat),
{
    let mut out = String::from_str("");
    proof {
        reveal_strlit("");
        assert(out@ =~= copies_of(item@, 0));
    }
    let mut i: usize = 0;
    while i < n
        invariant
            i <= n,
            out@ == copies_of(item@, i as nat),
        decreases n - i,
    {
        if i > 0 {
            out.append(", ");
        }
        out.append(item);
        proof {
            if i == 0 {
                assert(out@ =~= item@);
            }
        }
        i = i + 1;
    }
    out
}

/// A list of `n` placeholders in parentheses: ` IN (?, ?, ...)` binds one
/// value for each.
pub open spec fn in_list_of(n: nat) -> Seq<char> {
    "("@ + copies_of("?"@, n) + ")"@
}

/// The text of the statement that reads the records with `n` given paths.
pub open spec fn find_by_paths_sql(n: nat) -> Seq<char> {
    "SELECT * FROM media_files WHERE file_path IN "@ + in_list_of(n)
}

/// The statement that reads the records whose path is one of `n` bound
/// paths.
pub fn find_by_paths_statement(n: usize) -> (r: String)
    ensures
        r@ == find_by_paths_sql(n as nat),
{
    let mut sql = String::from_str("SELECT * FROM media_files WHERE file_path IN ");
    sql.append("(");
    sql.append(copies("?", n).as_str());
    sql.append(")");
    assert(sql@ =~= find_by_paths_sql(n as nat));
    sql
}

/// The text of the statement that marks the records with `n` given paths
/// as scanned.
pub open spec fn touch_sql(n: nat) -> Seq<char> {
    "UPDATE media_files SET last_scanned = ? WHERE file_path IN "@ + in_list_of(n)
}

/// The statement that sets `last_scanned` of the records whose path is one
/// of `n` bound paths. The scan time is bound first, then the paths.
pub fn touch_statement(n: usize) -> (r: String)
    ensures
        r@ == touch_sql(n as nat),
{
    let mut sql = String::from_str("UPDATE media_files SET last_scanned = ? WHERE file_path IN ");
    sql.append("(");
    sql.append(copies("?", n).as_str());
    sql.append(")");
    assert(sql@ =~= touch_sql(n as nat));
    sql
}

/// The text of the statement that deletes the scanned records with `n`
/// given paths.
pub open spec fn delete_sql(n: nat) -> Seq<char> {
    "DELETE FROM media_files WHERE last_scanned IS NOT NULL AND file_path IN "@ + in_list_of(n)
}

/// The statement that deletes the records that were scanned before and
/// whose path is one of `n` bound paths. A record that was never scanned
/// stays.
pub fn delete_statement(n: usize) -> (r: String)
    ensures
        r@ == delete_sql(n as nat),
{
    let mut sql = String::from_str(
        "DELETE FROM media_files WHERE last_scanned IS NOT NULL AND file_path IN ",
    );
    sql.append("(");
    sql.append(copies("?", n).as_str());
    sql.append(")");
    assert(sql@ =~= delete_sql(n as nat));
    sql
}

/// The columns of a record, in the order in which an upsert binds them.
pub open spec fn upsert_columns() -> Seq<char> {
    "id, file_path, file_name, file_type, mime_type, file_size, width, height, exif_timestamp, exif_timezone_offset, create_time, modify_time, last_scanned, camera_make, camera_model, lens_model, exposure_time, aperture, iso, focal_length, duration, video_codec, thumbnail_generated"@
}

/// What an upsert does to a record whose path is known: every column but
/// the identifier and the path takes the new value.
pub open spec fn upsert_on_conflict() -> Seq<char> {
    " ON CONFLICT(file_path) DO UPDATE SET file_name = excluded.file_name, file_type = excluded.file_type, mime_type = excluded.mime_type, file_size = excluded.file_size, width = excluded.width, height = excluded.height, exif_timestamp = excluded.exif_timestamp, exif_timezone_offset = excluded.exif_timezone_offset, create_time = excluded.create_time, modify_time = excluded.modify_time, last_scanned = excluded.last_scanned, camera_make = excluded.camera_make, camera_model = excluded.camera_model, lens_model = excluded.lens_model, exposure_time = excluded.exposure_time, aperture = excluded.aperture, iso = excluded.iso, focal_length = excluded.focal_length, duration = excluded.duration, video_codec = excluded.video_codec, thumbnail_generated = excluded.thumbnail_generated"@
}

/// The text of the statement that upserts `n` records: one row of 23
/// placeholders for each.
pub open spec fn upsert_sql(n: nat) -> Seq<char> {
    "INSERT INTO media_files ("@ + upsert_columns() + ") VALUES "@ + copies_of(
        in_list_of(FIELDS_PER_FILE as nat),
        n,
    ) + upsert_on_conflict()
}

/// The statement that inserts `n` records, or updates those whose path is
/// known, which keep their identifier. Each record binds its 23 columns in
/// the order of the column list.
pub fn upsert_statement(n: usize) -> (r: String)
    ensures
        r@ == upsert_sql(n as nat),
{
    let mut row = String::from_str("(");
    row.append(copies("?", FIELDS_PER_FILE).as_str());
    row.append(")");
    assert(row@ =~= in_list_of(FIELDS_PER_FILE as nat));
    let mut sql = String::from_str("INSERT INTO media_files (");
    sql.append(
        "id, file_path, file_name, file_type, mime_type, file_size, width, height, exif_timestamp, exif_timezone_offset, create_time, modify_time, last_scanned, camera_make, camera_model, lens_model, exposure_time, aperture, iso, focal_length, duration, video_codec, thumbnail_generated",
    );
    sql.append(") VALUES ");
    sql.append(copies(row.as_str(), n).as_str());
    sql.append(
        " ON CONFLICT(file_path) DO UPDATE SET file_name = excluded.file_name, file_type = excluded.file_type, mime_type = excluded.mime_type, file_size = excluded.file_size, width = excluded.width, height = excluded.height, exif_timestamp = excluded.exif_timestamp, exif_timezone_offset = excluded.exif_timezone_offset, create_time = excluded.create_time, modify_time = excluded.modify_time, last_scanned = excluded.last_scanned, camera_make = excluded.camera_make, camera_model = excluded.camera_model, lens_model = excluded.lens_model, exposure_time = excluded.exposure_time, aperture = excluded.aperture, iso = excluded.iso, focal_length = excluded.focal_length, duration = excluded.duration, video_codec = excluded.video_codec, thumbnail_generated = excluded.thumbnail_generated",
    );
    assert(sql@ =~= upsert_sql(n as nat));
    sql
}

/// The effective sort time of a record as an expression over its columns:
/// the EXIF timestamp where its year lies between the two bound years,
/// else the creation time where it is not after the bound instant, else
/// the modification time.
pub open spec fn sort_time_sql() -> Seq<char> {
    "CASE WHEN exif_timestamp IS NOT NULL AND CAST(strftime('%Y', exif_timestamp) AS INTEGER) BETWEEN ? AND ? THEN exif_timestamp WHEN create_time IS NOT NULL AND create_time <= ? THEN create_time ELSE modify_time END"@
}

/// The text of the statement that finds the neighbour of an instant.
pub open spec fn neighbors_sql(before: bool) -> Seq<char> {
    "SELECT * FROM (SELECT *, "@ + sort_time_sql() + " AS sort_time FROM media_files) WHERE sort_time "@
        + (if before {
        "<"@
    } else {
        ">"@
    }) + " ? ORDER BY sort_time "@ + (if before {
        "DESC"@
    } else {
        "ASC"@
    }) + " LIMIT 1"@
}

/// The statement that finds the neighbour of an instant for navigation: the
/// record nearest to it among those strictly before, or strictly after, by
/// effective sort time. It binds, in order, the first and the last year of
/// a valid EXIF timestamp, the present instant, and the reference instant.
pub fn neighbors_statement(before: bool) -> (r: String)
    ensures
        r@ == neighbors_sql(before),
{
    let mut sql = String::from_str("SELECT * FROM (SELECT *, ");
    sql.append(
        "CASE WHEN exif_timestamp IS NOT NULL AND CAST(strftime('%Y', exif_timestamp) AS INTEGER) BETWEEN ? AND ? THEN exif_timestamp WHEN create_time IS NOT NULL AND create_time <= ? THEN create_time ELSE modify_time END",
    );
    sql.append(" AS sort_time FROM media_files) WHERE sort_time ");
    sql.append(if before {
        "<"
    } else {
        ">"
    });
    sql.append(" ? ORDER BY sort_time ");
    sql.append(if before {
        "DESC"
    } else {
        "ASC"
    });
    sql.append(" LIMIT 1");
    assert(sql@ =~= neighbors_sql(before));
    sql
}

/// The text of the statement that lists the dates with files: the date of
/// the first of EXIF timestamp, creation time and modification time that a
/// record has, for the records that pass the path and type filters; each
/// date once, the latest first.
pub open spec fn dates_sql(f: ListFilter) -> Seq<char> {
    "SELECT date AS date, COUNT(*) AS count FROM (SELECT DISTINCT date(COALESCE(exif_timestamp, create_time, modify_time)) AS date FROM media_files WHERE COALESCE(exif_timestamp, create_time, modify_time) IS NOT NULL"@
        + conditions_of(f, false) + ") GROUP BY date ORDER BY date DESC"@
}

/// The statement that lists the dates with files under the path and type
/// filters, for the calendar.
pub fn dates_query(f: &ListFilter) -> (r: SqlQuery)
    ensures
        r.sql@ == dates_sql(*f),
        texts(r.params@) == params_of(*f, false),
{
    let mut sql = String::from_str(
        "SELECT date AS date, COUNT(*) AS count FROM (SELECT DISTINCT date(COALESCE(exif_timestamp, create_time, modify_time)) AS date FROM media_files WHERE COALESCE(exif_timestamp, create_time, modify_time) IS NOT NULL",
    );
    let mut params: Vec<String> = Vec::new();
    assert(texts(params@) =~= Seq::<Seq<char>>::empty());
    push_conditions(&mut sql, &mut params, f, false);
    sql.append(") GROUP BY date ORDER BY date DESC");
    assert(texts(params@) =~= params_of(*f, false));
    SqlQuery { sql, params }
}

/// Chunking keeps every statement under the ceiling of bound parameters,
/// however long the list: a query over paths binds at most 32766 values, a
/// touch one more than its paths, an upsert 23 for each record.
pub proof fn lemma_chunks_respect_ceiling(len: int, k: int)
    requires
        len >= 0,
        k >= 0,
    ensures
        chunk_at(len, MAX_PATHS_PER_STATEMENT as int, k).1 - chunk_at(
            len,
            MAX_PATHS_PER_STATEMENT as int,
            k,
        ).0 <= MAX_PARAMS,
        chunk_at(len, MAX_PATHS_PER_TOUCH as int, k).1 - chunk_at(
            len,
            MAX_PATHS_PER_TOUCH as int,
            k,
        ).0 + 1 <= MAX_PARAMS,
        (chunk_at(len, MAX_FILES_PER_BATCH as int, k).1 - chunk_at(
            len,
            MAX_FILES_PER_BATCH as int,
            k,
        ).0) * FIELDS_PER_FILE <= MAX_PARAMS,
        MAX_FILES_PER_BATCH == MAX_PARAMS / FIELDS_PER_FILE,
{
    assert((k + 1) * 32766 == k * 32766 + 32766) by (nonlinear_arith);
    assert((k + 1) * 32765 == k * 32765 + 32765) by (nonlinear_arith);
    assert((k + 1) * 1424 == k * 1424 + 1424) by (nonlinear_arith);
}

} // verus!
