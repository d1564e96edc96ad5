use latte_album::db::statements::{
    copies, dates_query, delete_statement, find_by_paths_statement, neighbors_statement,
    touch_statement, upsert_statement, ListFilter, FIELDS_PER_FILE, MAX_FILES_PER_BATCH,
    MAX_PARAMS,
};

fn placeholders(sql: &str) -> usize {
    sql.matches('?').count()
}

#[test]
fn copies_are_joined_by_commas() {
    assert_eq!(copies("?", 0), "");
    assert_eq!(copies("?", 1), "?");
    assert_eq!(copies("?", 3), "?, ?, ?");
    assert_eq!(copies("(a)", 2), "(a), (a)");
}

#[test]
fn statements_over_a_list_of_paths() {
    assert_eq!(
        find_by_paths_statement(2),
        "SELECT * FROM media_files WHERE file_path IN (?, ?)"
    );
    assert_eq!(
        touch_statement(3),
        "UPDATE media_files SET last_scanned = ? WHERE file_path IN (?, ?, ?)"
    );
    assert_eq!(placeholders(&touch_statement(32765)), MAX_PARAMS);
    assert_eq!(
        delete_statement(1),
        "DELETE FROM media_files WHERE last_scanned IS NOT NULL AND file_path IN (?)"
    );
    assert_eq!(placeholders(&delete_statement(32766)), MAX_PARAMS);
}

#[test]
fn an_upsert_binds_every_column_of_every_record() {
    let one = upsert_statement(1);
    assert!(one.starts_with("INSERT INTO media_files (id, file_path, file_name, "));
    assert!(one.contains("thumbnail_generated) VALUES (?, ?, "));
    assert!(one.contains("?) ON CONFLICT(file_path) DO UPDATE SET file_name = excluded.file_name"));
    assert!(one.ends_with("thumbnail_generated = excluded.thumbnail_generated"));
    // The identifier and the path of a known record stay as they are.
    assert!(!one.contains(" id = excluded.id"));
    assert!(!one.contains("file_path = excluded.file_path"));
    assert_eq!(placeholders(&one), FIELDS_PER_FILE);
    let columns = one.split(") VALUES").next().unwrap().split('(').nth(1).unwrap();
    assert_eq!(columns.split(", ").count(), FIELDS_PER_FILE);
    assert_eq!(placeholders(&upsert_statement(3)), 3 * FIELDS_PER_FILE);
    assert!(upsert_statement(2).contains("?), (?"));
    let full = placeholders(&upsert_statement(MAX_FILES_PER_BATCH));
    assert!(full <= MAX_PARAMS);
    assert!(full + FIELDS_PER_FILE > MAX_PARAMS);
}

#[test]
fn the_neighbour_statement_orders_by_the_effective_sort_time() {
    let before = neighbors_statement(true);
    let after = neighbors_statement(false);
    assert!(before.ends_with("WHERE sort_time < ? ORDER BY sort_time DESC LIMIT 1"));
    assert!(after.ends_with("WHERE sort_time > ? ORDER BY sort_time ASC LIMIT 1"));
    for sql in [&before, &after] {
        assert!(sql.contains("BETWEEN ? AND ? THEN exif_timestamp"));
        assert!(sql.contains("create_time <= ? THEN create_time ELSE modify_time END"));
        assert_eq!(placeholders(sql), 4);
    }
}

#[test]
fn the_dates_statement_takes_the_filters() {
    let none = ListFilter { path: None, file_type: None, camera_model: None, date_prefix: None };
    let q = dates_query(&none);
    assert!(q.sql.starts_with("SELECT date AS date, COUNT(*) AS count FROM (SELECT DISTINCT "));
    assert!(q.sql.ends_with("IS NOT NULL) GROUP BY date ORDER BY date DESC"));
    assert!(q.params.is_empty());
    let some = ListFilter {
        path: Some("2024/".to_string()),
        file_type: Some("image".to_string()),
        camera_model: Some("ignored".to_string()),
        date_prefix: Some("ignored".to_string()),
    };
    let q = dates_query(&some);
    assert!(q.sql.ends_with(
        "IS NOT NULL AND file_path LIKE ? AND file_type = ?) GROUP BY date ORDER BY date DESC"
    ));
    assert_eq!(q.params, vec!["%2024/%".to_string(), "image".to_string()]);
    let all = ListFilter { file_type: Some("all".to_string()), ..none };
    assert!(dates_query(&all).params.is_empty());
}
