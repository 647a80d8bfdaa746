use embedded_dispatch::dedup::DocAddr;
use embedded_dispatch::search::{effective_limit, SearchConfig, SearchError, SearchIndex, SearchState};
use tantivy::schema::{NumericOptions, Schema, TEXT};

fn build_index(docs: &[(i64, &str)]) -> SearchIndex {
    let mut builder = Schema::builder();
    let key_opts = NumericOptions::default().set_fast().set_stored().set_indexed();
    let key = builder.add_i64_field("key", key_opts);
    let title = builder.add_text_field("title", TEXT);
    let schema = builder.build();
    let index = tantivy::Index::create_in_ram(schema.clone());
    let mut writer: tantivy::IndexWriter =
        index.writer_with_num_threads(1, 20_000_000).expect("writer");
    for (k, text) in docs {
        let mut d = tantivy::TantivyDocument::new();
        d.add_i64(key, *k);
        d.add_text(title, *text);
        writer.add_document(d).expect("add");
    }
    writer.commit().expect("commit");
    SearchIndex { index, schema, key_field_name: "key".to_string() }
}

fn config(query: &str, limit: Option<usize>, offset: Option<usize>) -> SearchConfig {
    SearchConfig { query: query.to_string(), limit_rows: limit, offset_rows: offset }
}

#[test]
fn effective_limit_defaults_to_document_count() {
    assert_eq!(effective_limit(None, 5), 5);
    assert_eq!(effective_limit(None, 1), 1);
}

#[test]
fn effective_limit_is_one_on_an_empty_snapshot() {
    assert_eq!(effective_limit(None, 0), 1);
}

#[test]
fn effective_limit_uses_an_explicit_value_as_given() {
    assert_eq!(effective_limit(Some(2), 100), 2);
    assert_eq!(effective_limit(Some(7), 0), 7);
}

#[test]
fn search_without_limit_returns_every_matching_document() {
    let idx = build_index(&[(1, "hello world"), (2, "hello there"), (3, "hello again")]);
    let state = SearchState::new(&idx, config("title:hello", None, None)).expect("state");
    let hits = state.search().expect("search");
    assert_eq!(hits.len(), 3);
    let mut keys: Vec<i64> = hits.iter().map(|h| h.key).collect();
    keys.sort();
    assert_eq!(keys, vec![1, 2, 3]);
}

#[test]
fn search_on_an_empty_snapshot_returns_nothing() {
    let idx = build_index(&[]);
    let state = SearchState::new(&idx, config("title:hello", None, None)).expect("state");
    let hits = state.search().expect("search");
    assert_eq!(hits.len(), 0);
}

#[test]
fn explicit_limit_bounds_the_result() {
    let idx = build_index(&[(1, "hello world"), (2, "hello there"), (3, "hello again")]);
    let state = SearchState::new(&idx, config("title:hello", Some(2), None)).expect("state");
    let hits = state.search().expect("search");
    assert_eq!(hits.len(), 2);
}

#[test]
fn offset_skips_ranked_results() {
    let idx = build_index(&[(1, "hello world"), (2, "hello there"), (3, "hello again")]);
    let state = SearchState::new(&idx, config("title:hello", None, Some(1))).expect("state");
    let hits = state.search().expect("search");
    assert_eq!(hits.len(), 2);
}

#[test]
fn key_field_value_reads_the_stored_key() {
    let idx = build_index(&[(41, "alpha"), (42, "bravo")]);
    let state = SearchState::new(&idx, config("title:bravo", None, None)).expect("state");
    let hits = state.search().expect("search");
    assert_eq!(hits.len(), 1);
    assert_eq!(hits[0].key, 42);
    let stored = state.key_field_value(hits[0].addr).expect("stored key");
    assert_eq!(stored, 42);
}

#[test]
fn key_field_value_fails_outside_the_snapshot() {
    let idx = build_index(&[(1, "hello")]);
    let state = SearchState::new(&idx, config("title:hello", None, None)).expect("state");
    let bad = DocAddr { segment: 99, doc: 0 };
    assert_eq!(state.key_field_value(bad), Err(SearchError::DocNotFound));
}

#[test]
fn missing_key_field_is_a_schema_invariant_violation() {
    let mut idx = build_index(&[(1, "hello")]);
    idx.key_field_name = "absent".to_string();
    match SearchState::new(&idx, config("title:hello", None, None)) {
        Err(SearchError::SchemaInvariantViolation) => {},
        other => panic!("expected a schema invariant violation, got {:?}", other.is_ok()),
    }
}

#[test]
fn non_fast_key_field_is_a_schema_invariant_violation() {
    let mut builder = Schema::builder();
    let key_opts = NumericOptions::default().set_stored().set_indexed();
    builder.add_i64_field("key", key_opts);
    builder.add_text_field("title", TEXT);
    let schema = builder.build();
    let index = tantivy::Index::create_in_ram(schema.clone());
    let idx = SearchIndex { index, schema, key_field_name: "key".to_string() };
    match SearchState::new(&idx, config("title:hello", None, None)) {
        Err(SearchError::SchemaInvariantViolation) => {},
        other => panic!("expected a schema invariant violation, got {:?}", other.is_ok()),
    }
}

#[test]
fn segment_without_key_values_still_carries_the_column() {
    // the engine writes a column for every schema-declared fast field even
    // when no document of a segment holds a value, so the per-segment key
    // check passes and a missing value reads as the default zero
    let mut builder = Schema::builder();
    let key_opts = NumericOptions::default().set_fast().set_stored().set_indexed();
    builder.add_i64_field("key", key_opts);
    let title = builder.add_text_field("title", TEXT);
    let schema = builder.build();
    let index = tantivy::Index::create_in_ram(schema.clone());
    let mut writer: tantivy::IndexWriter =
        index.writer_with_num_threads(1, 20_000_000).expect("writer");
    let mut d = tantivy::TantivyDocument::new();
    d.add_text(title, "hello keyless");
    writer.add_document(d).expect("add");
    writer.commit().expect("commit");
    let idx = SearchIndex { index, schema, key_field_name: "key".to_string() };
    let state = SearchState::new(&idx, config("title:hello", None, None)).expect("state");
    let hits = state.search().expect("search");
    assert_eq!(hits.len(), 1);
    assert_eq!(hits[0].key, 0);
}

#[test]
fn unstored_key_field_is_a_schema_invariant_violation_on_lookup() {
    // the key is a fast column (searchable, dedupable) but not stored, so
    // the stored document carries no integer value for it
    let mut builder = Schema::builder();
    let key_opts = NumericOptions::default().set_fast().set_indexed();
    let key = builder.add_i64_field("key", key_opts);
    let title = builder.add_text_field("title", TEXT);
    let schema = builder.build();
    let index = tantivy::Index::create_in_ram(schema.clone());
    let mut writer: tantivy::IndexWriter =
        index.writer_with_num_threads(1, 20_000_000).expect("writer");
    let mut d = tantivy::TantivyDocument::new();
    d.add_i64(key, 42);
    d.add_text(title, "hello world");
    writer.add_document(d).expect("add");
    writer.commit().expect("commit");
    let idx = SearchIndex { index, schema, key_field_name: "key".to_string() };
    let state = SearchState::new(&idx, config("title:hello", None, None)).expect("state");
    let hits = state.search().expect("search");
    assert_eq!(hits.len(), 1);
    assert_eq!(hits[0].key, 42);
    assert_eq!(
        state.key_field_value(hits[0].addr),
        Err(SearchError::SchemaInvariantViolation)
    );
}

#[test]
fn out_of_range_local_id_is_not_found() {
    let idx = build_index(&[(1, "hello")]);
    let state = SearchState::new(&idx, config("title:hello", None, None)).expect("state");
    let bad = DocAddr { segment: 0, doc: 999 };
    assert_eq!(state.key_field_value(bad), Err(SearchError::DocNotFound));
    match state.doc(bad) {
        Err(SearchError::DocNotFound) => {},
        _ => panic!("expected not-found for an out-of-range local id"),
    }
}

#[test]
fn retrieval_is_deterministic_on_one_state() {
    let idx = build_index(&[(1, "hello world"), (2, "hello there"), (3, "hello again")]);
    let state = SearchState::new(&idx, config("title:hello", None, None)).expect("state");
    let first = state.search().expect("search");
    let second = state.search().expect("search");
    assert_eq!(first, second);
    let dedup_first = state.search_dedup().expect("dedup");
    let dedup_second = state.search_dedup().expect("dedup");
    assert_eq!(dedup_first, dedup_second);
}

#[test]
fn search_results_have_pairwise_distinct_addresses() {
    let idx = build_index(&[(5, "hello world"), (5, "hello world"), (7, "hello there")]);
    let state = SearchState::new(&idx, config("title:hello", None, None)).expect("state");
    let hits = state.search().expect("search");
    assert_eq!(hits.len(), 3);
    for i in 0..hits.len() {
        for j in (i + 1)..hits.len() {
            assert_ne!(hits[i].addr, hits[j].addr);
        }
    }
}

#[test]
fn unknown_query_field_is_a_schema_invariant_violation() {
    let idx = build_index(&[(1, "hello")]);
    match SearchState::new(&idx, config("missing:hello", None, None)) {
        Err(SearchError::SchemaInvariantViolation) => {},
        other => panic!("expected a schema invariant violation, got {:?}", other.is_ok()),
    }
}

#[test]
fn search_dedup_collapses_colliding_keys_to_the_greatest_address() {
    let idx = build_index(&[(5, "hello world"), (5, "hello world"), (7, "hello world")]);
    let state = SearchState::new(&idx, config("title:hello", None, None)).expect("state");
    let hits = state.search_dedup().expect("dedup");
    assert_eq!(hits.len(), 2);
    let mut keys: Vec<i64> = hits.iter().map(|h| h.key).collect();
    keys.sort();
    assert_eq!(keys, vec![5, 7]);
    let survivor = hits.iter().find(|h| h.key == 5).expect("key 5 present");
    // the two key-5 documents are local ids 0 and 1 of the only segment
    assert_eq!(survivor.addr.doc, 1);
}

#[test]
fn search_dedup_without_collisions_matches_search() {
    let idx = build_index(&[(1, "hello world"), (2, "hello there")]);
    let state = SearchState::new(&idx, config("title:hello", None, None)).expect("state");
    let plain = state.search().expect("search");
    let deduped = state.search_dedup().expect("dedup");
    assert_eq!(plain, deduped);
}

#[test]
fn search_dedup_collapses_keys_across_segments() {
    let mut builder = Schema::builder();
    let key_opts = NumericOptions::default().set_fast().set_stored().set_indexed();
    let key = builder.add_i64_field("key", key_opts);
    let title = builder.add_text_field("title", TEXT);
    let schema = builder.build();
    let index = tantivy::Index::create_in_ram(schema.clone());
    let mut writer: tantivy::IndexWriter =
        index.writer_with_num_threads(1, 20_000_000).expect("writer");
    // one commit per version of the same logical row: a stale copy and a
    // newer copy end up in separate segments
    for _ in 0..2 {
        let mut d = tantivy::TantivyDocument::new();
        d.add_i64(key, 5);
        d.add_text(title, "hello world");
        writer.add_document(d).expect("add");
        writer.commit().expect("commit");
    }
    let idx = SearchIndex { index, schema, key_field_name: "key".to_string() };
    let state = SearchState::new(&idx, config("title:hello", None, None)).expect("state");
    assert_eq!(state.search().expect("search").len(), 2);
    let deduped = state.search_dedup().expect("dedup");
    assert_eq!(deduped.len(), 1);
    assert_eq!(deduped[0].key, 5);
}

#[test]
fn doc_fetches_within_the_snapshot_and_fails_outside() {
    let idx = build_index(&[(1, "hello")]);
    let state = SearchState::new(&idx, config("title:hello", None, None)).expect("state");
    let hits = state.search().expect("search");
    assert!(state.doc(hits[0].addr).is_ok());
    assert!(state.doc(DocAddr { segment: 9, doc: 0 }).is_err());
}
