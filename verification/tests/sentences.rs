use sentence_binder::models::Sentence;
use sentence_binder::sentences::{
    build_fts_query, chunk_ranges, join_tags, new_sentence_record, parse_tags,
    require_changed_row, search_plan, DbFailure, SentenceRow, BULK_INSERT_CHUNK_SIZE,
};

fn strings(v: &[&str]) -> Vec<String> {
    v.iter().map(|s| s.to_string()).collect()
}

#[test]
fn test_build_fts_query_standard_terms() {
    assert_eq!(build_fts_query("apple"), "\"apple\"*");
    assert_eq!(
        build_fts_query("apple banana"),
        "\"apple\"* AND \"banana\"*"
    );
}

#[test]
fn test_build_fts_query_quoted_phrases() {
    assert_eq!(build_fts_query("\"apple banana\""), "\"apple banana\"*");
    assert_eq!(
        build_fts_query("start \"middle phrase\" end"),
        "\"start\"* AND \"middle phrase\"* AND \"end\"*"
    );
}

#[test]
fn test_build_fts_query_tags() {
    assert_eq!(build_fts_query("tag:business"), "tags:\"business\"*");
    assert_eq!(
        build_fts_query("tag:\"business trip\""),
        "tags:\"business trip\"*"
    );
}

#[test]
fn test_build_fts_query_mixed_and_empty() {
    // Mixed tags and terms
    assert_eq!(
        build_fts_query("apple tag:fruit \"red delicious\""),
        "\"apple\"* AND tags:\"fruit\"* AND \"red delicious\"*"
    );

    // Empty tags should be stripped out cleanly
    assert_eq!(build_fts_query("tag:"), "");
    assert_eq!(build_fts_query("apple tag:"), "\"apple\"*");
}

#[test]
fn fts_query_splits_on_tabs_and_newlines_and_trims_quoted_terms() {
    assert_eq!(build_fts_query("a\tb\nc"), "\"a\"* AND \"b\"* AND \"c\"*");
    assert_eq!(build_fts_query("\"  spaced  \""), "\"spaced\"*");
    assert_eq!(build_fts_query("\"\" \"  \""), "");
    assert_eq!(build_fts_query("tag:\"  x \""), "tags:\"x\"*");
    assert_eq!(build_fts_query("Tag:x"), "\"Tag:x\"*");
    assert_eq!(build_fts_query("  "), "");
}

#[test]
fn search_plan_lists_everything_for_blank_or_clauseless_queries() {
    assert_eq!(search_plan(""), None);
    assert_eq!(search_plan("   "), None);
    assert_eq!(search_plan("tag:  "), None);
    assert_eq!(search_plan("  brown "), Some("\"brown\"*".to_string()));
    assert_eq!(
        search_plan("https://google.com"),
        Some("\"https://google.com\"*".to_string())
    );
}

#[test]
fn tags_are_joined_with_commas() {
    assert_eq!(join_tags(&strings(&["test", "sample"])), "test,sample");
    assert_eq!(join_tags(&strings(&["tag1", "tag2"])), "tag1,tag2");
    assert_eq!(join_tags(&[]), "");
}

#[test]
fn tags_column_is_split_and_trimmed() {
    assert_eq!(parse_tags("test,sample"), strings(&["test", "sample"]));
    assert_eq!(parse_tags(" a , b ,c"), strings(&["a", "b", "c"]));
    assert_eq!(parse_tags(""), Vec::<String>::new());
    assert_eq!(parse_tags("   "), Vec::<String>::new());
    assert_eq!(parse_tags("a,,b"), strings(&["a", "", "b"]));
    assert_eq!(parse_tags(","), strings(&["", ""]));
}

#[test]
fn tags_read_back_as_written() {
    for tags in [
        strings(&[]),
        strings(&["Target"]),
        strings(&["business trip", "fruit"]),
        strings(&["", "x", ""]),
    ] {
        assert_eq!(parse_tags(&join_tags(&tags)), tags);
    }
    // A lone empty tag is stored as an empty column, which reads back as no tags.
    assert_eq!(parse_tags(&join_tags(&strings(&[""]))), Vec::<String>::new());
}

#[test]
fn sentence_from_row_reads_tags() {
    let row = SentenceRow {
        id: "id-1".to_string(),
        original_text: "First".to_string(),
        translated_text: "一つ目".to_string(),
        source_context: Some("Context".to_string()),
        tags: "tag1, tag2".to_string(),
        created_at: 1_000,
    };
    let s = Sentence::from_row(row);
    assert_eq!(s.id, "id-1");
    assert_eq!(s.original_text, "First");
    assert_eq!(s.translated_text, "一つ目");
    assert_eq!(s.source_context.as_deref(), Some("Context"));
    assert_eq!(s.tags, strings(&["tag1", "tag2"]));
    assert_eq!(s.created_at, 1_000);
}

#[test]
fn new_record_has_a_uuid_and_the_given_fields() {
    let tags = strings(&["test", "sample"]);
    let s = new_sentence_record("This is a test.", "これはテストです。", Some("Google Chrome"), &tags);
    assert_eq!(s.id.len(), 36); // UUID string length
    assert_eq!(s.id.chars().nth(14), Some('4'));
    assert_eq!(s.tags.len(), 2);
    assert_eq!(s.tags, tags);
    assert_eq!(s.original_text, "This is a test.");
    assert_eq!(s.translated_text, "これはテストです。");
    assert_eq!(s.source_context.as_deref(), Some("Google Chrome"));
    let other = new_sentence_record("x", "y", None, &[]);
    assert_ne!(s.id, other.id);
    assert_eq!(other.source_context, None);
}

#[test]
fn bulk_insert_chunks_cover_all_sentences() {
    assert_eq!(chunk_ranges(0), vec![]);
    assert_eq!(chunk_ranges(5), vec![(0, 5)]);
    assert_eq!(chunk_ranges(100), vec![(0, 100)]);
    assert_eq!(chunk_ranges(250), vec![(0, 100), (100, 200), (200, 250)]);
    assert_eq!(BULK_INSERT_CHUNK_SIZE, 100);
}

#[test]
fn unchanged_row_means_not_found() {
    assert_eq!(require_changed_row(0), Err(DbFailure::RowNotFound));
    assert_eq!(require_changed_row(1), Ok(()));
}

#[test]
fn query_split_at_a_space_joins_the_parts() {
    for (a, b) in [
        ("apple", "tag:fruit"),
        ("\"red delicious\"", "pie"),
        ("tag:", "banana"),
        ("kiwi", "tag:"),
        ("", ""),
    ] {
        let whole = build_fts_query(&format!("{} {}", a, b));
        let parts: Vec<String> = [build_fts_query(a), build_fts_query(b)]
            .into_iter()
            .filter(|x| !x.is_empty())
            .collect();
        assert_eq!(whole, parts.join(" AND "));
    }
}
