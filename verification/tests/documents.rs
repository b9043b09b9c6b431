use srp_portal::documents::{
    analysis_system, contains_substr, find_substr, ingestion_system, word_count, AnalysisResult,
    DocumentWorld, ProcessingStatus, RawContent,
};
use srp_portal::kernel::{Entity, EntityRecord, World};

#[test]
fn word_count_collapses_separators() {
    assert_eq!(word_count("a b  c"), 3);
}

#[test]
fn word_count_edges() {
    assert_eq!(word_count(""), 0);
    assert_eq!(word_count("   "), 0);
    assert_eq!(word_count("hello"), 1);
    assert_eq!(word_count("  lead and trail  "), 3);
    assert_eq!(word_count("tabs\tand\nnewlines\rtoo"), 4);
}

#[test]
fn substring_search() {
    assert!(contains_substr("This is the Strata Budget for 2024...", "Strata"));
    assert!(contains_substr("This is the Strata Budget for 2024...", "Budget"));
    assert!(!contains_substr("Minutes of the Annual General Meeting...", "Strata"));
    assert!(contains_substr("abc", ""));
    assert!(!contains_substr("ab", "abc"));
}

#[test]
fn pipeline_completes_every_pending_document() {
    let mut world = DocumentWorld::new();
    world.add_document(
        "doc-1".to_string(),
        "Budget_2024.pdf".to_string(),
        "This is the Strata Budget for 2024...".to_string(),
    );
    world.add_document(
        "doc-2".to_string(),
        "Minutes_AGM.docx".to_string(),
        "Minutes of the Annual General Meeting...".to_string(),
    );
    world.add_document(
        "doc-3".to_string(),
        "Engineering_Report.txt".to_string(),
        "Structural analysis reveals critical failures...".to_string(),
    );
    world.run();
    let results = world.get_results();
    assert_eq!(results.len(), 3);
    for (_, status, _) in &results {
        assert_eq!(*status, ProcessingStatus::Completed);
    }

    let (meta, _, analysis) = &results[0];
    assert_eq!(meta.id, "doc-1");
    assert_eq!(meta.filename, "Budget_2024.pdf");
    assert_eq!(meta.file_type, "pdf");
    assert_eq!(analysis.word_count, 7);
    assert_eq!(analysis.key_entities, vec!["Strata Corp".to_string(), "Financials".to_string()]);
    assert_eq!(analysis.sentiment_score, 85);
    assert_eq!(analysis.summary, "");

    let (_, _, analysis2) = &results[1];
    assert_eq!(analysis2.word_count, 6);
    assert!(analysis2.key_entities.is_empty());

    let (_, _, analysis3) = &results[2];
    assert_eq!(analysis3.word_count, 5);
    assert!(analysis3.key_entities.is_empty());
}

#[test]
fn keyword_extracted_once_despite_repeats() {
    let mut world = DocumentWorld::new();
    world.add_document(
        "doc-r".to_string(),
        "r.pdf".to_string(),
        "Strata Strata Strata everywhere Strata".to_string(),
    );
    world.run();
    let results = world.get_results();
    assert_eq!(results.len(), 1);
    assert_eq!(results[0].2.key_entities, vec!["Strata Corp".to_string()]);
}

#[test]
fn unanalyzed_world_keeps_pending_status() {
    let mut world = DocumentWorld::new();
    world.add_document("doc-x".to_string(), "x.pdf".to_string(), "text".to_string());
    let results = world.get_results();
    assert_eq!(results.len(), 1);
    assert_eq!(results[0].1, ProcessingStatus::Pending);
    assert_eq!(results[0].2.word_count, 0);
}

#[test]
fn keywords_listed_in_first_seen_order() {
    let mut world = DocumentWorld::new();
    world.add_document(
        "doc-o".to_string(),
        "o.pdf".to_string(),
        "Budget first, then Strata".to_string(),
    );
    world.run();
    let results = world.get_results();
    assert_eq!(
        results[0].2.key_entities,
        vec!["Financials".to_string(), "Strata Corp".to_string()]
    );
}

#[test]
fn find_substr_returns_first_positions() {
    assert_eq!(find_substr("Budget then Strata", "Budget"), Some(0));
    assert_eq!(find_substr("Budget then Strata", "Strata"), Some(12));
    assert_eq!(find_substr("aaab", "ab"), Some(2));
    assert_eq!(find_substr("abc", "x"), None);
    assert_eq!(find_substr("abc", ""), Some(0));
}

#[test]
fn unicode_whitespace_separates_words() {
    assert_eq!(word_count("a\u{000B}b\u{000C}c"), 3);
    assert_eq!(word_count("x\u{00A0}y"), 2);
    assert_eq!(word_count("\u{2028}one\u{3000}two\u{2028}"), 2);
}

#[test]
fn malformed_documents_are_marked_failed_without_blocking_others() {
    let mut world = World::new();
    // A pending document whose raw content is missing entirely.
    let mut broken = EntityRecord::empty();
    broken.status = Some(ProcessingStatus::Pending);
    world.spawn(broken);
    // A pending document with raw content but no analysis slot.
    let mut half = EntityRecord::empty();
    half.status = Some(ProcessingStatus::Pending);
    half.raw_content = Some(RawContent("text".to_string()));
    world.spawn(half);
    // A well-formed pending document.
    let mut good = EntityRecord::empty();
    good.status = Some(ProcessingStatus::Pending);
    good.raw_content = Some(RawContent("fine text".to_string()));
    good.analysis = Some(AnalysisResult {
        word_count: 0,
        key_entities: Vec::new(),
        sentiment_score: 0,
        summary: String::new(),
    });
    world.spawn(good);

    ingestion_system(&mut world);
    analysis_system(&mut world);

    assert_eq!(world.record(Entity(0)).status, Some(ProcessingStatus::Failed));
    assert_eq!(world.record(Entity(1)).status, Some(ProcessingStatus::Failed));
    assert_eq!(world.record(Entity(2)).status, Some(ProcessingStatus::Completed));
    assert_eq!(world.record(Entity(2)).analysis.as_ref().unwrap().word_count, 2);
}
