use srp_portal::models::{AuthRequest, User};
use srp_portal::notes::{fts_match_term, SearchQuery};
use srp_portal::surveys::{get_hub_status, get_section_questions};

#[test]
fn search_terms_escape_quotes_and_append_a_star() {
    let q = SearchQuery { q: Some("hello".to_string()) };
    assert_eq!(fts_match_term(&q), Some("hello*".to_string()));

    let quoted = SearchQuery { q: Some("say \"hi\" now".to_string()) };
    assert_eq!(fts_match_term(&quoted), Some("say \"\"hi\"\" now*".to_string()));
}

#[test]
fn blank_searches_produce_no_term() {
    assert_eq!(fts_match_term(&SearchQuery { q: None }), None);
    assert_eq!(fts_match_term(&SearchQuery { q: Some("".to_string()) }), None);
    assert_eq!(fts_match_term(&SearchQuery { q: Some("  \t ".to_string()) }), None);
}

#[test]
fn bare_land_hides_interior_and_elevator() {
    let hub = get_hub_status("Bare Land");
    assert_eq!(hub.overall_progress, 33);
    assert_eq!(hub.sections.len(), 10);
    assert!(hub.sections.iter().all(|s| s.is_applicable));
    assert!(!hub.sections.iter().any(|s| s.id == "interior"));
    assert!(!hub.sections.iter().any(|s| s.id == "elevator"));
}

#[test]
fn other_property_types_see_the_full_hub() {
    let hub = get_hub_status("Apartment");
    assert_eq!(hub.sections.len(), 12);
    assert!(hub.sections.iter().any(|s| s.id == "interior"));
    assert!(hub.sections.iter().any(|s| s.id == "elevator"));
    assert_eq!(hub.sections[0].id, "docs");
    assert_eq!(hub.sections[0].title, "Mandatory Documents");
    assert_eq!(hub.sections[0].progress, 45);
    assert_eq!(hub.sections[0].tags, vec!["Critical".to_string(), "Documents".to_string()]);
    assert_eq!(hub.sections[0].href, Some("/client/documents".to_string()));
    assert_eq!(hub.sections[10].id, "contacts");
    assert_eq!(hub.sections[10].progress, 80);
    assert_eq!(hub.sections[11].id, "inspection");
}

#[test]
fn only_the_exterior_section_has_questions() {
    let qs = get_section_questions("exterior");
    assert_eq!(qs.len(), 3);
    assert_eq!(qs[0].id, "ext-1");
    assert_eq!(qs[0].question_type, "boolean");
    assert!(qs[0].is_mandatory);
    assert_eq!(qs[1].id, "ext-2");
    assert_eq!(qs[1].depends_on_question_id, Some("ext-1".to_string()));
    assert_eq!(qs[1].depends_on_value, Some("true".to_string()));
    assert_eq!(qs[2].id, "ext-3");
    assert_eq!(qs[0].question_text, "Has the roof been replaced since the last report?");
    assert_eq!(qs[1].help_text, Some("Enter 4-digit year".to_string()));

    assert!(get_section_questions("interior").is_empty());
    assert!(get_section_questions("docs").is_empty());
}

#[test]
fn model_records_hold_their_fields() {
    let request = AuthRequest { email: "a@b.c".to_string(), password: "pw".to_string() };
    assert_eq!(request.email, "a@b.c");
    let user = User {
        id: "user-1".to_string(),
        name: "John Doe".to_string(),
        email: "john.doe@strata.com".to_string(),
        role: "client".to_string(),
        strata_id: Some("strata-1".to_string()),
        position: None,
        phone: None,
        cell_phone: None,
        must_change_password: false,
        created_at: "2024-03-01T10:00:00Z".to_string(),
    };
    assert_eq!(user.role, "client");
    assert!(!user.must_change_password);
}

#[test]
fn a_lone_quote_is_doubled() {
    let q = SearchQuery { q: Some("\"".to_string()) };
    assert_eq!(fts_match_term(&q), Some("\"\"*".to_string()));
}

#[test]
fn unicode_blank_searches_produce_no_term() {
    assert_eq!(fts_match_term(&SearchQuery { q: Some("\u{00A0}\u{2003}".to_string()) }), None);
}
