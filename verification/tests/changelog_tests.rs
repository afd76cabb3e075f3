use git_me::changelog::{
    aggregate, aggregate_path, contains_something, edit_plan, formatted, matches_prefix, merge_work,
    resolve, validate, Changelog, Section, Work,
};
use git_me::error::Error;

fn section(title: &str, lines: &[&str]) -> Section {
    Section {
        title: title.to_string(),
        lines: lines.iter().map(|l| l.to_string()).collect(),
    }
}

fn doc(artists: Vec<Section>, technical: Vec<Section>) -> Changelog {
    Changelog { artists: Work { sections: artists }, technical: Work { sections: technical } }
}

#[test]
fn stub_contains_no_entries() {
    let d = Changelog::new();
    assert!(!d.contains_entries());
    assert!(d.is_stub());
    assert!(!d.is_empty());
}

#[test]
fn stub_then_validate_is_false_and_message_then_validate_is_true() {
    let stub = Changelog::new();
    assert_eq!(validate("General:\n- ''\n", &stub).unwrap(), false);
    let seeded = Changelog::with_message("did a thing");
    assert_eq!(validate("General:\n- did a thing\n", &seeded).unwrap(), true);
}

#[test]
fn with_message_shape() {
    let d = Changelog::with_message("did a thing");
    assert_eq!(d.artists.sections.len(), 1);
    assert_eq!(d.artists.sections[0].title, "General");
    assert_eq!(d.artists.sections[0].lines, vec!["did a thing".to_string()]);
    assert_eq!(d.technical.sections.len(), 0);
    assert!(d.contains_entries());
    assert!(!d.is_stub());
}

#[test]
fn whitespace_only_document_has_no_entries() {
    let d = doc(vec![section("General", &[" \t ", ""])], vec![]);
    assert!(!d.contains_entries());
}

#[test]
fn contains_something_needs_one_non_whitespace_character() {
    assert!(contains_something(&vec!["  a ".to_string()]));
    assert!(!contains_something(&vec!["   ".to_string(), "".to_string()]));
    assert!(!contains_something(&Vec::new()));
}

#[test]
fn validate_rejects_tabs_whatever_else_is_there() {
    let full = doc(vec![section("General", &["real content"])], vec![]);
    assert!(matches!(validate("a\tb", &full), Err(Error::Validation)));
    assert!(matches!(validate("\t", &Changelog::new()), Err(Error::Validation)));
}

#[test]
fn validate_rejects_non_ascii() {
    let full = doc(vec![section("General", &["real content"])], vec![]);
    assert!(matches!(validate("caf\u{e9}", &full), Err(Error::Validation)));
}

#[test]
fn validate_accepts_plain_ascii() {
    let full = doc(vec![section("General", &["real content"])], vec![]);
    assert_eq!(validate("General:\n- real content\n", &full).unwrap(), true);
}

#[test]
fn merge_keys_sections_by_title_case() {
    // Sections titled "bugfix" and "Bugfix" from two files end in one
    // section keyed "Bugfix", lines concatenated in processing order.
    let mut agg = Changelog::empty();
    let first = doc(vec![section("bugfix", &["fix A"])], vec![]);
    let second = doc(vec![section("Bugfix", &["fix B"])], vec![]);
    merge_work(&mut agg.artists, &first.artists);
    merge_work(&mut agg.artists, &second.artists);
    assert_eq!(agg.artists.sections.len(), 1);
    assert_eq!(agg.artists.sections[0].title, "Bugfix");
    assert_eq!(
        agg.artists.sections[0].lines,
        vec!["fix A".to_string(), "fix B".to_string()]
    );
}

#[test]
fn merge_drops_whitespace_only_sections() {
    let mut agg = Work { sections: Vec::new() };
    let noise = Work { sections: vec![section("Empty", &["  ", ""])] };
    merge_work(&mut agg, &noise);
    assert_eq!(agg.sections.len(), 0);
}

#[test]
fn aggregate_never_duplicates_a_title() {
    let docs = vec![
        doc(vec![section("general", &["a"])], vec![]),
        doc(vec![section("General", &["b"])], vec![]),
        doc(vec![section("GENERAL", &["c"])], vec![]),
    ];
    let agg = aggregate(&docs);
    assert_eq!(agg.artists.sections.len(), 1);
    assert_eq!(agg.artists.sections[0].title, "General");
    assert_eq!(
        agg.artists.sections[0].lines,
        vec!["a".to_string(), "b".to_string(), "c".to_string()]
    );
}

#[test]
fn aggregate_of_stubs_only_is_empty() {
    let docs = vec![Changelog::new(), Changelog::new(), Changelog::new()];
    let agg = aggregate(&docs);
    assert_eq!(agg.artists.sections.len(), 0);
    assert_eq!(agg.technical.sections.len(), 0);
    assert!(agg.is_empty());
}

#[test]
fn aggregate_end_to_end() {
    // feature/a then feature/b, lexicographic order.
    let a = doc(vec![section("General", &["fix X"])], vec![]);
    let b = doc(vec![], vec![section("General", &["refactor Y"])]);
    let agg = aggregate(&vec![a, b]);
    assert_eq!(agg.artists.sections.len(), 1);
    assert_eq!(agg.artists.sections[0].title, "General");
    assert_eq!(agg.artists.sections[0].lines, vec!["fix X".to_string()]);
    assert_eq!(agg.technical.sections.len(), 1);
    assert_eq!(agg.technical.sections[0].title, "General");
    assert_eq!(agg.technical.sections[0].lines, vec!["refactor Y".to_string()]);
}

#[test]
fn aggregate_skips_stubs_but_keeps_edited_documents() {
    let edited = doc(vec![section("General", &["fix X"])], vec![]);
    let agg = aggregate(&vec![Changelog::new(), edited]);
    assert_eq!(agg.artists.sections.len(), 1);
    assert_eq!(agg.artists.sections[0].lines, vec!["fix X".to_string()]);
    assert_eq!(agg.technical.sections.len(), 0);
}

#[test]
fn formatted_renders_visible_sections() {
    let d = doc(
        vec![section("General", &["fix X", "fix Z"])],
        vec![section("Hidden", &["", "never shown"])],
    );
    assert_eq!(
        formatted(&d),
        "## Artists\n### General\n\n- fix X\n\n- fix Z\n\n## Technical\n"
    );
}

#[test]
fn formatted_of_empty_document_is_headings_only() {
    let d = Changelog::empty();
    assert_eq!(formatted(&d), "## Artists\n## Technical\n");
}

#[test]
fn resolve_places_documents_under_the_changelog_root() {
    assert_eq!(resolve("mybranch", None), "changelog/mybranch.yml");
    assert_eq!(resolve("feature/a", None), "changelog/feature/a.yml");
    assert_eq!(resolve("feature/a", Some("/repo")), "/repo/changelog/feature/a.yml");
}

#[test]
fn resolve_replaces_an_existing_extension() {
    assert_eq!(resolve("1.0.e", None), "changelog/1.0.yml");
    assert_eq!(resolve("name.txt", Some("r")), "r/changelog/name.yml");
    assert_eq!(resolve(".hidden", None), "changelog/.hidden.yml");
}

#[test]
fn aggregate_path_derives_from_the_tag() {
    assert_eq!(aggregate_path("1.0"), "changelog/1.0.yml");
    assert_eq!(aggregate_path("v2"), "changelog/v2.yml");
}

#[test]
fn matches_prefix_tests_each_prefix() {
    let prefixes = vec!["feature".to_string(), "hotfix".to_string()];
    assert!(matches_prefix("feature/a.yml", &prefixes));
    assert!(matches_prefix("hotfix/b.yml", &prefixes));
    assert!(!matches_prefix("release/c.yml", &prefixes));
    assert!(!matches_prefix("", &prefixes));
}

#[test]
fn edit_plan_decides_the_session() {
    let p = edit_plan("feature/x", false, true, None);
    assert!(p.create_stub);
    assert!(p.seed_message.is_none());
    assert_eq!(p.commit_message.unwrap(), "update changelog for feature/x");

    let p = edit_plan("feature/x", true, false, Some("msg".to_string()));
    assert!(!p.create_stub);
    assert_eq!(p.seed_message.unwrap(), "msg");
    assert!(p.commit_message.is_none());
}
