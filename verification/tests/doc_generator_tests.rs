use heirloom_backend::doc_generator::{
    attach_examples, extract_examples, generate, parse_module, render_markdown, DocItem,
    ItemKind, ParamDoc,
};

const SOURCE: &str = r#"
//! Feature flag evaluation.
//! Supports percentage rollouts.

use std::sync::Arc;

/// A single flag definition.
#[derive(Debug, Clone)]
pub struct Flag {
    pub key: String,
}

/// Evaluate a flag for one subject.
/// Returns false when the flag is unknown.
#[allow(dead_code)]
pub async fn evaluate_flag(
    state: Arc<FlagState>,
    key: &str,
    rollout: u8,
) -> Result<bool, Error> {
    Ok(true)
}

fn private_helper(x: u8) -> u8 {
    x
}
"#;

const TEST_SOURCE: &str = r#"
#[cfg(test)]
mod tests {
    #[test]
    fn test_evaluate_flag_returns_true() {
        let state = Arc::new(FlagState::default());
        assert!(evaluate_flag(state, "beta", 100).await.unwrap());
    }

    #[tokio::test]
    async fn test_unrelated_thing() {
        assert_eq!(1, 1);
    }
}
"#;

#[test]
fn parse_module_captures_module_summary() {
    let doc = parse_module("feature_flags", SOURCE);
    assert_eq!(
        doc.summary,
        vec![
            "Feature flag evaluation.".to_string(),
            "Supports percentage rollouts.".to_string()
        ]
    );
}

#[test]
fn parse_module_skips_private_items() {
    let doc = parse_module("feature_flags", SOURCE);
    let names: Vec<&str> = doc.items.iter().map(|i| i.name.as_str()).collect();
    assert_eq!(names, vec!["Flag", "evaluate_flag"]);
}

#[test]
fn parse_module_extracts_signature_across_lines() {
    let doc = parse_module("feature_flags", SOURCE);
    let item = doc.items.iter().find(|i| i.name == "evaluate_flag").unwrap();
    assert_eq!(
        item.signature,
        "pub async fn evaluate_flag( state: Arc<FlagState>, key: &str, rollout: u8, ) -> Result<bool, Error>"
    );
    assert_eq!(item.kind, ItemKind::Function);
}

#[test]
fn parse_module_extracts_params_and_return() {
    let doc = parse_module("feature_flags", SOURCE);
    let item = doc.items.iter().find(|i| i.name == "evaluate_flag").unwrap();
    assert_eq!(
        item.params,
        vec![
            ParamDoc {
                name: "state".into(),
                ty: "Arc<FlagState>".into()
            },
            ParamDoc {
                name: "key".into(),
                ty: "&str".into()
            },
            ParamDoc {
                name: "rollout".into(),
                ty: "u8".into()
            },
        ]
    );
    assert_eq!(item.returns.as_deref(), Some("Result<bool, Error>"));
}

#[test]
fn parse_module_keeps_doc_comments_through_attributes() {
    let doc = parse_module("feature_flags", SOURCE);
    let item = doc.items.iter().find(|i| i.name == "evaluate_flag").unwrap();
    assert_eq!(
        item.doc,
        vec![
            "Evaluate a flag for one subject.".to_string(),
            "Returns false when the flag is unknown.".to_string()
        ]
    );
}

#[test]
fn struct_items_carry_no_params() {
    let doc = parse_module("feature_flags", SOURCE);
    let item = doc.items.iter().find(|i| i.name == "Flag").unwrap();
    assert_eq!(item.kind, ItemKind::Struct);
    assert!(item.params.is_empty());
    assert!(item.returns.is_none());
}

#[test]
fn extract_examples_reads_both_test_flavors() {
    let examples = extract_examples(TEST_SOURCE);
    let names: Vec<&str> = examples.iter().map(|e| e.name.as_str()).collect();
    assert_eq!(
        names,
        vec!["test_evaluate_flag_returns_true", "test_unrelated_thing"]
    );
    assert!(examples[0].code.starts_with("let state ="));
    assert!(examples[0].code.contains("assert!(evaluate_flag"));
}

#[test]
fn attach_examples_matches_by_item_name() {
    let mut doc = parse_module("feature_flags", SOURCE);
    let examples = extract_examples(TEST_SOURCE);
    attach_examples(&mut doc, &examples);

    let item = doc.items.iter().find(|i| i.name == "evaluate_flag").unwrap();
    assert_eq!(item.examples.len(), 1);
    assert_eq!(item.examples[0].name, "test_evaluate_flag_returns_true");

    let flag = doc.items.iter().find(|i| i.name == "Flag").unwrap();
    assert!(flag.examples.is_empty());
}

#[test]
fn generate_renders_full_markdown() {
    let markdown = generate("feature_flags", SOURCE, Some(TEST_SOURCE));
    assert!(markdown.starts_with("# Module `feature_flags`"));
    assert!(markdown.contains("## `fn evaluate_flag`"));
    assert!(markdown.contains("- `rollout`: `u8`"));
    assert!(markdown.contains("**Returns**: `Result<bool, Error>`"));
    assert!(markdown.contains("**Example** (from `test_evaluate_flag_returns_true`)"));
}

#[test]
fn generate_without_tests_omits_examples() {
    let markdown = generate("feature_flags", SOURCE, None);
    assert!(!markdown.contains("**Example**"));
}

#[test]
fn receivers_and_patterns_are_no_parameters() {
    let source = "pub fn handle(&mut self, State(s): State<Arc<S>>, mut n: u8, m: HashMap<K, V>) -> bool {\n}\n\
                  pub fn run(self: Arc<Self>, other: Myself) {\n}\n";
    let doc = parse_module("m", source);
    let names: Vec<&str> = doc.items[0].params.iter().map(|p| p.name.as_str()).collect();
    assert_eq!(names, vec!["mut n", "m"]);
    assert_eq!(doc.items[0].params[1].ty, "HashMap<K, V>");
    let others: Vec<&str> = doc.items[1].params.iter().map(|p| p.name.as_str()).collect();
    assert_eq!(others, vec!["other"]);
}

#[test]
fn every_kind_of_item_is_read() {
    let source = "pub enum E {\n}\npub trait T {\n}\npub type A = u8;\npub(crate) fn hidden() {}\n";
    let doc = parse_module("m", source);
    let kinds: Vec<ItemKind> = doc.items.iter().map(|i| i.kind).collect();
    assert_eq!(kinds, vec![ItemKind::Enum, ItemKind::Trait, ItemKind::TypeAlias]);
    assert_eq!(doc.items[2].signature, "pub type A = u8");
    assert_eq!(ItemKind::TypeAlias.label(), "type");
}

#[test]
fn a_body_keeps_its_nested_blocks() {
    let tests = "#[test]\nfn looped() {\n    for x in y {\n        f(x);\n    }\n}\n";
    let examples = extract_examples(tests);
    assert_eq!(examples[0].code, "for x in y {\n    f(x);\n}");
}

#[test]
fn a_document_is_rendered_exactly() {
    let doc = parse_module("m", "//! Sum.\r\n\r\n/// One.\r\npub fn f(a: u8) -> u8 where u8: Copy {\r\n}\r\n");
    assert_eq!(
        render_markdown(&doc),
        "# Module `m`\n\nSum.\n\n## `fn f`\n\n```rust\npub fn f(a: u8) -> u8 where u8: Copy\n```\n\nOne.\n\n**Parameters**\n\n- `a`: `u8`\n\n**Returns**: `u8`\n"
    );
}

#[test]
fn names_may_hold_letters_of_any_script() {
    let doc = parse_module("m", "pub struct Gr\u{f6}\u{df}e9_x<T> {\n}\n");
    assert_eq!(doc.items[0].name, "Gr\u{f6}\u{df}e9_x");
}

fn only_item(source: &str) -> DocItem {
    let mut doc = parse_module("m", source);
    assert_eq!(doc.items.len(), 1);
    doc.items.remove(0)
}

#[test]
fn struct_patterns_are_no_parameters() {
    let item = only_item("pub fn f(Foo { a, b }: Foo, x: u8, &y: &u8) -> u8 {\n}\n");
    let names: Vec<&str> = item.params.iter().map(|p| p.name.as_str()).collect();
    assert_eq!(names, vec!["x"]);
    assert_eq!(item.returns.as_deref(), Some("u8"));
}

#[test]
fn an_arrow_among_the_parameters_is_no_return_type() {
    let item = only_item("pub fn f(g: impl Fn(u8) -> u8, n: u8) {\n}\n");
    assert_eq!(item.returns, None);
    assert_eq!(item.params.len(), 2);
    assert_eq!(item.params[0].ty, "impl Fn(u8) -> u8");
    let item = only_item("pub fn f<G: Fn(u8) -> u8, H: Fn() -> u8>(g: G, h: H) -> bool {\n}\n");
    assert_eq!(item.params.len(), 2);
    assert_eq!(item.returns.as_deref(), Some("bool"));
    let item = only_item("pub fn f<G>(g: G) where G: Fn() -> u8 {\n}\n");
    assert_eq!(item.returns, None);
    let item = only_item("pub fn f() -> impl Fn(u8) -> u8 {\n}\n");
    assert_eq!(item.returns.as_deref(), Some("impl Fn(u8) -> u8"));
}

#[test]
fn indentation_is_counted_in_bytes() {
    let source = "#[test]\nfn t() {\n\u{3000}one();\n     two();\n}\n";
    let examples = extract_examples(source);
    assert_eq!(examples[0].code, "one();\n  two();");
}
