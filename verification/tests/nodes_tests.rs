use fast_i18n_scan::nodes::{nodes_to_string_simple, process_text_value, AstNode, ObjectProperty, TemplateElement};
use fast_i18n_scan::remove_key::collect_removal_outcomes;

#[test]
fn test_jsx_text_processing() {
    let nodes = vec![AstNode::jsx_text("  \n  Hello World  \n  ".to_string())];
    let result = nodes_to_string_simple(&nodes, "test.tsx");
    assert_eq!(result, "Hello World");
}

#[test]
fn test_string_literal() {
    let nodes = vec![AstNode::string_literal("Hello".to_string())];
    let result = nodes_to_string_simple(&nodes, "test.tsx");
    assert_eq!(result, "Hello");
}

#[test]
fn test_numeric_literal_ignored() {
    let expression = AstNode::numeric_literal();
    let nodes = vec![AstNode::jsx_expression_container(expression)];
    let result = nodes_to_string_simple(&nodes, "test.tsx");
    assert_eq!(result, "");
}

#[test]
fn test_object_expression_interpolation() {
    let property = ObjectProperty::new("name".to_string(), AstNode::string_literal("value".to_string()));
    let expression = AstNode::object_expression(vec![property]);
    let nodes = vec![AstNode::jsx_expression_container(expression)];
    let result = nodes_to_string_simple(&nodes, "test.tsx");
    assert_eq!(result, "{{name}}");
}

#[test]
fn test_template_literal() {
    let quasis = vec![
        TemplateElement::new("Hello ".to_string()),
        TemplateElement::new("World".to_string()),
    ];
    let expression = AstNode::template_literal(quasis);
    let nodes = vec![AstNode::jsx_expression_container(expression)];
    let result = nodes_to_string_simple(&nodes, "test.tsx");
    assert_eq!(result, "Hello World");
}

#[test]
fn test_jsx_element_with_children() {
    let children = vec![AstNode::jsx_text("Child content".to_string())];
    let nodes = vec![AstNode::jsx_element(children)];
    let result = nodes_to_string_simple(&nodes, "test.tsx");
    assert_eq!(result, "<0>Child content</0>");
}

#[test]
fn test_complex_structure() {
    let nodes = vec![
        AstNode::jsx_text("Hello ".to_string()),
        AstNode::jsx_expression_container(AstNode::object_expression(vec![
            ObjectProperty::new("name".to_string(), AstNode::string_literal("value".to_string())),
        ])),
        AstNode::jsx_text(" World".to_string()),
    ];
    let result = nodes_to_string_simple(&nodes, "test.tsx");
    assert_eq!(result, "Hello{{name}}World");
}

#[test]
fn test_process_text_value() {
    assert_eq!(process_text_value("  \n  Hello World  \n  "), "Hello World");
    assert_eq!(process_text_value("Hello\n  World"), "Hello World");
    assert_eq!(process_text_value("\n\nHello\n\n"), "Hello");
}

#[test]
fn test_node_accessors() {
    let t = AstNode::jsx_text("x".to_string());
    assert!(t.is_jsx_text());
    assert!(!t.is_string_literal());
    assert_eq!(t.get_value(), Some(&"x".to_string()));
    let e = AstNode::jsx_element(vec![]);
    assert!(e.get_children().is_some());
    assert!(e.get_value().is_none());
    assert_eq!(t.get_location().line, 1);
}

#[test]
fn test_second_child_element_numbered() {
    let nodes = vec![
        AstNode::jsx_text("A".to_string()),
        AstNode::jsx_element(vec![AstNode::jsx_text("B".to_string())]),
    ];
    let result = nodes_to_string_simple(&nodes, "test.tsx");
    assert_eq!(result, "A<1>B</1>");
}

#[test]
fn test_collect_removal_outcomes() {
    let outcomes = vec![
        ("k1".to_string(), Some(11u32)),
        ("k2".to_string(), None),
        ("k3".to_string(), Some(33u32)),
    ];
    let r = collect_removal_outcomes(&outcomes);
    assert_eq!(r.ids, vec![11, 33]);
    assert_eq!(r.unknowns, vec!["k2".to_string()]);
}
