use slp_client::slp::SlpServerDescription;
use slp_client::text_component::{format_description, TextComponent, TextComponentType};

fn plain_node(text: &str) -> TextComponent {
    TextComponent {
        type_: None,
        extra: None,
        text: text.to_string(),
        color: None,
        bold: None,
        italic: None,
        underlined: None,
        strikethrough: None,
        obfuscated: None,
        font: None,
        insertion: None,
    }
}

#[test]
fn format_plain_text() {
    assert_eq!(plain_node("Hi").format_string(), "Hi");
    assert_eq!(plain_node("").format_string(), "");
}

#[test]
fn format_bold_adds_marker_and_separator() {
    let mut node = plain_node("Hi");
    node.bold = Some(true);
    assert_eq!(node.format_string(), "**Hi**\u{200B}");
}

#[test]
fn format_each_single_style() {
    let mut node = plain_node("x");
    node.italic = Some(true);
    assert_eq!(node.format_string(), "*x*\u{200B}");

    let mut node = plain_node("x");
    node.underlined = Some(true);
    assert_eq!(node.format_string(), "__x__\u{200B}");

    let mut node = plain_node("x");
    node.strikethrough = Some(true);
    assert_eq!(node.format_string(), "~~x~~\u{200B}");

    // A flag that is present but false adds nothing.
    let mut node = plain_node("x");
    node.bold = Some(false);
    assert_eq!(node.format_string(), "x");
}

#[test]
fn format_wrapping_order_is_fixed() {
    // Bold + italic innermost, then underline, then strikethrough.
    let mut node = plain_node("Hi");
    node.bold = Some(true);
    node.italic = Some(true);
    node.underlined = Some(true);
    node.strikethrough = Some(true);
    assert_eq!(node.format_string(), "~~__***Hi***__~~\u{200B}");
}

#[test]
fn format_decorative_fields_change_nothing() {
    let mut node = plain_node("Hi");
    node.color = Some("red".to_string());
    node.font = Some("alt".to_string());
    node.insertion = Some("say hi".to_string());
    node.obfuscated = Some(true);
    assert_eq!(node.format_string(), "Hi");
}

#[test]
fn format_appends_children_in_order() {
    // An italic child, then a bare string child, after the parent's text.
    let mut child = plain_node("A");
    child.italic = Some(true);
    let mut parent = plain_node("");
    parent.extra = Some(vec![
        SlpServerDescription::Complex(child),
        SlpServerDescription::Simple("B".to_string()),
    ]);
    assert_eq!(parent.format_string(), "*A*\u{200B}B");
}

#[test]
fn format_styled_parent_with_children() {
    let mut parent = plain_node("Hi");
    parent.bold = Some(true);
    parent.extra = Some(vec![SlpServerDescription::Simple(" there".to_string())]);
    assert_eq!(parent.format_string(), "**Hi**\u{200B} there");
}

#[test]
fn format_translatable_returns_empty() {
    // A non-Text tag suppresses the node entirely, text and children included.
    let mut node = plain_node("ignored");
    node.type_ = Some(TextComponentType::Translatable);
    node.bold = Some(true);
    node.extra = Some(vec![SlpServerDescription::Simple("also ignored".to_string())]);
    assert_eq!(node.format_string(), "");
}

#[test]
fn format_other_non_text_tags_return_empty() {
    for tag in [
        TextComponentType::Keybind,
        TextComponentType::Score,
        TextComponentType::Selector,
        TextComponentType::Nbt,
    ] {
        let mut node = plain_node("ignored");
        node.type_ = Some(tag);
        assert_eq!(node.format_string(), "");
    }
}

#[test]
fn format_explicit_text_tag_renders() {
    let mut node = plain_node("Hi");
    node.type_ = Some(TextComponentType::Text);
    assert_eq!(node.format_string(), "Hi");
}

#[test]
fn format_description_handles_both_forms() {
    let simple = SlpServerDescription::Simple("plain".to_string());
    assert_eq!(format_description(&simple), "plain");
    let mut node = plain_node("deep");
    node.bold = Some(true);
    let complex = SlpServerDescription::Complex(node);
    assert_eq!(format_description(&complex), "**deep**\u{200B}");
}

#[test]
fn format_nested_tree() {
    let mut leaf = plain_node("leaf");
    leaf.underlined = Some(true);
    let mut middle = plain_node("mid ");
    middle.extra = Some(vec![SlpServerDescription::Complex(leaf)]);
    let mut root = plain_node("root ");
    root.extra = Some(vec![
        SlpServerDescription::Complex(middle),
        SlpServerDescription::Simple(" end".to_string()),
    ]);
    assert_eq!(root.format_string(), "root mid __leaf__\u{200B} end");
}
