use operon_gui::main_content::assistant_messages::markdown::{
    parse_markdown_sendable, parse_markdown_streaming_sendable,
};

#[test]
fn parses_inline_code_as_styled_markdown_payload() {
    let items = parse_markdown_sendable("Use `cargo check` before merging.");

    assert_eq!(items.len(), 1);
    assert_eq!(items[0].kind, "p");
    assert_eq!(items[0].text, "Use cargo check before merging.");
    assert!(items[0].inline_markdown.contains("`cargo check`"));
    assert!(items[0]
        .inline_spans
        .iter()
        .any(|span| span.kind == "code" && span.text == "cargo check"));
}

#[test]
fn parses_gfm_table_blocks_with_alignment() {
    let md = "| Name | Score |\n| :--- | ---: |\n| Alice | 42 |\n| Bob | `7` |";
    let items = parse_markdown_sendable(md);

    assert_eq!(items.len(), 1);
    assert_eq!(items[0].kind, "table");
    assert_eq!(items[0].table_headers.len(), 2);
    assert_eq!(items[0].table_headers[0].alignment, "left");
    assert_eq!(items[0].table_headers[1].alignment, "right");
    assert_eq!(items[0].table_rows.len(), 2);
    assert!(items[0].table_rows[1].cells[1]
        .inline_markdown
        .contains('`'));
    assert!(items[0].table_rows[1].cells[1]
        .inline_spans
        .iter()
        .any(|span| span.kind == "code" && span.text == "7"));
    assert_eq!(items[0].table_headers[0].text, "Name");
}

#[test]
fn parses_display_math_blocks() {
    let items = parse_markdown_sendable("Before\n\n$$E=mc^2$$\n\nAfter");

    assert_eq!(items.len(), 3);
    assert_eq!(items[1].kind, "math");
    assert_eq!(items[1].text, "E=mc^2");
    assert!(items[1].math_display);
}

#[test]
fn parses_bracket_display_math_blocks() {
    let items = parse_markdown_sendable("\\[a^2 + b^2 = c^2\\]");

    assert_eq!(items.len(), 1);
    assert_eq!(items[0].kind, "math");
    assert_eq!(items[0].text, "a^2 + b^2 = c^2");
}

#[test]
fn parses_mermaid_code_blocks_into_diagram_model() {
    let md = "```mermaid\ngraph TD\nA[Start] --> B{Check}\nB -->|yes| C[Done]\n```";
    let items = parse_markdown_sendable(md);

    assert_eq!(items.len(), 1);
    assert_eq!(items[0].kind, "mermaid");
    assert_eq!(items[0].mermaid_nodes.len(), 3);
    assert_eq!(items[0].mermaid_edges.len(), 2);
    assert!(items[0].mermaid_width_px > 0);
    assert!(items[0].mermaid_height_px > 0);
}

#[test]
fn parses_svg_code_blocks_as_svg_items() {
    let md = "```svg\n<svg width=\"40\" height=\"20\"><rect width=\"40\" height=\"20\" /></svg>\n```";
    let items = parse_markdown_sendable(md);

    assert_eq!(items.len(), 1);
    assert_eq!(items[0].kind, "svg");
    assert_eq!(items[0].lang, "svg");
    assert!(items[0].text.contains("<svg"));
}

#[test]
fn parses_raw_svg_html_as_svg_items() {
    let md = "<svg width=\"40\" height=\"20\"><rect width=\"40\" height=\"20\" /></svg>";
    let items = parse_markdown_sendable(md);

    assert_eq!(items.len(), 1);
    assert_eq!(items[0].kind, "svg");
    assert!(items[0].text.starts_with("<svg"));
}

#[test]
fn empty_message_is_one_empty_paragraph() {
    let items = parse_markdown_sendable("");
    assert_eq!(items.len(), 1);
    assert_eq!(items[0].kind, "p");
    assert_eq!(items[0].text, "");
}

#[test]
fn headings_map_levels_to_three_kinds() {
    let items = parse_markdown_sendable("# One\n\n## Two\n\n#### Four");
    let kinds: Vec<&str> = items.iter().map(|i| i.kind.as_str()).collect();
    assert_eq!(kinds, vec!["h1", "h2", "h3"]);
    assert_eq!(items[2].text, "Four");
}

#[test]
fn list_items_and_quotes_become_bullets_and_quotes() {
    let items = parse_markdown_sendable("- first\n- second\n\n> quoted text");
    assert_eq!(items.len(), 3);
    assert_eq!(items[0].kind, "bullet");
    assert_eq!(items[0].text, "first");
    assert_eq!(items[1].text, "second");
    assert_eq!(items[2].kind, "quote");
    assert_eq!(items[2].text, "quoted text");
}

#[test]
fn task_list_markers_are_written_out() {
    let items = parse_markdown_sendable("- [x] done\n- [ ] todo");
    assert_eq!(items[0].text, "[x] done");
    assert_eq!(items[1].text, "[ ] todo");
}

#[test]
fn rules_split_paragraphs() {
    let items = parse_markdown_sendable("above\n\n---\n\nbelow");
    let kinds: Vec<&str> = items.iter().map(|i| i.kind.as_str()).collect();
    assert_eq!(kinds, vec!["p", "rule", "p"]);
}

#[test]
fn emphasis_and_links_are_styled_spans() {
    let items = parse_markdown_sendable("a **bold** and *it* [link](http://x.y)");
    assert_eq!(items.len(), 1);
    let spans = &items[0].inline_spans;
    assert!(spans.iter().any(|s| s.text.trim() == "bold" && s.bold));
    assert!(spans.iter().any(|s| s.text.trim() == "it" && s.italic));
    assert!(spans.iter().any(|s| s.text.trim() == "link" && s.link == "http://x.y"));
    assert!(items[0].inline_markdown.contains("**bold**"));
    assert!(items[0].inline_markdown.contains("[link](http://x.y)"));
}

#[test]
fn inline_math_keeps_dollar_signs_in_text() {
    let items = parse_markdown_sendable("mass \\(m\\) here");
    assert_eq!(items.len(), 1);
    assert_eq!(items[0].text, "mass $m$ here");
    assert!(items[0].inline_spans.iter().any(|s| s.kind == "math" && s.text == "m"));
}

#[test]
fn code_blocks_keep_text_and_language() {
    let items = parse_markdown_sendable("```rust\nfn main() {}\n```");
    assert_eq!(items.len(), 1);
    assert_eq!(items[0].kind, "code");
    assert_eq!(items[0].lang, "rust");
    assert_eq!(items[0].text, "fn main() {}\n");
    assert!(!items[0].code_lines.is_empty());
    for line in &items[0].code_lines {
        for token in &line.tokens {
            assert!(!token.text.ends_with('\n'));
        }
    }
}

#[test]
fn streaming_parse_skips_highlighting() {
    let items = parse_markdown_streaming_sendable("```rust\nfn main() {}\n```");
    assert_eq!(items[0].kind, "code");
    assert!(items[0].code_lines.is_empty());
}

#[test]
fn standalone_svg_documents_with_xml_declaration_are_one_item() {
    let md = "<?xml version=\"1.0\"?>\n<svg><circle r=\"1\"/></svg>\n";
    let items = parse_markdown_sendable(md);
    assert_eq!(items.len(), 1);
    assert_eq!(items[0].kind, "svg");
    assert_eq!(items[0].lang, "svg");
    assert_eq!(items[0].text, "<?xml version=\"1.0\"?>\n<svg><circle r=\"1\"/></svg>");
}

#[test]
fn mermaid_layout_places_layers_down_the_page() {
    let md = "```mermaid\ngraph TD\nA-->B\nA-->C\n```";
    let items = parse_markdown_sendable(md);
    let nodes = &items[0].mermaid_nodes;
    assert_eq!(nodes.len(), 3);
    assert_eq!((nodes[0].x, nodes[0].y), (24, 24));
    assert_eq!((nodes[1].x, nodes[1].y), (24, 110));
    assert_eq!((nodes[2].x, nodes[2].y), (204, 110));
    assert_eq!(nodes[0].width_px, 96);
    let edges = &items[0].mermaid_edges;
    assert_eq!(edges[0].path, "M 72 64 L 72 110");
    assert_eq!(edges[0].arrow_path, "M 72 110 L 68 103 L 76 103 Z");
    assert_eq!(items[0].mermaid_width_px, 324);
    assert_eq!(items[0].mermaid_height_px, 174);
}

#[test]
fn mermaid_left_to_right_layout_and_labels() {
    let md = "```mermaid\nflowchart lr\nX[Start here] -->|go| Y\n```";
    let items = parse_markdown_sendable(md);
    let nodes = &items[0].mermaid_nodes;
    assert_eq!(nodes[0].label, "Start here");
    assert_eq!(nodes[1].label, "Y");
    assert_eq!((nodes[0].x, nodes[0].y), (24, 24));
    assert_eq!((nodes[1].x, nodes[1].y), (204, 24));
    assert_eq!(nodes[0].width_px, 114);
    assert_eq!(items[0].mermaid_edges[0].label, "go");
    assert_eq!(items[0].mermaid_edges[0].path, "M 138 44 L 204 44");
}
