use operon_gui::main_content::block_markdown::{to_slint_elements, TurnElement};
use operon_gui::main_content::markdown::{parse_markdown, BlockKind, MarkdownBlock, ParsedMarkdownItem};

fn kinds(blocks: &[MarkdownBlock]) -> Vec<BlockKind> {
    blocks.iter().map(|b| b.kind).collect()
}

#[test]
fn heading_then_paragraph_with_a_spacer() {
    let blocks = parse_markdown("# Title\n\nSome *text* here.\n");
    assert_eq!(kinds(&blocks), vec![BlockKind::Heading, BlockKind::Spacer, BlockKind::Paragraph]);
    assert_eq!(blocks[0].level, 1);
    assert_eq!(blocks[0].text, "Title");
    assert_eq!(blocks[1].level, 1);
    assert_eq!(blocks[2].text, "Some *text* here.");
    assert_eq!(blocks[2].rich, "Some *text* here.");
}

#[test]
fn blank_lines_count_and_edge_spacers_go() {
    let blocks = parse_markdown("\n\nfirst\n\n\nsecond\n\n\n");
    assert_eq!(kinds(&blocks), vec![BlockKind::Paragraph, BlockKind::Spacer, BlockKind::Paragraph]);
    assert_eq!(blocks[1].level, 2);
    assert_eq!(blocks[0].text, "first");
    assert_eq!(blocks[2].text, "second");
}

#[test]
fn ordered_list_items_are_numbered() {
    let blocks = parse_markdown("3. one\n4. two **bold**\n");
    assert_eq!(kinds(&blocks), vec![BlockKind::ListItem, BlockKind::ListItem]);
    assert!(blocks[0].is_ordered);
    assert_eq!(blocks[0].prefix, "3.");
    assert_eq!(blocks[1].prefix, "4.");
    assert_eq!(blocks[0].text, "one");
    assert_eq!(blocks[1].text, "two bold");
    assert_eq!(blocks[1].rich, "two **bold**");
    assert_eq!(blocks[0].depth, 0);
}

#[test]
fn task_items_and_nesting() {
    let blocks = parse_markdown("- [x] done\n- [ ] todo\n  - inner\n");
    assert_eq!(kinds(&blocks), vec![BlockKind::ListItem, BlockKind::ListItem, BlockKind::ListItem]);
    assert!(blocks[0].is_task && blocks[0].is_checked);
    assert!(blocks[1].is_task && !blocks[1].is_checked);
    assert_eq!(blocks[0].text, "done");
    assert!(!blocks[0].is_ordered);
    assert_eq!(blocks[2].depth, 1);
    assert_eq!(blocks[2].text, "inner");
}

#[test]
fn code_blocks_and_diagrams() {
    let blocks = parse_markdown("```rust\nfn main() {}\n```\n\n```Mermaid\ngraph TD\n```\n");
    assert_eq!(kinds(&blocks), vec![BlockKind::CodeBlock, BlockKind::Spacer, BlockKind::Mermaid]);
    assert_eq!(blocks[0].language, "RUST");
    assert_eq!(blocks[0].text, "fn main() {}\n");
    assert_eq!(blocks[2].language, "MERMAID");
    assert_eq!(blocks[2].text, "graph TD\n");
}

#[test]
fn tables_keep_rows_cells_and_alignment() {
    let blocks = parse_markdown("| a | b |\n|:--|--:|\n| 1 | `2` |\n");
    assert_eq!(kinds(&blocks), vec![BlockKind::Table]);
    let rows = &blocks[0].rows;
    assert_eq!(rows.len(), 2);
    assert!(rows[0].is_header && !rows[1].is_header);
    assert_eq!(rows[0].cells[0].text, "a");
    assert_eq!(rows[0].cells[0].alignment, 1);
    assert_eq!(rows[0].cells[1].alignment, 3);
    assert_eq!(rows[1].cells[1].text, "`2`");
}

#[test]
fn quotes_rules_links_and_math() {
    let blocks = parse_markdown("> quoted [site](http://x.y/a)\n\n---\n\nInline $x$ math\n");
    assert_eq!(
        kinds(&blocks),
        vec![BlockKind::BlockQuote, BlockKind::Spacer, BlockKind::Rule, BlockKind::Spacer, BlockKind::Paragraph]
    );
    assert_eq!(blocks[0].text, "quoted [site](http://x.y/a)");
    assert_eq!(blocks[0].depth, 0);
    assert_eq!(blocks[2].text, "---");
    assert_eq!(blocks[4].text, "Inline `x` math");
}

#[test]
fn display_math_is_a_block_of_its_own() {
    let blocks = parse_markdown("$$x^2$$\n");
    assert_eq!(kinds(&blocks), vec![BlockKind::DisplayMath]);
    assert_eq!(blocks[0].text, "x^2");
    assert_eq!(blocks[0].rich, "`x^2`");
}

#[test]
fn turn_elements_group_cards_and_parse_text() {
    let text = |t: &str| ParsedMarkdownItem::new_default("text".to_string(), t.to_string());
    let mut thinking = ParsedMarkdownItem::new_default("thinking".to_string(), String::new());
    thinking.thinking_text = "hm".to_string();
    let items = vec![text("# Hi"), thinking, text("   "), text("a\n\nb")];
    let elems = to_slint_elements(items);
    assert_eq!(elems.len(), 5);
    assert!(matches!(&elems[0], TurnElement::Block(b) if b.kind == BlockKind::Heading));
    assert!(matches!(&elems[1], TurnElement::WorkGroup(g) if g.kind == "work_group" && g.work_group_items.len() == 1));
    assert!(matches!(&elems[2], TurnElement::Block(b) if b.kind == BlockKind::Paragraph && b.text == "a"));
    assert!(matches!(&elems[3], TurnElement::Block(b) if b.kind == BlockKind::Spacer));
    assert!(matches!(&elems[4], TurnElement::Block(b) if b.text == "b"));
}
