use flood_mcp::text::{compact_search_text, compact_task_title, truncate_preserving_layout};

#[test]
fn compact_search_text_collapses_whitespace_and_cuts() {
    assert_eq!(compact_search_text("  a \n\t b  ", 10), "a b");
    assert_eq!(compact_search_text("alpha beta gamma", 6), "alpha…");
    assert_eq!(compact_search_text("alpha beta", 5), "alpha…");
    assert_eq!(compact_search_text("", 3), "");
}

#[test]
fn truncate_preserving_layout_keeps_lines() {
    assert_eq!(truncate_preserving_layout("a\nb", 3), "a\nb");
    assert_eq!(truncate_preserving_layout("a\nbcd", 3), "a\nb\n\n…");
}

#[test]
fn compact_task_title_uses_first_non_blank_line() {
    assert_eq!(compact_task_title("\n  \n# Заголовок  задачи\nтекст"), "Заголовок задачи");
    assert_eq!(compact_task_title("   "), "Без названия");
    assert_eq!(compact_task_title("- * item"), "item");
}
