use skm::parser::{classify_task_line, count_sections, extract_title, parse_tasks, LineMarks};

fn marks(counted: bool, completed: bool, parallel: bool, blocked: bool) -> LineMarks {
    LineMarks { counted, completed, parallel, blocked }
}

#[test]
fn checked_task_with_id_and_parallel_marker() {
    let s = parse_tasks("- [x] T001: setup [P]", 42);
    assert_eq!(s.total, 1);
    assert_eq!(s.completed, 1);
    assert_eq!(s.parallel_marked, 1);
    assert_eq!(s.blocked, 0);
    assert_eq!(s.last_activity, Some(42));
}

#[test]
fn empty_task_list_counts_nothing() {
    let s = parse_tasks("", 7);
    assert_eq!((s.total, s.completed, s.parallel_marked, s.blocked), (0, 0, 0, 0));
    assert_eq!(s.last_activity, Some(7));
}

#[test]
fn checkbox_lines_count_open_done_parallel_and_blocked() {
    let text = "# Tasks\n\n- [ ] T001 write parser (P)\n  * [ ] T002 wire it [BLOCKED]\n- [X] T003 design ||\n* [x] T004 review\nplain prose\n";
    let s = parse_tasks(text, 0);
    assert_eq!(s.total, 4);
    assert_eq!(s.completed, 2);
    assert_eq!(s.parallel_marked, 2);
    assert_eq!(s.blocked, 1);
}

#[test]
fn standalone_task_ids_are_counted() {
    let text = "T010: build the index DONE\nT0200: ship [P]\nT011: wait [BLOCKED]\nT01: too short\nNotes: nothing here\n";
    let s = parse_tasks(text, 0);
    assert_eq!(s.total, 3);
    assert_eq!(s.completed, 1);
    assert_eq!(s.parallel_marked, 1);
    assert_eq!(s.blocked, 1);
}

#[test]
fn glyph_and_keyword_lines_are_counted() {
    let text = "\u{2705} shipped\n\u{2611} merged\n\u{2B1C} open\n\u{2610} open too\n\u{274C} failed\n\u{1F504} running\nTODO: write docs\n- TODO: more docs\nDONE: release\n- DONE: notes\n";
    let s = parse_tasks(text, 0);
    assert_eq!(s.total, 10);
    assert_eq!(s.completed, 4);
    assert_eq!(s.parallel_marked, 0);
    assert_eq!(s.blocked, 0);
}

#[test]
fn glyph_line_with_colon_but_no_task_id_still_counts() {
    let s = parse_tasks("\u{2705} done: yes", 0);
    assert_eq!((s.total, s.completed), (1, 1));
}

#[test]
fn crlf_line_endings_are_handled() {
    let s = parse_tasks("- [ ] a\r\n- [x] b\r\n", 0);
    assert_eq!((s.total, s.completed), (2, 1));
}

#[test]
fn classify_line_follows_category_order() {
    assert_eq!(classify_task_line("- [ ] T001: x [P] \u{26D4}", true), marks(true, false, true, true));
    assert_eq!(classify_task_line("- [x] x [BLOCKED]", false), marks(true, true, false, false));
    assert_eq!(classify_task_line("T001: x (P) [COMPLETE]", true), marks(true, true, false, false));
    assert_eq!(classify_task_line("T001: x || \u{1F6AB}", true), marks(true, false, true, true));
    assert_eq!(classify_task_line("T001: x", false), marks(false, false, false, false));
    assert_eq!(classify_task_line("TODO: y", false), marks(true, false, false, false));
    assert_eq!(classify_task_line("- [~] T001: odd", true), marks(false, false, false, false));
    assert_eq!(classify_task_line("   ", false), marks(false, false, false, false));
}

#[test]
fn task_id_is_found_anywhere_in_the_trimmed_line() {
    let s = parse_tasks("see T1234: later", 0);
    assert_eq!(s.total, 1);
    let s = parse_tasks("see T12345 later: x", 0);
    assert_eq!(s.total, 0);
}

#[test]
fn title_is_first_level_one_heading() {
    assert_eq!(extract_title("intro\n# # Title  \n# Other"), Some("Title".to_string()));
    assert_eq!(extract_title("## Only a section\ntext"), None);
    assert_eq!(extract_title(""), None);
}

#[test]
fn sections_are_level_two_headings() {
    assert_eq!(count_sections("# T\n## A\ntext\n## B\n### C\n ## D"), 2);
    assert_eq!(count_sections(""), 0);
}
