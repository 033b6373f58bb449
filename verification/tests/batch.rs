use code_auditor::batch::{count_chunks, render, render_file, to_decimal, SourceFile};
use code_auditor::text::{blank, clip, eq_ignore_ascii_case, join, same_text, starts_with};

fn file(path: &str, n: usize) -> SourceFile {
    SourceFile { path: path.to_string(), lines: (1..=n).map(|i| format!("line {}", i)).collect() }
}

#[test]
fn numbers_are_written_in_decimal() {
    for n in [0u64, 1, 9, 10, 11, 99, 100, 101, 4000, 65535, 1234567890, u64::MAX] {
        assert_eq!(to_decimal(n), n.to_string());
    }
    assert_eq!(to_decimal(u64::MAX), "18446744073709551615");
}

#[test]
fn chunks_are_counted() {
    assert_eq!(count_chunks(0, 10), 1);
    assert_eq!(count_chunks(1, 10), 1);
    assert_eq!(count_chunks(10, 10), 1);
    assert_eq!(count_chunks(11, 10), 2);
    assert_eq!(count_chunks(20, 10), 2);
    assert_eq!(count_chunks(21, 10), 3);
    assert_eq!(count_chunks(5, 1), 5);
    assert_eq!(count_chunks(5, 0), 1);
    assert_eq!(count_chunks(12000, 4000), 3);
}

#[test]
fn small_file_is_one_chunk_without_a_part_number() {
    let mut out = String::new();
    render_file(&mut out, &file("src/a.rs", 2), 4000);
    assert_eq!(out, "File: src/a.rs\nline 1\nline 2\n");
}

#[test]
fn oversized_file_is_cut_into_labeled_chunks() {
    let mut out = "before\n".to_string();
    render_file(&mut out, &file("b.rs", 5), 2);
    assert_eq!(
        out,
        "before\n\
         File: b.rs (part 1 of 3)\nline 1\nline 2\n\
         File: b.rs (part 2 of 3)\nline 3\nline 4\n\
         File: b.rs (part 3 of 3)\nline 5\n"
    );
}

#[test]
fn file_of_exactly_two_chunks() {
    let mut out = String::new();
    render_file(&mut out, &file("c.rs", 4), 2);
    assert_eq!(
        out,
        "File: c.rs (part 1 of 2)\nline 1\nline 2\nFile: c.rs (part 2 of 2)\nline 3\nline 4\n"
    );
}

#[test]
fn empty_file_has_its_heading() {
    let mut out = String::new();
    render_file(&mut out, &file("empty.rs", 0), 10);
    assert_eq!(out, "File: empty.rs\n");
}

#[test]
fn bound_of_zero_does_not_cut() {
    let mut out = String::new();
    render_file(&mut out, &file("d.rs", 3), 0);
    assert_eq!(out, "File: d.rs\nline 1\nline 2\nline 3\n");
}

#[test]
fn files_are_rendered_in_order() {
    let files = vec![file("a.rs", 1), file("b.rs", 3), file("c.rs", 0)];
    assert_eq!(
        render(&files, 2),
        "File: a.rs\nline 1\n\
         File: b.rs (part 1 of 2)\nline 1\nline 2\n\
         File: b.rs (part 2 of 2)\nline 3\n\
         File: c.rs\n"
    );
    assert_eq!(render(&Vec::new(), 2), "");
}

#[test]
fn no_line_is_lost_and_no_chunk_is_too_long() {
    for n in 0..25usize {
        for max in 1..7usize {
            let f = file("x.rs", n);
            let mut out = String::new();
            render_file(&mut out, &f, max);
            let mut lines_seen = Vec::new();
            let mut in_chunk = 0;
            let mut chunks = 0;
            for line in out.lines() {
                if line.starts_with("File: ") {
                    chunks += 1;
                    in_chunk = 0;
                } else {
                    in_chunk += 1;
                    assert!(in_chunk <= max);
                    lines_seen.push(line.to_string());
                }
            }
            assert_eq!(lines_seen, f.lines);
            assert_eq!(chunks, count_chunks(n, max));
        }
    }
}

#[test]
fn texts_are_joined() {
    let parts = vec!["a".to_string(), "b".to_string(), "c".to_string()];
    assert_eq!(join(&parts, "/"), "a/b/c");
    assert_eq!(join(&parts, ", "), "a, b, c");
    assert_eq!(join(&vec!["x".to_string()], "/"), "x");
    assert_eq!(join(&Vec::new(), "/"), "");
    assert_eq!(join(&vec![String::new(), String::new()], "/"), "/");
}

#[test]
fn texts_are_compared() {
    assert!(starts_with("https://x", "https://"));
    assert!(!starts_with("http://x", "https://"));
    assert!(starts_with("abc", ""));
    assert!(!starts_with("ab", "abc"));
    assert!(same_text("abc", "abc"));
    assert!(!same_text("abc", "abd"));
    assert!(!same_text("abc", "ab"));
    assert!(eq_ignore_ascii_case("HiGh", "high"));
    assert!(!eq_ignore_ascii_case("high", "hihg"));
    assert!(!eq_ignore_ascii_case("[", "{"));
    assert!(!eq_ignore_ascii_case("@", "`"));
    assert!(blank(""));
    assert!(blank(" \t\r\n"));
    assert!(!blank(" x "));
    assert_eq!(clip("hello", 3), "hel");
    assert_eq!(clip("hello", 5), "hello");
    assert_eq!(clip("hello", 9), "hello");
    assert_eq!(clip("hello", 0), "");
}
