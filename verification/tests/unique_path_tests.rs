use pake_util::unique_path::{
    check_file_or_append, increment_stem, next_file_name, parse_counter, render_decimal,
};

#[test]
fn taken_name_gets_first_counter() {
    assert_eq!(check_file_or_append("report.pdf", true), "report-1.pdf");
}

#[test]
fn counter_goes_on_from_suffix() {
    assert_eq!(check_file_or_append("report-3.pdf", true), "report-4.pdf");
}

#[test]
fn free_path_is_unchanged() {
    assert_eq!(check_file_or_append("report.pdf", false), "report.pdf");
    assert_eq!(check_file_or_append("dir/report-3.pdf", false), "dir/report-3.pdf");
    assert_eq!(check_file_or_append("", false), "");
}

#[test]
fn result_fed_back_is_unchanged() {
    let found = check_file_or_append("report.pdf", true);
    assert_eq!(check_file_or_append(&found, false), found);
}

#[test]
fn search_over_taken_names() {
    let taken = ["a/report.pdf", "a/report-1.pdf", "a/report-2.pdf"];
    let mut path = "a/report.pdf".to_string();
    let mut steps = 0;
    loop {
        let exists = taken.contains(&path.as_str());
        path = check_file_or_append(&path, exists);
        if !exists {
            break;
        }
        steps += 1;
    }
    assert_eq!(path, "a/report-3.pdf");
    assert_eq!(steps, 3);
}

#[test]
fn directory_is_kept() {
    assert_eq!(check_file_or_append("/tmp/down/report.pdf", true), "/tmp/down/report-1.pdf");
    assert_eq!(check_file_or_append("down/a-9.txt", true), "down/a-10.txt");
}

#[test]
fn year_in_name_counts_as_counter() {
    assert_eq!(check_file_or_append("invoice-2024.pdf", true), "invoice-2025.pdf");
}

#[test]
fn suffix_that_is_no_number_gets_first_counter() {
    assert_eq!(check_file_or_append("my-file.txt", true), "my-file-1.txt");
    assert_eq!(check_file_or_append("draft-.txt", true), "draft--1.txt");
    assert_eq!(check_file_or_append("a-1b.txt", true), "a-1b-1.txt");
    assert_eq!(check_file_or_append("a--5.txt", true), "a--6.txt");
}

#[test]
fn path_without_extension_gets_first_counter() {
    assert_eq!(check_file_or_append("README", true), "README-1");
    assert_eq!(check_file_or_append("dir/notes-3", true), "dir/notes-3-1");
}

#[test]
fn only_last_extension_is_split_off() {
    assert_eq!(check_file_or_append("archive.tar.gz", true), "archive.tar-1.gz");
}

#[test]
fn next_file_name_examples() {
    assert_eq!(next_file_name("report", Some("pdf")), "report-1.pdf");
    assert_eq!(next_file_name("report-3", Some("pdf")), "report-4.pdf");
    assert_eq!(next_file_name("report-3", None), "report-3-1");
    assert_eq!(next_file_name("", Some("x")), "-1.x");
}

#[test]
fn increment_stem_examples() {
    assert_eq!(increment_stem("a"), "a-1");
    assert_eq!(increment_stem("a-0"), "a-1");
    assert_eq!(increment_stem("a-007"), "a-8");
    assert_eq!(increment_stem("a-+5"), "a-6");
    assert_eq!(increment_stem("a-b-99"), "a-b-100");
    assert_eq!(increment_stem("-7"), "-8");
    assert_eq!(increment_stem("a-"), "a--1");
}

#[test]
fn counter_past_32_bits() {
    assert_eq!(increment_stem("a-4294967295"), "a-4294967296");
    assert_eq!(increment_stem("a-4294967296"), "a-4294967296-1");
}

#[test]
fn parse_counter_examples() {
    assert_eq!(parse_counter("0"), Some(0));
    assert_eq!(parse_counter("42"), Some(42));
    assert_eq!(parse_counter("+42"), Some(42));
    assert_eq!(parse_counter("0042"), Some(42));
    assert_eq!(parse_counter("4294967295"), Some(4294967295));
    assert_eq!(parse_counter("4294967296"), None);
    assert_eq!(parse_counter("99999999999999999999999"), None);
    assert_eq!(parse_counter(""), None);
    assert_eq!(parse_counter("+"), None);
    assert_eq!(parse_counter("-1"), None);
    assert_eq!(parse_counter("1 "), None);
    assert_eq!(parse_counter("12a"), None);
    assert_eq!(parse_counter("++1"), None);
    assert_eq!(parse_counter("١٢"), None);
}

#[test]
fn parse_counter_agrees_with_std() {
    for text in ["7", "+7", "007", "4294967295", "4294967296", "", "+", "x", "1x", "-0", " 1"] {
        assert_eq!(parse_counter(text), text.parse::<u32>().ok());
    }
}

#[test]
fn render_decimal_examples() {
    assert_eq!(render_decimal(0), "0");
    assert_eq!(render_decimal(9), "9");
    assert_eq!(render_decimal(10), "10");
    assert_eq!(render_decimal(4294967296), "4294967296");
    assert_eq!(render_decimal(18446744073709551615), "18446744073709551615");
}

#[test]
fn render_decimal_agrees_with_std() {
    for n in [0u64, 1, 9, 10, 99, 100, 12345, 4294967295, 4294967296] {
        assert_eq!(render_decimal(n), format!("{n}"));
    }
}

#[test]
fn written_counter_is_read_back() {
    for n in [0u32, 1, 10, 4294967295] {
        assert_eq!(parse_counter(&render_decimal(u64::from(n))), Some(n));
    }
}
