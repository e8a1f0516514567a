use pdf2png::decimal::usize_to_string;
use pdf2png::naming::derive_prefix;
use pdf2png::naming::file_name_for_page;
use pdf2png::naming::get_prefix;
use pdf2png::naming::output_file_names;
use pdf2png::naming::Args;

fn plain_args() -> Args {
    Args {
        first_page_only: false,
        page_count_only: false,
        text_only: false,
        password: None,
        prefix: None,
        resolution_pixels: 2000,
    }
}

#[test]
fn derived_prefix_strips_extension() {
    assert_eq!(derive_prefix("report.pdf"), "report");
}

#[test]
fn derived_prefix_keeps_earlier_dots() {
    assert_eq!(derive_prefix("archive.tar.gz"), "archive.tar");
}

#[test]
fn derived_prefix_without_dot_unchanged() {
    assert_eq!(derive_prefix("noext"), "noext");
}

#[test]
fn derived_prefix_leading_dot_unchanged() {
    assert_eq!(derive_prefix(".bashrc"), ".bashrc");
}

#[test]
fn derived_prefix_trailing_dot() {
    assert_eq!(derive_prefix("foo."), "foo");
}

#[test]
fn derived_prefix_empty_name() {
    assert_eq!(derive_prefix(""), "");
}

#[test]
fn explicit_prefix_used_verbatim() {
    let mut args = plain_args();
    args.prefix = Some(String::from("custom"));
    assert_eq!(get_prefix("report.pdf", &args), "custom");
}

#[test]
fn missing_prefix_derived_from_file_name() {
    let args = plain_args();
    assert_eq!(get_prefix("report.pdf", &args), "report");
}

#[test]
fn decimal_rendering_exact() {
    assert_eq!(usize_to_string(0), "0");
    assert_eq!(usize_to_string(7), "7");
    assert_eq!(usize_to_string(10), "10");
    assert_eq!(usize_to_string(305), "305");
    assert_eq!(usize_to_string(98765), "98765");
}

#[test]
fn page_file_name_first_page_only() {
    assert_eq!(file_name_for_page("report", 0, true), "report.png");
}

#[test]
fn page_file_name_indexed() {
    assert_eq!(file_name_for_page("report", 0, false), "report-0.png");
    assert_eq!(file_name_for_page("report", 2, false), "report-2.png");
    assert_eq!(file_name_for_page("report", 17, false), "report-17.png");
}

#[test]
fn three_page_plan() {
    let names = output_file_names("report", 3, false);
    assert_eq!(names, vec!["report-0.png", "report-1.png", "report-2.png"]);
}

#[test]
fn first_page_only_plan() {
    let names = output_file_names("report", 1, true);
    assert_eq!(names, vec!["report.png"]);
}

#[test]
fn first_page_only_plan_of_longer_document() {
    let names = output_file_names("report", 3, true);
    assert_eq!(names, vec!["report.png"]);
}

#[test]
fn empty_document_plan() {
    assert!(output_file_names("report", 0, false).is_empty());
    assert!(output_file_names("report", 0, true).is_empty());
}

#[test]
fn rerun_targets_same_names() {
    let first = output_file_names("report", 5, false);
    let second = output_file_names("report", 5, false);
    assert_eq!(first, second);
}

#[test]
fn plan_names_all_distinct() {
    let names = output_file_names("p", 12, false);
    for i in 0..names.len() {
        for j in 0..names.len() {
            if i != j {
                assert_ne!(names[i], names[j]);
            }
        }
    }
}
