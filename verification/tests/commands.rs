use pdfium_cli::commands::{
    decimal_string, native_page_index, page_image_name, page_position, pages_to_render, ExtractImagesCommand,
    PageCountCommand,
};
use pdfium_cli::syntax::Intervals;

fn extract(min_width: i32, min_height: i32, min_area: i32) -> ExtractImagesCommand {
    ExtractImagesCommand {
        quality: 92,
        min_width,
        min_height,
        min_area,
        pdf: String::from("in.pdf"),
        out_dir: String::from("out"),
    }
}

#[test]
fn numbers_in_decimal() {
    assert_eq!(decimal_string(0), "0");
    assert_eq!(decimal_string(7), "7");
    assert_eq!(decimal_string(10), "10");
    assert_eq!(decimal_string(1203), "1203");
    assert_eq!(decimal_string(usize::MAX), format!("{}", usize::MAX));
}

#[test]
fn page_count_is_printed_bare() {
    let cmd = PageCountCommand { pdf: String::from("in.pdf") };
    assert_eq!(cmd.output(0), "0");
    assert_eq!(cmd.output(42), "42");
}

#[test]
fn decimal_text_reads_back() {
    for n in [0usize, 1, 9, 10, 99, 100, 65535, usize::MAX] {
        let text = decimal_string(n);
        let ivs = Intervals::from_str(&text).expect("a number is an interval");
        assert_eq!(ivs.iter(0).next(), Some(n));
    }
}

#[test]
fn default_limits_keep_every_image_with_pixels() {
    let cmd = extract(1, 1, 1);
    assert!(cmd.keeps(1, 1));
    assert!(cmd.keeps(640, 480));
    assert!(!cmd.keeps(0, 480));
    assert!(!cmd.keeps(640, 0));
}

#[test]
fn each_limit_can_refuse() {
    let cmd = extract(100, 50, 6000);
    assert!(cmd.keeps(100, 60));
    assert!(cmd.keeps(120, 50));
    assert!(!cmd.keeps(99, 100));
    assert!(!cmd.keeps(200, 49));
    assert!(!cmd.keeps(100, 59));
}

#[test]
fn area_is_not_cut_short() {
    let cmd = extract(1, 1, i32::MAX);
    assert!(cmd.keeps(65536, 65536));
    assert!(cmd.keeps(i32::MAX, i32::MAX));
    assert!(!cmd.keeps(46340, 46340));
}

#[test]
fn names_of_output_files() {
    let cmd = extract(1, 1, 1);
    assert_eq!(cmd.image_name("report", 1), "report_image_1");
    assert_eq!(cmd.image_name("a.b", 12), "a.b_image_12");
    assert_eq!(page_image_name("report", 3), "report_3");
    assert_eq!(page_image_name("", 10), "_10");
}

#[test]
fn page_numbers_count_from_one() {
    assert_eq!(page_position(0), None);
    assert_eq!(page_position(1), Some(0));
    assert_eq!(page_position(usize::MAX), Some(usize::MAX - 1));
}

#[test]
fn all_pages_where_none_are_asked_for() {
    let all = pages_to_render(None, 3);
    let mut it = all.iter(3);
    let mut out = Vec::new();
    while let Some(p) = it.next() {
        out.push(p);
    }
    assert_eq!(out, vec![1, 2, 3]);
    let empty = pages_to_render(None, 0);
    assert_eq!(empty.iter(0).next(), None);
    let asked = pages_to_render(Some(Intervals::from_str("2-").expect("valid")), 3);
    let mut it = asked.iter(3);
    assert_eq!(it.next(), Some(2));
    assert_eq!(it.next(), Some(3));
    assert_eq!(it.next(), None);
}

#[test]
fn edits_name_pages_from_one() {
    assert_eq!(native_page_index(1), Some(0));
    assert_eq!(native_page_index(0), Some(-1));
    assert_eq!(native_page_index(i32::MAX), Some(i32::MAX - 1));
    assert_eq!(native_page_index(i32::MIN), None);
}

#[test]
fn images_are_counted_as_they_are_kept() {
    let cmd = extract(10, 10, 1);
    assert_eq!(cmd.next_image(0, 20, 20, "doc"), (1, Some(String::from("doc_image_1"))));
    assert_eq!(cmd.next_image(1, 5, 20, "doc"), (1, None));
    assert_eq!(cmd.next_image(1, 20, 5, "doc"), (1, None));
    assert_eq!(cmd.next_image(1, 10, 10, "doc"), (2, Some(String::from("doc_image_2"))));
    assert_eq!(cmd.next_image(41, 640, 480, "a.b"), (42, Some(String::from("a.b_image_42"))));
}

#[test]
fn no_image_kept_leaves_the_count_at_zero() {
    let cmd = extract(100, 100, 1);
    let mut written = 0;
    for (w, h) in [(1, 1), (99, 200), (200, 99)] {
        let (count, name) = cmd.next_image(written, w, h, "doc");
        assert_eq!(name, None);
        written = count;
    }
    assert_eq!(written, 0);
}
