use photo_gallery::group::DayGroup;
use photo_gallery::options::Options;
use photo_gallery::paginate::Page;
use photo_gallery::photo::Photo;
use photo_gallery::render::{
    generate_page, navigation, navigation_label, page_path, RenderError, HTML_BEGIN, HTML_END,
};
use photo_gallery::text::{decimal_len, push_decimal, push_zero_padded};
use photo_gallery::time::{Date, Timestamp};

fn date(year: i32, month: u32, day: u32) -> Date {
    Date { year, month, day }
}

fn photo(name: &str, day: Date, second_of_day: u32) -> Photo {
    Photo {
        original_path: format!("/in/{name}.png"),
        captured_at: Timestamp { date: day, second_of_day, nanosecond: 0 },
        thumbnail_path: format!("/out/thumbnail/{name}.jpg"),
        display_path: format!("/out/img/{name}.jpg"),
    }
}

fn group(day: Date, names: &[&str]) -> DayGroup {
    let photos = names.iter().enumerate().map(|(i, n)| photo(n, day, 1000 - i as u32)).collect();
    DayGroup { date: day, photos }
}

fn options() -> Options {
    Options::resolve(Some("/in".to_string()), Some("/out".to_string())).unwrap()
}

#[test]
fn page_file_is_named_by_its_index() {
    assert_eq!(page_path(0), "page_0.html");
    assert_eq!(page_path(7), "page_7.html");
    assert_eq!(page_path(10), "page_10.html");
    assert_eq!(page_path(1234567890), "page_1234567890.html");
    assert_eq!(page_path(usize::MAX), format!("page_{}.html", usize::MAX));
}

#[test]
fn decimal_notation_has_no_leading_zeros() {
    for n in [0u64, 1, 9, 10, 11, 99, 100, 101, 65_535, 1_000_000, u64::MAX] {
        let mut out = String::from("x");
        push_decimal(&mut out, n);
        assert_eq!(out, format!("x{n}"));
        assert_eq!(decimal_len(n), n.to_string().len());
    }
}

#[test]
fn every_digit_is_written() {
    let mut out = String::new();
    push_decimal(&mut out, 1_023_456_789);
    assert_eq!(out, "1023456789");
}

#[test]
fn padding_fills_up_with_zeros() {
    for (n, width, expected) in [
        (0u64, 0usize, "0"),
        (0, 1, "0"),
        (0, 4, "0000"),
        (7, 2, "07"),
        (12, 2, "12"),
        (123, 2, "123"),
        (2024, 4, "2024"),
        (12345, 4, "12345"),
    ] {
        let mut out = String::new();
        push_zero_padded(&mut out, n, width);
        assert_eq!(out, expected);
    }
    let mut out = String::from("a");
    push_zero_padded(&mut out, 5, 2);
    push_zero_padded(&mut out, 42, 2);
    assert_eq!(out, "a0542");
}

#[test]
fn date_label_is_year_month_day() {
    assert_eq!(date(2024, 1, 2).to_label(), "2024-01-02");
    assert_eq!(date(2024, 12, 31).to_label(), "2024-12-31");
    assert_eq!(date(999, 10, 9).to_label(), "0999-10-09");
    assert_eq!(date(0, 1, 1).to_label(), "0000-01-01");
    assert_eq!(date(9999, 1, 1).to_label(), "9999-01-01");
}

#[test]
fn year_outside_four_digits_is_signed() {
    assert_eq!(date(10000, 1, 1).to_label(), "+10000-01-01");
    assert_eq!(date(-1, 1, 1).to_label(), "-0001-01-01");
    assert_eq!(date(-12345, 6, 7).to_label(), "-12345-06-07");
    assert_eq!(date(i32::MIN, 1, 1).to_label(), "-2147483648-01-01");
    assert_eq!(date(i32::MAX, 1, 1).to_label(), "+2147483647-01-01");
}

#[test]
fn date_label_agrees_with_chrono() {
    for (y, m, d) in [
        (2024, 2, 29),
        (1, 1, 1),
        (0, 12, 31),
        (-1, 3, 4),
        (-262143, 1, 1),
        (262142, 12, 31),
        (9999, 12, 31),
        (10000, 1, 1),
        (1970, 1, 1),
    ] {
        let expected = format!("{:?}", chrono::NaiveDate::from_ymd_opt(y, m, d).unwrap());
        assert_eq!(date(y, m, d).to_label(), expected);
        let mut out = String::from(">");
        date(y, m, d).push_label(&mut out);
        assert_eq!(out, format!(">{expected}"));
    }
}

#[test]
fn dates_and_timestamps_are_ordered_field_by_field() {
    assert!(date(2023, 12, 31).is_before(&date(2024, 1, 1)));
    assert!(date(2024, 1, 31).is_before(&date(2024, 2, 1)));
    assert!(date(2024, 2, 1).is_before(&date(2024, 2, 2)));
    assert!(!date(2024, 2, 2).is_before(&date(2024, 2, 2)));
    assert!(!date(2024, 2, 2).is_before(&date(2024, 1, 31)));
    assert!(!date(2025, 1, 1).is_before(&date(2024, 12, 31)));
    let t = |d: Date, s: u32, n: u32| Timestamp { date: d, second_of_day: s, nanosecond: n };
    assert!(t(date(2024, 1, 1), 86_399, 0).is_before(&t(date(2024, 1, 2), 0, 0)));
    assert!(t(date(2024, 1, 1), 5, 9).is_before(&t(date(2024, 1, 1), 6, 0)));
    assert!(t(date(2024, 1, 1), 5, 9).is_before(&t(date(2024, 1, 1), 5, 10)));
    assert!(!t(date(2024, 1, 1), 5, 9).is_before(&t(date(2024, 1, 1), 5, 9)));
    assert!(!t(date(2024, 1, 2), 0, 0).is_before(&t(date(2024, 1, 1), 86_399, 0)));
}

#[test]
fn page_spanning_dates_is_labelled_with_both() {
    let page = Page {
        groups: vec![
            group(date(2024, 1, 5), &["a"]),
            group(date(2024, 1, 4), &["b"]),
            group(date(2024, 1, 2), &["c"]),
        ],
    };
    assert_eq!(navigation_label(&page), "2024-01-02\u{2013}2024-01-05");
}

#[test]
fn page_of_one_date_is_labelled_with_that_date() {
    let page = Page { groups: vec![group(date(2024, 1, 2), &["a", "b"])] };
    assert_eq!(navigation_label(&page), "2024-01-02");
}

#[test]
fn navigation_lists_every_page() {
    let pages = vec![
        Page { groups: vec![group(date(2024, 1, 5), &["a"]), group(date(2024, 1, 2), &["b"])] },
        Page { groups: vec![group(date(2023, 12, 31), &["c"])] },
    ];
    assert_eq!(
        navigation(&pages),
        "<hr>\n<ul class=\"nav\">\n\
         <li><a href=\"page_0.html\" class=\"page_0\">2024-01-02\u{2013}2024-01-05</a></li>\n\
         <li><a href=\"page_1.html\" class=\"page_1\">2023-12-31</a></li>\n\
         </ul>\n"
    );
    assert_eq!(navigation(&Vec::new()), "<hr>\n<ul class=\"nav\">\n</ul>\n");
}

#[test]
fn page_document_is_written_out_in_full() {
    let page = Page {
        groups: vec![group(date(2024, 1, 5), &["a", "b"]), group(date(2024, 1, 2), &["c"])],
    };
    let document = generate_page(&page, &options(), 3, "<nav>").unwrap();
    assert_eq!(document.path, "/out/page_3.html");
    let expected = "\n<!DOCTYPE html>\n<html lang=\"en\">\n\n<head>\n    <meta charset=\"utf-8\">\n    <title>Photos</title>\n    <meta name=\"viewport\" content=\"width=device-width, initial-scale=1.0\">\n    <link rel=\"stylesheet\" type=\"text/css\" href=\"./css/style.css\">\n    <link rel=\"icon\" href=\"/favicon.ico\" sizes=\"any\">\n    <link rel=\"icon\" href=\"/icon.svg\" type=\"image/svg+xml\">\n    <link rel=\"apple-touch-icon\" href=\"/apple-touch-icon.png\">\n    <link rel=\"manifest\" href=\"/site.webmanifest\">\n    <meta name=\"theme-color\" content=\"#ffffff\">\n</head>\n\n\
<style>\na.page_3 {\n    font-weight: bold;\n    color: gray;\n}\n</style>\n\
<body>\n\
<h2>2024-01-05</h2>\n<div class=\"masonry-grid\">\n\
<figure><a href=\"img/a.jpg\"><img src=\"./thumbnail/a.jpg\"></figure></a>\n\
<figure><a href=\"img/b.jpg\"><img src=\"./thumbnail/b.jpg\"></figure></a>\n\
</div>\n\
<h2>2024-01-02</h2>\n<div class=\"masonry-grid\">\n\
<figure><a href=\"img/c.jpg\"><img src=\"./thumbnail/c.jpg\"></figure></a>\n\
</div>\n\
</body><nav>\n\n\n</html>\n\n";
    assert_eq!(document.html, expected);
    assert!(document.html.starts_with(HTML_BEGIN));
    assert!(document.html.ends_with(HTML_END));
}

#[test]
fn page_without_groups_is_only_the_shell() {
    let document = generate_page(&Page { groups: Vec::new() }, &options(), 0, "").unwrap();
    assert_eq!(
        document.html,
        format!(
            "{HTML_BEGIN}<style>\na.page_0 {{\n    font-weight: bold;\n    color: gray;\n}}\n</style>\n<body>\n</body>{HTML_END}"
        )
    );
}

#[test]
fn derivative_outside_the_output_directory_is_refused() {
    let mut stray = photo("a", date(2024, 1, 5), 0);
    stray.display_path = "/elsewhere/img/a.jpg".to_string();
    let page = Page { groups: vec![DayGroup { date: date(2024, 1, 5), photos: vec![stray] }] };
    assert_eq!(generate_page(&page, &options(), 0, ""), Err(RenderError::OutsideOutputDir));
    let mut stray = photo("a", date(2024, 1, 5), 0);
    stray.thumbnail_path = "thumbnail/a.jpg".to_string();
    let page = Page {
        groups: vec![
            group(date(2024, 1, 6), &["fine"]),
            DayGroup { date: date(2024, 1, 5), photos: vec![stray] },
        ],
    };
    assert_eq!(generate_page(&page, &options(), 0, ""), Err(RenderError::OutsideOutputDir));
}
