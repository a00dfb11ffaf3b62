use photo_gallery::group::{group_by_day, sort_newest_first, DayGroup};
use photo_gallery::paginate::{build_pages, paginate, Page, MAX_PHOTOS_PER_PAGE};
use photo_gallery::photo::Photo;
use photo_gallery::time::{Date, Timestamp};

fn at(year: i32, month: u32, day: u32, second_of_day: u32) -> Timestamp {
    Timestamp { date: Date { year, month, day }, second_of_day, nanosecond: 0 }
}

fn photo(name: &str, captured_at: Timestamp) -> Photo {
    Photo {
        original_path: format!("/in/{name}.png"),
        captured_at,
        thumbnail_path: format!("/out/thumbnail/{name}.jpg"),
        display_path: format!("/out/img/{name}.jpg"),
    }
}

fn names(photos: &[Photo]) -> Vec<String> {
    photos.iter().map(|p| p.original_path.clone()).collect()
}

/// `count` photos on the given day, one second apart.
fn day_of(label: &str, day: u32, count: usize) -> Vec<Photo> {
    (0..count).map(|i| photo(&format!("{label}_{i}"), at(2024, 1, day, i as u32))).collect()
}

fn sizes(pages: &[Page]) -> Vec<Vec<usize>> {
    pages.iter().map(|p| p.groups.iter().map(|g| g.photos.len()).collect()).collect()
}

#[test]
fn sort_puts_most_recent_first() {
    let sorted = sort_newest_first(vec![
        photo("a", at(2024, 1, 2, 10)),
        photo("b", at(2024, 1, 3, 5)),
        photo("c", at(2024, 1, 2, 20)),
        photo("d", at(2023, 12, 31, 86399)),
    ]);
    assert_eq!(names(&sorted), vec!["/in/b.png", "/in/c.png", "/in/a.png", "/in/d.png"]);
}

#[test]
fn sort_keeps_input_order_of_equal_capture_times() {
    let t = at(2024, 5, 6, 100);
    let sorted = sort_newest_first(vec![
        photo("first", t),
        photo("older", at(2024, 5, 6, 99)),
        photo("second", t),
        photo("newer", at(2024, 5, 6, 101)),
        photo("third", t),
    ]);
    assert_eq!(
        names(&sorted),
        vec!["/in/newer.png", "/in/first.png", "/in/second.png", "/in/third.png", "/in/older.png"]
    );
}

#[test]
fn sort_orders_by_nanosecond_last() {
    let mut early = at(2024, 5, 6, 100);
    early.nanosecond = 1;
    let mut late = at(2024, 5, 6, 100);
    late.nanosecond = 2;
    let sorted = sort_newest_first(vec![photo("early", early), photo("late", late)]);
    assert_eq!(names(&sorted), vec!["/in/late.png", "/in/early.png"]);
}

#[test]
fn sort_of_nothing_is_nothing() {
    assert!(sort_newest_first(Vec::new()).is_empty());
    assert!(group_by_day(Vec::new()).is_empty());
    assert!(build_pages(Vec::new(), 50).is_empty());
}

#[test]
fn groups_hold_one_date_each_most_recent_first() {
    let groups = group_by_day(vec![
        photo("a", at(2024, 1, 2, 10)),
        photo("b", at(2024, 1, 3, 5)),
        photo("c", at(2024, 1, 2, 20)),
        photo("d", at(2023, 12, 31, 86399)),
        photo("e", at(2024, 1, 3, 5)),
    ]);
    let dates: Vec<Date> = groups.iter().map(|g| g.date).collect();
    assert_eq!(
        dates,
        vec![
            Date { year: 2024, month: 1, day: 3 },
            Date { year: 2024, month: 1, day: 2 },
            Date { year: 2023, month: 12, day: 31 },
        ]
    );
    assert_eq!(names(&groups[0].photos), vec!["/in/b.png", "/in/e.png"]);
    assert_eq!(names(&groups[1].photos), vec!["/in/c.png", "/in/a.png"]);
    assert_eq!(names(&groups[2].photos), vec!["/in/d.png"]);
}

#[test]
fn photos_within_a_group_never_increase_in_capture_time() {
    let mut input = Vec::new();
    for i in 0..40u32 {
        input.push(photo(&format!("p{i}"), at(2024, 1, 1 + (i * 7) % 3, (i * 37) % 11)));
    }
    let groups = group_by_day(input);
    for group in &groups {
        assert!(!group.photos.is_empty());
        for pair in group.photos.windows(2) {
            assert!(!pair[0].captured_at.is_before(&pair[1].captured_at));
        }
        for p in &group.photos {
            assert_eq!(p.captured_at.date, group.date);
        }
    }
    for pair in groups.windows(2) {
        assert!(pair[1].date.is_before(&pair[0].date));
    }
}

#[test]
fn every_photo_stands_on_exactly_one_page() {
    let mut input = Vec::new();
    for i in 0..200u32 {
        input.push(photo(&format!("p{i}"), at(2024, 1 + i % 4, 1 + (i * 7) % 5, (i * 37) % 11)));
    }
    let mut expected = names(&input);
    let pages = build_pages(input, 30);
    let mut found = Vec::new();
    let mut dates = Vec::new();
    for page in &pages {
        assert!(!page.groups.is_empty());
        for group in &page.groups {
            dates.push(group.date);
            found.extend(names(&group.photos));
        }
    }
    expected.sort();
    found.sort();
    assert_eq!(found, expected);
    for pair in dates.windows(2) {
        assert!(pair[1].is_before(&pair[0]));
    }
}

#[test]
fn page_ends_before_the_group_that_would_exceed_the_maximum() {
    let mut input = day_of("c", 3, 30);
    input.extend(day_of("b", 2, 30));
    input.extend(day_of("a", 1, 5));
    let pages = build_pages(input, 50);
    assert_eq!(sizes(&pages), vec![vec![30], vec![30, 5]]);
    assert_eq!(pages[0].groups[0].date, Date { year: 2024, month: 1, day: 3 });
    assert_eq!(pages[1].groups[0].date, Date { year: 2024, month: 1, day: 2 });
    assert_eq!(pages[1].groups[1].date, Date { year: 2024, month: 1, day: 1 });
}

#[test]
fn oversized_group_has_a_page_to_itself() {
    let pages = build_pages(day_of("a", 1, 80), 50);
    assert_eq!(sizes(&pages), vec![vec![80]]);
    let mut input = day_of("c", 3, 10);
    input.extend(day_of("b", 2, 80));
    input.extend(day_of("a", 1, 10));
    assert_eq!(sizes(&build_pages(input, 50)), vec![vec![10], vec![80], vec![10]]);
}

#[test]
fn page_may_hold_exactly_the_maximum() {
    let mut input = day_of("b", 2, 20);
    input.extend(day_of("a", 1, 30));
    assert_eq!(sizes(&build_pages(input, 50)), vec![vec![20, 30]]);
    let mut input = day_of("b", 2, 20);
    input.extend(day_of("a", 1, 31));
    assert_eq!(sizes(&build_pages(input, 50)), vec![vec![20], vec![31]]);
}

#[test]
fn maximum_of_zero_gives_one_group_per_page() {
    let mut input = day_of("b", 2, 2);
    input.extend(day_of("a", 1, 1));
    assert_eq!(sizes(&build_pages(input, 0)), vec![vec![2], vec![1]]);
}

#[test]
fn paginate_keeps_the_groups_in_order() {
    let groups = group_by_day({
        let mut input = day_of("a", 1, 3);
        input.extend(day_of("b", 2, 3));
        input.extend(day_of("c", 3, 3));
        input
    });
    let flat: Vec<DayGroup> = groups.clone();
    let pages = paginate(groups, 4);
    assert_eq!(sizes(&pages), vec![vec![3], vec![3], vec![3]]);
    let again: Vec<DayGroup> = pages.into_iter().flat_map(|p| p.groups).collect();
    assert_eq!(again, flat);
}

#[test]
fn fixed_maximum_is_fifty() {
    assert_eq!(MAX_PHOTOS_PER_PAGE, 50);
}
