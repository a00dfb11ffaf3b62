//! Packing day groups into pages: whole groups only, in order, as many per
//! page as the maximum photo count allows.

use vstd::prelude::*;
use crate::group::{all_photos, dates_descend, group_by_day, is_day_grouping, lemma_stable_order_keeps_photos, DayGroup};
use crate::photo::Photo;

verus! {

/// The most photos a page holds, unless a single day group alone has more.
pub const MAX_PHOTOS_PER_PAGE: usize = 50;

/// A run of consecutive day groups that one document shows.
#[derive(Clone, Debug, PartialEq, Eq)]
pub struct Page {
    pub groups: Vec<DayGroup>,
}

impl Page {
    /// The page is not empty, its groups are well formed, and they stand
    /// most recent date first.
    pub open spec fn wf(self) -> bool {
        &&& self.groups@.len() > 0
        &&& forall|g: int| 0 <= g < self.groups@.len() ==> (#[trigger] self.groups@[g]).wf()
        &&& dates_descend(self.groups@)
    }
}

/// Number of photos in `groups`.
pub open spec fn photo_count(groups: Seq<DayGroup>) -> nat
    decreases groups.len(),
{
    if groups.len() == 0 {
        0
    } else {
        photo_count(groups.drop_last()) + groups.last().photos@.len()
    }
}

/// The groups of all pages, in the order of the pages.
pub open spec fn all_groups(pages: Seq<Page>) -> Seq<DayGroup>
    decreases pages.len(),
{
    if pages.len() == 0 {
        Seq::empty()
    } else {
        all_groups(pages.drop_last()) + pages.last().groups@
    }
}

/// `pages` is the greedy packing of `groups` under the maximum `max`:
/// the pages cut `groups` into consecutive non-empty runs; a page of more
/// than one group stays within `max` photos; and the first group of the
/// next page would have pushed the page over `max`.
pub open spec fn is_pagination(groups: Seq<DayGroup>, pages: Seq<Page>, max: nat) -> bool {
    &&& all_groups(pages) == groups
    &&& forall|k: int| 0 <= k < pages.len() ==> (#[trigger] pages[k]).groups@.len() > 0
    &&& forall|k: int|
        0 <= k < pages.len() && (#[trigger] pages[k]).groups@.len() > 1 ==> photo_count(
            pages[k].groups@,
        ) <= max
    &&& forall|k: int|
        0 <= k && k + 1 < pages.len() ==> photo_count((#[trigger] pages[k]).groups@) + pages[k
            + 1].groups@[0].photos@.len() > max
}

/// Closing a run of groups as one more page keeps a pagination one, where
/// the run is not empty, stays within the maximum unless it is a single
/// group, and its first group would not have fitted on the page in front.
proof fn lemma_close_page(closed: Seq<Page>, pages: Seq<Page>, max: nat)
    requires
        is_pagination(all_groups(closed), closed, max),
        pages.len() == closed.len() + 1,
        pages.drop_last() == closed,
        pages.last().groups@.len() > 0,
        pages.last().groups@.len() > 1 ==> photo_count(pages.last().groups@) <= max,
        closed.len() > 0 ==> photo_count(closed.last().groups@)
            + pages.last().groups@[0].photos@.len() > max,
    ensures
        is_pagination(all_groups(pages), pages, max),
        all_groups(pages) == all_groups(closed) + pages.last().groups@,
{
    assert forall|k: int| 0 <= k < pages.len() implies (#[trigger] pages[k]).groups@.len() > 0 by {
        if k < closed.len() {
            assert(pages[k] == closed[k]);
        }
    }
    assert forall|k: int|
        0 <= k < pages.len() && (#[trigger] pages[k]).groups@.len() > 1 implies photo_count(
        pages[k].groups@,
    ) <= max by {
        if k < closed.len() {
            assert(pages[k] == closed[k]);
        }
    }
    assert forall|k: int| 0 <= k && k + 1 < pages.len() implies photo_count(
        (#[trigger] pages[k]).groups@,
    ) + pages[k + 1].groups@[0].photos@.len() > max by {
        assert(pages[k] == closed[k]);
        if k + 1 < closed.len() {
            assert(pages[k + 1] == closed[k + 1]);
        }
    }
}

/// Packs day groups into pages. A group joins the current page unless the
/// page would then hold more than `max` photos; in that case the page ends
/// before the group and the group opens the next page. A page is never
/// empty, so a group of more than `max` photos has a page to itself.
pub fn paginate(groups: Vec<DayGroup>, max: usize) -> (pages: Vec<Page>)
    ensures
        is_pagination(groups@, pages@, max as nat),
{
    let mut pages: Vec<Page> = Vec::new();
    let mut current: Vec<DayGroup> = Vec::new();
    let mut count: usize = 0;
    proof {
        assert(groups@.take(0) =~= all_groups(pages@) + current@);
    }
    for group in it: groups
        invariant
            it.seq() == groups@,
            all_groups(pages@) + current@ == groups@.take(it.index() as int),
            count == photo_count(current@),
            current@.len() > 1 ==> count <= max,
            current@.len() == 0 ==> pages@.len() == 0,
            is_pagination(all_groups(pages@), pages@, max as nat),
            pages@.len() > 0 ==> photo_count(pages@.last().groups@) + current@[0].photos@.len()
                > max,
    {
        let ghost i = it.index() as int;
        let ghost seen = groups@.take(i);
        let size = group.photos.len();
        if current.len() > 0 && (count > max || size > max - count) {
            let ghost closed = pages@;
            pages.push(Page { groups: current });
            current = Vec::new();
            count = 0;
            proof {
                assert(pages@.drop_last() =~= closed);
                lemma_close_page(closed, pages@, max as nat);
                assert(all_groups(pages@) + current@ =~= seen);
            }
        }
        let ghost before = current@;
        assert(count == photo_count(before));
        current.push(group);
        count = count + size;
        proof {
            assert(current@.drop_last() =~= before);
            assert(current@.last() == group);
            assert(groups@.take(i + 1) =~= seen.push(group));
            assert(all_groups(pages@) + current@ =~= groups@.take(i + 1));
            assert(current@[0] == if before.len() == 0 {
                group
            } else {
                before[0]
            });
        }
    }
    if current.len() > 0 {
        let ghost closed = pages@;
        pages.push(Page { groups: current });
        proof {
            assert(pages@.drop_last() =~= closed);
            lemma_close_page(closed, pages@, max as nat);
        }
    }
    proof {
        assert(groups@.take(groups@.len() as int) =~= groups@);
    }
    pages
}

/// `pages` is the gallery of `input` under the maximum `max`: the day
/// grouping of `input`, packed greedily into pages.
pub open spec fn is_gallery(input: Seq<Photo>, pages: Seq<Page>, max: nat) -> bool {
    &&& is_day_grouping(input, all_groups(pages))
    &&& is_pagination(all_groups(pages), pages, max)
}

/// Groups photos by capture date and packs the groups into pages of at
/// most `max` photos, most recent first.
pub fn build_pages(photos: Vec<Photo>, max: usize) -> (pages: Vec<Page>)
    ensures
        is_gallery(photos@, pages@, max as nat),
{
    paginate(group_by_day(photos), max)
}

/// Number of groups on the pages in front of page `k`.
pub open spec fn groups_before(pages: Seq<Page>, k: int) -> nat {
    all_groups(pages.take(k)).len()
}

/// Group `g` of page `k` is the group at place `groups_before(pages, k) + g`
/// in the sequence of all groups.
pub proof fn lemma_group_place(pages: Seq<Page>, k: int, g: int)
    requires
        0 <= k < pages.len(),
        0 <= g < pages[k].groups@.len(),
    ensures
        groups_before(pages, k) + g < all_groups(pages).len(),
        all_groups(pages)[groups_before(pages, k) + g] == pages[k].groups@[g],
        groups_before(pages, k + 1) == groups_before(pages, k) + pages[k].groups@.len(),
    decreases pages.len(),
{
    let front = pages.drop_last();
    assert(pages.take(k + 1).drop_last() =~= pages.take(k));
    assert(pages.take(k + 1).last() == pages[k]);
    if k == pages.len() - 1 {
        assert(pages.take(k) =~= front);
    } else {
        lemma_group_place(front, k, g);
        assert(front.take(k) =~= pages.take(k));
        assert(front.take(k + 1) =~= pages.take(k + 1));
    }
}

/// The places of the groups grow with the page number.
pub proof fn lemma_groups_before_grows(pages: Seq<Page>, k1: int, k2: int)
    requires
        0 <= k1 < k2 < pages.len(),
    ensures
        groups_before(pages, k1) + pages[k1].groups@.len() <= groups_before(pages, k2),
    decreases k2 - k1,
{
    assert(pages.take(k1 + 1).drop_last() =~= pages.take(k1));
    assert(pages.take(k1 + 1).last() == pages[k1]);
    if k1 + 1 < k2 {
        lemma_groups_before_grows(pages, k1 + 1, k2);
    }
}

/// Pages come most recent date first: of two groups, the one on the later
/// page, or further down the same page, is of a strictly earlier date. So no
/// date stands on two pages, nor twice on one.
pub proof fn lemma_pages_most_recent_first(pages: Seq<Page>, k1: int, g1: int, k2: int, g2: int)
    requires
        dates_descend(all_groups(pages)),
        0 <= k1 < pages.len(),
        0 <= g1 < pages[k1].groups@.len(),
        0 <= k2 < pages.len(),
        0 <= g2 < pages[k2].groups@.len(),
        k1 < k2 || (k1 == k2 && g1 < g2),
    ensures
        pages[k2].groups@[g2].date.before(pages[k1].groups@[g1].date),
        pages[k2].groups@[g2].date != pages[k1].groups@[g1].date,
{
    lemma_group_place(pages, k1, g1);
    lemma_group_place(pages, k2, g2);
    if k1 < k2 {
        lemma_groups_before_grows(pages, k1, k2);
    }
    let earlier = pages[k2].groups@[g2].date;
    let later = pages[k1].groups@[g1].date;
    assert(earlier.before(later));
    assert(!earlier.before(earlier));
}

/// Every page of a gallery is well formed.
pub proof fn lemma_gallery_pages_wf(input: Seq<Photo>, pages: Seq<Page>, max: nat, k: int)
    requires
        is_gallery(input, pages, max),
        0 <= k < pages.len(),
    ensures
        pages[k].wf(),
{
    let groups = pages[k].groups@;
    assert forall|g: int| 0 <= g < groups.len() implies (#[trigger] groups[g]).wf() by {
        lemma_group_place(pages, k, g);
    }
    assert forall|i: int, j: int| 0 <= i < j < groups.len() implies groups[j].date.before(
        groups[i].date,
    ) by {
        lemma_pages_most_recent_first(pages, k, i, k, j);
    }
}

/// On every page of a gallery, the photos under one date heading never
/// increase in capture time from one to the next, and all are of that date.
pub proof fn lemma_photos_newest_first_under_every_date(
    input: Seq<Photo>,
    pages: Seq<Page>,
    max: nat,
    k: int,
    g: int,
    i: int,
    j: int,
)
    requires
        is_gallery(input, pages, max),
        0 <= k < pages.len(),
        0 <= g < pages[k].groups@.len(),
        0 <= i < j < pages[k].groups@[g].photos@.len(),
    ensures
        !pages[k].groups@[g].photos@[i].captured_at.before(
            pages[k].groups@[g].photos@[j].captured_at,
        ),
        pages[k].groups@[g].photos@[i].captured_at.date == pages[k].groups@[g].date,
        pages[k].groups@[g].photos@[j].captured_at.date == pages[k].groups@[g].date,
{
    lemma_group_place(pages, k, g);
    assert(pages[k].groups@[g].wf());
}

/// The pages of a gallery partition its photos: together they hold exactly
/// the photos that came in, and no photo of one group is a photo of another.
pub proof fn lemma_pages_partition_photos(input: Seq<Photo>, pages: Seq<Page>, max: nat)
    requires
        is_gallery(input, pages, max),
    ensures
        all_photos(all_groups(pages)).to_multiset() == input.to_multiset(),
        forall|k1: int, g1: int, a: int, k2: int, g2: int, b: int|
            0 <= k1 < pages.len() && 0 <= g1 < pages[k1].groups@.len() && 0 <= a
                < pages[k1].groups@[g1].photos@.len() && 0 <= k2 < pages.len() && 0 <= g2
                < pages[k2].groups@.len() && 0 <= b < pages[k2].groups@[g2].photos@.len() && (k1
                != k2 || g1 != g2) ==> #[trigger] pages[k1].groups@[g1].photos@[a]
                != #[trigger] pages[k2].groups@[g2].photos@[b],
{
    lemma_stable_order_keeps_photos(input, all_photos(all_groups(pages)));
    assert forall|k1: int, g1: int, a: int, k2: int, g2: int, b: int|
        0 <= k1 < pages.len() && 0 <= g1 < pages[k1].groups@.len() && 0 <= a
            < pages[k1].groups@[g1].photos@.len() && 0 <= k2 < pages.len() && 0 <= g2
            < pages[k2].groups@.len() && 0 <= b < pages[k2].groups@[g2].photos@.len() && (k1 != k2
            || g1 != g2) implies #[trigger] pages[k1].groups@[g1].photos@[a]
        != #[trigger] pages[k2].groups@[g2].photos@[b] by {
        lemma_group_place(pages, k1, g1);
        lemma_group_place(pages, k2, g2);
        assert(pages[k1].groups@[g1].wf());
        assert(pages[k2].groups@[g2].wf());
        if k1 < k2 || (k1 == k2 && g1 < g2) {
            lemma_pages_most_recent_first(pages, k1, g1, k2, g2);
        } else {
            lemma_pages_most_recent_first(pages, k2, g2, k1, g1);
        }
    }
}

} // verus!
