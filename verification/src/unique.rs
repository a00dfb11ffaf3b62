//! The contracts of sorting, grouping and pagination each admit one result
//! only. So a run on the same photos with the same options always gives the
//! same pages and the same documents.

use vstd::prelude::*;
use crate::group::{
    all_photos,
    dates_descend,
    is_day_grouping,
    lemma_filter_none,
    lemma_filter_push,
    newest_first,
    taken_at,
    DayGroup,
};
use crate::paginate::{all_groups, is_gallery, is_pagination, photo_count, Page};
use crate::gallery::is_rendering;
use crate::photo::Photo;
use crate::render::{group_html, groups_html, nav_entries, navigation_html, page_label, Document};
use crate::time::Timestamp;

verus! {

/// A photo that is selected by its capture time is in the sequence.
proof fn lemma_selected_is_member(s: Seq<Photo>, t: Timestamp, x: Photo)
    requires
        s.filter(taken_at(t)).contains(x),
    ensures
        s.contains(x),
        x.captured_at == t,
{
    s.lemma_filter_contains_rev(taken_at(t), x);
    let selected = s.filter(taken_at(t));
    let i = choose|i: int| 0 <= i < selected.len() && selected[i] == x;
    s.lemma_filter_pred(taken_at(t), i);
}

/// Two most-recent-first orders that agree, for every capture time, on the
/// photos of that time and on their order, are one and the same.
pub proof fn lemma_stable_order_is_unique(a: Seq<Photo>, b: Seq<Photo>)
    requires
        newest_first(a),
        newest_first(b),
        forall|t: Timestamp| a.filter(#[trigger] taken_at(t)) == b.filter(taken_at(t)),
    ensures
        a == b,
    decreases a.len() + b.len(),
{
    if a.len() == 0 && b.len() == 0 {
        assert(a =~= b);
    } else if a.len() == 0 || b.len() == 0 {
        // The last photo of the one that is not empty is selected by its own
        // capture time, and the empty one has nothing to select.
        let full = if a.len() == 0 {
            b
        } else {
            a
        };
        let none = if a.len() == 0 {
            a
        } else {
            b
        };
        let y = full.last();
        assert(full =~= full.drop_last().push(y));
        lemma_filter_push(full.drop_last(), y, y.captured_at);
        assert(full.filter(taken_at(y.captured_at)).len() > 0);
        lemma_filter_none(none, y.captured_at);
        assert(a.filter(taken_at(y.captured_at)) == b.filter(taken_at(y.captured_at)));
    } else {
        let x = a.last();
        let y = b.last();
        let front_a = a.drop_last();
        let front_b = b.drop_last();
        assert(a =~= front_a.push(x));
        assert(b =~= front_b.push(y));
        lemma_filter_push(front_a, x, x.captured_at);
        lemma_filter_push(front_b, y, y.captured_at);
        // x is in b and y is in a, so neither is older than the other.
        assert(a.filter(taken_at(x.captured_at)).last() == x);
        assert(b.filter(taken_at(x.captured_at)).contains(x)) by {
            let selected = b.filter(taken_at(x.captured_at));
            assert(selected == a.filter(taken_at(x.captured_at)));
            assert(selected[selected.len() - 1] == x);
        }
        lemma_selected_is_member(b, x.captured_at, x);
        assert(b.filter(taken_at(y.captured_at)).last() == y);
        assert(a.filter(taken_at(y.captured_at)).contains(y)) by {
            let selected = a.filter(taken_at(y.captured_at));
            assert(selected == b.filter(taken_at(y.captured_at)));
            assert(selected[selected.len() - 1] == y);
        }
        lemma_selected_is_member(a, y.captured_at, y);
        let j = choose|j: int| 0 <= j < b.len() && b[j] == x;
        let i = choose|i: int| 0 <= i < a.len() && a[i] == y;
        assert(!x.captured_at.before(y.captured_at)) by {
            if j < b.len() - 1 {
                assert(!b[j].captured_at.before(b[b.len() - 1].captured_at));
            }
        }
        assert(!y.captured_at.before(x.captured_at)) by {
            if i < a.len() - 1 {
                assert(!a[i].captured_at.before(a[a.len() - 1].captured_at));
            }
        }
        assert(x.captured_at == y.captured_at);
        assert(x == y);
        assert forall|t: Timestamp| front_a.filter(#[trigger] taken_at(t)) == front_b.filter(
            taken_at(t),
        ) by {
            lemma_filter_push(front_a, x, t);
            lemma_filter_push(front_b, y, t);
            assert(a.filter(taken_at(t)) == b.filter(taken_at(t)));
            if x.captured_at == t {
                let fa = front_a.filter(taken_at(t));
                let fb = front_b.filter(taken_at(t));
                assert(fa.push(x).drop_last() =~= fa);
                assert(fb.push(x).drop_last() =~= fb);
            }
        }
        assert forall|p: int, q: int| 0 <= p < q < front_a.len() implies !front_a[p].captured_at.before(
            front_a[q].captured_at,
        ) by {
            assert(front_a[p] == a[p] && front_a[q] == a[q]);
        }
        assert forall|p: int, q: int| 0 <= p < q < front_b.len() implies !front_b[p].captured_at.before(
            front_b[q].captured_at,
        ) by {
            assert(front_b[p] == b[p] && front_b[q] == b[q]);
        }
        lemma_stable_order_is_unique(front_a, front_b);
    }
}

/// The two sequences hold groups of the same dates with the same photos.
pub open spec fn same_groups(a: Seq<DayGroup>, b: Seq<DayGroup>) -> bool {
    &&& a.len() == b.len()
    &&& forall|g: int|
        0 <= g < a.len() ==> (#[trigger] a[g]).date == b[g].date && a[g].photos@ == b[g].photos@
}

/// Every group is well formed.
pub open spec fn all_wf(groups: Seq<DayGroup>) -> bool {
    forall|g: int| 0 <= g < groups.len() ==> (#[trigger] groups[g]).wf()
}

/// Every photo among all photos of well-formed groups is of the date of
/// one of the groups.
proof fn lemma_flat_photo_has_group(groups: Seq<DayGroup>, i: int) -> (g: int)
    requires
        all_wf(groups),
        0 <= i < all_photos(groups).len(),
    ensures
        0 <= g < groups.len(),
        all_photos(groups)[i].captured_at.date == groups[g].date,
    decreases groups.len(),
{
    let front = groups.drop_last();
    let last = groups.last();
    assert(last.wf());
    if i < all_photos(front).len() {
        assert forall|g: int| 0 <= g < front.len() implies (#[trigger] front[g]).wf() by {
            assert(front[g] == groups[g]);
        }
        let g = lemma_flat_photo_has_group(front, i);
        assert(front[g] == groups[g]);
        g
    } else {
        assert(all_photos(groups)[i] == last.photos@[i - all_photos(front).len()]);
        groups.len() - 1
    }
}

/// Well-formed groups of descending dates are determined by the sequence of
/// all their photos: there is one way only to cut it by date.
pub proof fn lemma_cut_by_date_is_unique(a: Seq<DayGroup>, b: Seq<DayGroup>)
    requires
        all_wf(a),
        all_wf(b),
        dates_descend(a),
        dates_descend(b),
        all_photos(a) == all_photos(b),
    ensures
        same_groups(a, b),
    decreases a.len() + b.len(),
{
    if a.len() == 0 || b.len() == 0 {
        if a.len() > 0 {
            assert(a.last().wf());
            assert(all_photos(a).len() >= a.last().photos@.len());
            assert(all_photos(b).len() == 0);
        }
        if b.len() > 0 {
            assert(b.last().wf());
            assert(all_photos(b).len() >= b.last().photos@.len());
            assert(all_photos(a).len() == 0);
        }
    } else {
        let flat = all_photos(a);
        let front_a = a.drop_last();
        let front_b = b.drop_last();
        let last_a = a.last();
        let last_b = b.last();
        let na = last_a.photos@.len() as int;
        let nb = last_b.photos@.len() as int;
        let n = flat.len() as int;
        assert(last_a.wf() && last_b.wf());
        assert(flat == all_photos(front_a) + last_a.photos@);
        assert(flat == all_photos(front_b) + last_b.photos@);
        assert(flat[n - 1] == last_a.photos@[na - 1]);
        assert(flat[n - 1] == last_b.photos@[nb - 1]);
        assert(last_a.date == last_b.date);
        assert forall|g: int| 0 <= g < front_a.len() implies (#[trigger] front_a[g]).wf() by {
            assert(front_a[g] == a[g]);
        }
        assert forall|g: int| 0 <= g < front_b.len() implies (#[trigger] front_b[g]).wf() by {
            assert(front_b[g] == b[g]);
        }
        if na < nb {
            let g = lemma_flat_photo_has_group(front_a, n - na - 1);
            assert(all_photos(front_a)[n - na - 1] == flat[n - na - 1]);
            assert(flat[n - na - 1] == last_b.photos@[nb - na - 1]);
            assert(front_a[g] == a[g]);
            assert(a[a.len() - 1].date.before(a[g].date));
            assert(!last_a.date.before(last_a.date));
            assert(false);
        }
        if nb < na {
            let g = lemma_flat_photo_has_group(front_b, n - nb - 1);
            assert(all_photos(front_b)[n - nb - 1] == flat[n - nb - 1]);
            assert(flat[n - nb - 1] == last_a.photos@[na - nb - 1]);
            assert(front_b[g] == b[g]);
            assert(b[b.len() - 1].date.before(b[g].date));
            assert(!last_b.date.before(last_b.date));
            assert(false);
        }
        assert(last_a.photos@ =~= flat.subrange(n - na, n));
        assert(last_b.photos@ =~= flat.subrange(n - nb, n));
        assert(all_photos(front_a) =~= flat.take(n - na));
        assert(all_photos(front_b) =~= flat.take(n - nb));
        assert forall|i: int, j: int| 0 <= i < j < front_a.len() implies front_a[j].date.before(
            front_a[i].date,
        ) by {
            assert(front_a[i] == a[i] && front_a[j] == a[j]);
        }
        assert forall|i: int, j: int| 0 <= i < j < front_b.len() implies front_b[j].date.before(
            front_b[i].date,
        ) by {
            assert(front_b[i] == b[i] && front_b[j] == b[j]);
        }
        lemma_cut_by_date_is_unique(front_a, front_b);
        assert forall|g: int| 0 <= g < a.len() implies (#[trigger] a[g]).date == b[g].date
            && a[g].photos@ == b[g].photos@ by {
            if g < front_a.len() {
                assert(a[g] == front_a[g]);
                assert(b[g] == front_b[g]);
            }
        }
    }
}

/// A set of photos has one grouping by capture date.
pub proof fn lemma_day_grouping_is_unique(input: Seq<Photo>, a: Seq<DayGroup>, b: Seq<DayGroup>)
    requires
        is_day_grouping(input, a),
        is_day_grouping(input, b),
    ensures
        same_groups(a, b),
{
    assert forall|t: Timestamp| all_photos(a).filter(#[trigger] taken_at(t)) == all_photos(
        b,
    ).filter(taken_at(t)) by {
        assert(all_photos(a).filter(taken_at(t)) == input.filter(taken_at(t)));
        assert(all_photos(b).filter(taken_at(t)) == input.filter(taken_at(t)));
    }
    lemma_stable_order_is_unique(all_photos(a), all_photos(b));
    lemma_cut_by_date_is_unique(a, b);
}

/// The two sequences hold pages of the same groups.
pub open spec fn same_pages(a: Seq<Page>, b: Seq<Page>) -> bool {
    &&& a.len() == b.len()
    &&& forall|k: int| 0 <= k < a.len() ==> same_groups((#[trigger] a[k]).groups@, b[k].groups@)
}

/// Groups of the same photos hold as many photos.
proof fn lemma_photo_count_same(a: Seq<DayGroup>, b: Seq<DayGroup>)
    requires
        same_groups(a, b),
    ensures
        photo_count(a) == photo_count(b),
    decreases a.len(),
{
    if a.len() > 0 {
        let front_a = a.drop_last();
        let front_b = b.drop_last();
        assert(a.last().photos@ == b.last().photos@);
        assert forall|g: int| 0 <= g < front_a.len() implies (#[trigger] front_a[g]).date
            == front_b[g].date && front_a[g].photos@ == front_b[g].photos@ by {
            assert(front_a[g] == a[g]);
            assert(front_b[g] == b[g]);
        }
        lemma_photo_count_same(front_a, front_b);
    }
}

/// The first `k` groups hold no more photos than all of them, and one
/// group more adds the photos of that group.
proof fn lemma_photo_count_prefix(s: Seq<DayGroup>, k: int)
    requires
        0 <= k <= s.len(),
    ensures
        photo_count(s.take(k)) <= photo_count(s),
        k < s.len() ==> photo_count(s.take(k + 1)) == photo_count(s.take(k)) + s[k].photos@.len(),
    decreases s.len() - k,
{
    if k == s.len() {
        assert(s.take(k) =~= s);
    } else {
        assert(s.take(k + 1).drop_last() =~= s.take(k));
        assert(s.take(k + 1).last() == s[k]);
        lemma_photo_count_prefix(s, k + 1);
    }
}

/// All groups are those of the first page, then those of the other pages.
proof fn lemma_all_groups_front(pages: Seq<Page>)
    requires
        pages.len() > 0,
    ensures
        all_groups(pages) == pages[0].groups@ + all_groups(pages.drop_first()),
    decreases pages.len(),
{
    let rest = pages.drop_first();
    if pages.len() == 1 {
        assert(pages.drop_last() =~= Seq::<Page>::empty());
        assert(rest =~= Seq::<Page>::empty());
        assert(all_groups(pages) =~= pages[0].groups@ + all_groups(rest));
    } else {
        let front = pages.drop_last();
        lemma_all_groups_front(front);
        assert(front.drop_first() =~= rest.drop_last());
        assert(rest.last() == pages.last());
        assert(front[0] == pages[0]);
        assert(all_groups(pages) =~= pages[0].groups@ + all_groups(rest));
    }
}

/// What is left of a pagination after its first page is a pagination of
/// the groups that are left.
proof fn lemma_pagination_rest(pages: Seq<Page>, max: nat)
    requires
        pages.len() > 0,
        is_pagination(all_groups(pages), pages, max),
    ensures
        is_pagination(all_groups(pages.drop_first()), pages.drop_first(), max),
{
    let rest = pages.drop_first();
    assert forall|k: int| 0 <= k < rest.len() implies (#[trigger] rest[k]).groups@.len() > 0 by {
        assert(rest[k] == pages[k + 1]);
    }
    assert forall|k: int|
        0 <= k < rest.len() && (#[trigger] rest[k]).groups@.len() > 1 implies photo_count(
        rest[k].groups@,
    ) <= max by {
        assert(rest[k] == pages[k + 1]);
    }
    assert forall|k: int| 0 <= k && k + 1 < rest.len() implies photo_count(
        (#[trigger] rest[k]).groups@,
    ) + rest[k + 1].groups@[0].photos@.len() > max by {
        assert(rest[k] == pages[k + 1]);
        assert(rest[k + 1] == pages[k + 2]);
    }
}

/// Where the first page of one pagination is shorter than that of another
/// pagination of the same groups, the greedy rule is broken: so it is not.
proof fn lemma_first_page_not_shorter(p: Seq<Page>, q: Seq<Page>, max: nat)
    requires
        p.len() > 0,
        q.len() > 0,
        is_pagination(all_groups(p), p, max),
        is_pagination(all_groups(q), q, max),
        same_groups(all_groups(p), all_groups(q)),
    ensures
        p[0].groups@.len() >= q[0].groups@.len(),
{
    let a = p[0].groups@;
    let b = q[0].groups@;
    let m = a.len() as int;
    if a.len() < b.len() {
        let rest = p.drop_first();
        lemma_all_groups_front(p);
        lemma_all_groups_front(q);
        assert(all_groups(rest).len() > 0);
        assert(rest.len() > 0);
        lemma_all_groups_front(rest);
        assert(rest[0] == p[1]);
        assert(p[1].groups@.len() > 0);
        let next = p[1].groups@[0];
        assert(all_groups(p)[m] == next);
        assert(all_groups(q)[m] == b[m]);
        assert(next.photos@ == b[m].photos@);
        assert(photo_count(p[0].groups@) + p[1].groups@[0].photos@.len() > max);
        assert(photo_count(q[0].groups@) <= max);
        lemma_photo_count_prefix(b, m);
        lemma_photo_count_prefix(b, m + 1);
        assert forall|g: int| 0 <= g < a.len() implies (#[trigger] a[g]).date == b.take(m)[g].date
            && a[g].photos@ == b.take(m)[g].photos@ by {
            assert(a[g] == all_groups(p)[g]);
            assert(b.take(m)[g] == all_groups(q)[g]);
        }
        lemma_photo_count_same(a, b.take(m));
        assert(false);
    }
}

/// A sequence of day groups has one greedy packing into pages.
pub proof fn lemma_pagination_is_unique(p: Seq<Page>, q: Seq<Page>, max: nat)
    requires
        is_pagination(all_groups(p), p, max),
        is_pagination(all_groups(q), q, max),
        same_groups(all_groups(p), all_groups(q)),
    ensures
        same_pages(p, q),
    decreases p.len() + q.len(),
{
    if p.len() == 0 || q.len() == 0 {
        if p.len() > 0 {
            assert(p.last().groups@.len() > 0);
            assert(all_groups(p).len() >= p.last().groups@.len());
            assert(all_groups(q).len() == 0);
        }
        if q.len() > 0 {
            assert(q.last().groups@.len() > 0);
            assert(all_groups(q).len() >= q.last().groups@.len());
            assert(all_groups(p).len() == 0);
        }
    } else {
        let a = p[0].groups@;
        let b = q[0].groups@;
        let rest_p = p.drop_first();
        let rest_q = q.drop_first();
        lemma_first_page_not_shorter(p, q, max);
        assert(same_groups(all_groups(q), all_groups(p))) by {
            assert forall|g: int| 0 <= g < all_groups(q).len() implies (#[trigger] all_groups(
                q,
            )[g]).date == all_groups(p)[g].date && all_groups(q)[g].photos@ == all_groups(
                p,
            )[g].photos@ by {
                assert(all_groups(p)[g].date == all_groups(q)[g].date);
            }
        }
        lemma_first_page_not_shorter(q, p, max);
        lemma_all_groups_front(p);
        lemma_all_groups_front(q);
        let m = a.len() as int;
        assert forall|g: int| 0 <= g < a.len() implies (#[trigger] a[g]).date == b[g].date
            && a[g].photos@ == b[g].photos@ by {
            assert(a[g] == all_groups(p)[g]);
            assert(b[g] == all_groups(q)[g]);
        }
        assert forall|g: int| 0 <= g < all_groups(rest_p).len() implies (#[trigger] all_groups(
            rest_p,
        )[g]).date == all_groups(rest_q)[g].date && all_groups(rest_p)[g].photos@
            == all_groups(rest_q)[g].photos@ by {
            assert(all_groups(rest_p)[g] == all_groups(p)[m + g]);
            assert(all_groups(rest_q)[g] == all_groups(q)[m + g]);
        }
        lemma_pagination_rest(p, max);
        lemma_pagination_rest(q, max);
        lemma_pagination_is_unique(rest_p, rest_q, max);
        assert forall|k: int| 0 <= k < p.len() implies same_groups(
            (#[trigger] p[k]).groups@,
            q[k].groups@,
        ) by {
            if k > 0 {
                assert(p[k] == rest_p[k - 1]);
                assert(q[k] == rest_q[k - 1]);
            }
        }
    }
}

/// A set of photos has one gallery under a given maximum.
pub proof fn lemma_gallery_is_unique(input: Seq<Photo>, p: Seq<Page>, q: Seq<Page>, max: nat)
    requires
        is_gallery(input, p, max),
        is_gallery(input, q, max),
    ensures
        same_pages(p, q),
{
    lemma_day_grouping_is_unique(input, all_groups(p), all_groups(q));
    lemma_pagination_is_unique(p, q, max);
}

/// Groups of the same dates and photos are rendered alike.
proof fn lemma_groups_html_same(root: Seq<char>, a: Seq<DayGroup>, b: Seq<DayGroup>)
    requires
        same_groups(a, b),
    ensures
        groups_html(root, a) == groups_html(root, b),
    decreases a.len(),
{
    if a.len() > 0 {
        let front_a = a.drop_last();
        let front_b = b.drop_last();
        assert(a.last().date == b.last().date && a.last().photos@ == b.last().photos@);
        assert(group_html(root, a.last()) == group_html(root, b.last()));
        assert forall|g: int| 0 <= g < front_a.len() implies (#[trigger] front_a[g]).date
            == front_b[g].date && front_a[g].photos@ == front_b[g].photos@ by {
            assert(front_a[g] == a[g]);
            assert(front_b[g] == b[g]);
        }
        lemma_groups_html_same(root, front_a, front_b);
    }
}

/// Pages of the same groups make the same navigation entries.
proof fn lemma_nav_entries_same(p: Seq<Page>, q: Seq<Page>)
    requires
        same_pages(p, q),
        forall|k: int| 0 <= k < p.len() ==> (#[trigger] p[k]).groups@.len() > 0,
    ensures
        nav_entries(p) == nav_entries(q),
    decreases p.len(),
{
    if p.len() > 0 {
        let front_p = p.drop_last();
        let front_q = q.drop_last();
        let a = p.last().groups@;
        let b = q.last().groups@;
        assert(same_groups(a, b));
        assert(a.len() > 0);
        assert(a.first().date == b.first().date);
        assert(a.last().date == b.last().date);
        assert(page_label(a) == page_label(b));
        assert forall|k: int| 0 <= k < front_p.len() implies same_groups(
            (#[trigger] front_p[k]).groups@,
            front_q[k].groups@,
        ) by {
            assert(front_p[k] == p[k]);
            assert(front_q[k] == q[k]);
        }
        assert forall|k: int| 0 <= k < front_p.len() implies (#[trigger] front_p[k]).groups@.len()
            > 0 by {
            assert(front_p[k] == p[k]);
        }
        lemma_nav_entries_same(front_p, front_q);
    }
}

/// A run is repeatable: whatever pages and documents two runs give for the
/// same photos, output directory and maximum, the pages hold the same
/// groups, and the documents have the same paths and the same text.
pub proof fn lemma_run_is_repeatable(
    input: Seq<Photo>,
    root: Seq<char>,
    max: nat,
    first_pages: Seq<Page>,
    first_documents: Seq<Document>,
    second_pages: Seq<Page>,
    second_documents: Seq<Document>,
)
    requires
        is_gallery(input, first_pages, max),
        is_rendering(root, first_pages, first_documents),
        is_gallery(input, second_pages, max),
        is_rendering(root, second_pages, second_documents),
    ensures
        same_pages(first_pages, second_pages),
        first_documents.len() == second_documents.len(),
        forall|k: int|
            0 <= k < first_documents.len() ==> (#[trigger] first_documents[k]).path@
                == second_documents[k].path@ && first_documents[k].html@
                == second_documents[k].html@,
{
    lemma_gallery_is_unique(input, first_pages, second_pages, max);
    lemma_nav_entries_same(first_pages, second_pages);
    assert(navigation_html(first_pages) == navigation_html(second_pages));
    assert forall|k: int| 0 <= k < first_documents.len() implies (#[trigger] first_documents[k]).path@
        == second_documents[k].path@ && first_documents[k].html@ == second_documents[k].html@ by {
        assert(same_groups(first_pages[k].groups@, second_pages[k].groups@));
        lemma_groups_html_same(root, first_pages[k].groups@, second_pages[k].groups@);
    }
}

} // verus!
