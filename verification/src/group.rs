//! Grouping photos by capture date: a stable most-recent-first order, cut
//! into one group per calendar date.

use vstd::prelude::*;
use crate::photo::Photo;
use crate::time::{Date, Timestamp};

verus! {

/// Selects the photos captured at exactly `t`.
pub open spec fn taken_at(t: Timestamp) -> spec_fn(Photo) -> bool {
    |p: Photo| p.captured_at == t
}

/// Most recent capture first; equal capture times may follow each other.
pub open spec fn newest_first(photos: Seq<Photo>) -> bool {
    forall|i: int, j: int|
        0 <= i < j < photos.len() ==> !photos[i].captured_at.before(photos[j].captured_at)
}

/// `sorted` holds the photos of `input` most recent first, and those that
/// share a capture time in the order in which `input` has them.
pub open spec fn is_stable_newest_first(input: Seq<Photo>, sorted: Seq<Photo>) -> bool {
    &&& newest_first(sorted)
    &&& forall|t: Timestamp| sorted.filter(#[trigger] taken_at(t)) == input.filter(taken_at(t))
}

/// Appending a photo adds it to the photos of its own capture time and to
/// no others.
pub proof fn lemma_filter_push(s: Seq<Photo>, p: Photo, t: Timestamp)
    ensures
        s.push(p).filter(taken_at(t)) == if p.captured_at == t {
            s.filter(taken_at(t)).push(p)
        } else {
            s.filter(taken_at(t))
        },
{
    reveal(Seq::filter);
    assert(s.push(p).drop_last() =~= s);
}

/// Where no photo was captured at `t`, none is selected.
pub proof fn lemma_filter_none(s: Seq<Photo>, t: Timestamp)
    requires
        forall|i: int| 0 <= i < s.len() ==> s[i].captured_at != t,
    ensures
        s.filter(taken_at(t)) == Seq::<Photo>::empty(),
    decreases s.len(),
{
    reveal(Seq::filter);
    if s.len() > 0 {
        lemma_filter_none(s.drop_last(), t);
    }
}

/// Putting a photo behind all that are as recent or more recent, and in
/// front of the first that is older, keeps a stable most-recent-first order.
proof fn lemma_insert_keeps_stable_order(seen: Seq<Photo>, sorted: Seq<Photo>, p: Photo, k: int)
    requires
        is_stable_newest_first(seen, sorted),
        0 <= k <= sorted.len(),
        forall|j: int| 0 <= j < k ==> !sorted[j].captured_at.before(p.captured_at),
        k < sorted.len() ==> sorted[k].captured_at.before(p.captured_at),
    ensures
        is_stable_newest_first(seen.push(p), sorted.insert(k, p)),
{
    let grown = sorted.insert(k, p);
    let front = sorted.take(k);
    let back = sorted.skip(k);
    assert forall|i: int, j: int| 0 <= i < j < grown.len() implies !grown[i].captured_at.before(
        grown[j].captured_at,
    ) by {
        if j > k {
            assert(grown[j] == sorted[j - 1]);
            assert(!sorted[k].captured_at.before(sorted[j - 1].captured_at) || j - 1 == k);
        }
        if i < k {
            assert(grown[i] == sorted[i]);
        } else if i > k {
            assert(grown[i] == sorted[i - 1]);
        }
    }
    assert(sorted =~= front + back);
    assert(grown =~= front.push(p) + back);
    assert forall|t: Timestamp|
        grown.filter(#[trigger] taken_at(t)) == seen.push(p).filter(taken_at(t)) by {
        let f = taken_at(t);
        Seq::filter_distributes_over_add(front, back, f);
        Seq::filter_distributes_over_add(front.push(p), back, f);
        lemma_filter_push(front, p, t);
        lemma_filter_push(seen, p, t);
        assert(sorted.filter(f) == seen.filter(f));
        if p.captured_at == t {
            assert forall|i: int| 0 <= i < back.len() implies back[i].captured_at != t by {
                assert(back[i] == sorted[k + i]);
                assert(!sorted[k].captured_at.before(sorted[k + i].captured_at) || i == 0);
            }
            lemma_filter_none(back, t);
            assert(front.filter(f) + Seq::<Photo>::empty() =~= front.filter(f));
            assert(front.filter(f).push(p) + Seq::<Photo>::empty() =~= front.filter(f).push(p));
        }
    }
}

/// Orders photos most recent first. Photos with the same capture time keep
/// the order in which they came.
pub fn sort_newest_first(photos: Vec<Photo>) -> (sorted: Vec<Photo>)
    ensures
        is_stable_newest_first(photos@, sorted@),
{
    let mut sorted: Vec<Photo> = Vec::new();
    proof {
        assert(photos@.take(0) =~= Seq::<Photo>::empty());
        assert forall|t: Timestamp|
            sorted@.filter(#[trigger] taken_at(t)) == photos@.take(0).filter(taken_at(t)) by {
            assert(sorted@ =~= photos@.take(0));
        }
    }
    for p in it: photos
        invariant
            it.seq() == photos@,
            is_stable_newest_first(photos@.take(it.index() as int), sorted@),
    {
        let mut k: usize = 0;
        while k < sorted.len() && !sorted[k].captured_at.is_before(&p.captured_at)
            invariant
                k <= sorted.len(),
                forall|j: int| 0 <= j < k ==> !sorted@[j].captured_at.before(p.captured_at),
            decreases sorted.len() - k,
        {
            k = k + 1;
        }
        proof {
            lemma_insert_keeps_stable_order(
                photos@.take(it.index() as int),
                sorted@,
                p,
                k as int,
            );
            assert(photos@.take(it.index() + 1) =~= photos@.take(it.index() as int).push(p));
        }
        sorted.insert(k, p);
    }
    proof {
        assert(photos@.take(photos@.len() as int) =~= photos@);
    }
    sorted
}

/// All photos that share one capture date, most recent first.
#[derive(Clone, Debug, PartialEq, Eq)]
pub struct DayGroup {
    pub date: Date,
    pub photos: Vec<Photo>,
}

impl DayGroup {
    /// The group is not empty, every photo in it was captured on the group's
    /// date, and the photos stand most recent first.
    pub open spec fn wf(self) -> bool {
        &&& self.photos@.len() > 0
        &&& forall|i: int|
            0 <= i < self.photos@.len() ==> (#[trigger] self.photos@[i]).captured_at.date
                == self.date
        &&& newest_first(self.photos@)
    }
}

/// The photos of all groups, in the order of the groups.
pub open spec fn all_photos(groups: Seq<DayGroup>) -> Seq<Photo>
    decreases groups.len(),
{
    if groups.len() == 0 {
        Seq::empty()
    } else {
        all_photos(groups.drop_last()) + groups.last().photos@
    }
}

/// Every group is of a strictly earlier date than the groups in front of it.
pub open spec fn dates_descend(groups: Seq<DayGroup>) -> bool {
    forall|i: int, j: int| 0 <= i < j < groups.len() ==> groups[j].date.before(groups[i].date)
}

/// `groups` is the grouping of `input` by capture date: one well-formed
/// group per date that occurs, most recent date first, which together hold
/// the photos of `input` in stable most-recent-first order.
pub open spec fn is_day_grouping(input: Seq<Photo>, groups: Seq<DayGroup>) -> bool {
    &&& forall|g: int| 0 <= g < groups.len() ==> (#[trigger] groups[g]).wf()
    &&& dates_descend(groups)
    &&& is_stable_newest_first(input, all_photos(groups))
}

/// Cuts photos that stand most recent first into one group per date.
fn split_by_day(sorted: Vec<Photo>) -> (groups: Vec<DayGroup>)
    requires
        newest_first(sorted@),
    ensures
        all_photos(groups@) == sorted@,
        forall|g: int| 0 <= g < groups@.len() ==> (#[trigger] groups@[g]).wf(),
        dates_descend(groups@),
{
    let mut groups: Vec<DayGroup> = Vec::new();
    let mut current: Vec<Photo> = Vec::new();
    let mut current_date = Date { year: 0, month: 0, day: 0 };
    let ghost mut start: int = 0;
    proof {
        assert(sorted@.take(0) =~= all_photos(groups@) + current@);
    }
    for p in it: sorted
        invariant
            it.seq() == sorted@,
            newest_first(sorted@),
            0 <= start <= it.index(),
            all_photos(groups@) + current@ == sorted@.take(it.index() as int),
            current@ == sorted@.subrange(start, it.index() as int),
            forall|g: int| 0 <= g < groups@.len() ==> (#[trigger] groups@[g]).wf(),
            dates_descend(groups@),
            current@.len() == 0 ==> it.index() == 0 && groups@.len() == 0,
            forall|j: int|
                0 <= j < current@.len() ==> (#[trigger] current@[j]).captured_at.date
                    == current_date,
            current@.len() > 0 ==> forall|g: int|
                0 <= g < groups@.len() ==> current_date.before((#[trigger] groups@[g]).date),
    {
        let ghost i = it.index() as int;
        let ghost seen = sorted@.take(i);
        if current.len() > 0 && !(p.captured_at.date == current_date) {
            proof {
                let last = current@[current@.len() - 1];
                assert(last == sorted@[i - 1]);
                assert(!sorted@[i - 1].captured_at.before(sorted@[i].captured_at));
                assert(p.captured_at.date.before(current_date));
                assert forall|a: int, b: int| 0 <= a < b < current@.len() implies !current@[a].captured_at.before(
                    current@[b].captured_at,
                ) by {
                    assert(current@[a] == sorted@[start + a]);
                    assert(current@[b] == sorted@[start + b]);
                }
            }
            let ghost closed = groups@;
            let group = DayGroup { date: current_date, photos: current };
            groups.push(group);
            current = Vec::new();
            proof {
                assert(groups@.drop_last() =~= closed);
                assert(all_photos(groups@) + current@ =~= seen);
                start = i;
            }
        }
        current_date = p.captured_at.date;
        current.push(p);
        proof {
            assert(sorted@.take(i + 1) =~= seen.push(p));
            assert(all_photos(groups@) + current@ =~= sorted@.take(i + 1));
            assert(current@ =~= sorted@.subrange(start, i + 1));
        }
    }
    if current.len() > 0 {
        proof {
            assert forall|a: int, b: int| 0 <= a < b < current@.len() implies !current@[a].captured_at.before(
                current@[b].captured_at,
            ) by {
                assert(current@[a] == sorted@[start + a]);
                assert(current@[b] == sorted@[start + b]);
            }
        }
        let ghost closed = groups@;
        let ghost rest = current@;
        groups.push(DayGroup { date: current_date, photos: current });
        proof {
            assert(groups@.drop_last() =~= closed);
            assert(all_photos(groups@) == all_photos(closed) + rest);
        }
    }
    proof {
        assert(sorted@.take(sorted@.len() as int) =~= sorted@);
        assert(all_photos(groups@) =~= sorted@);
    }
    groups
}

/// Groups photos by capture date. The groups come most recent date first;
/// within a group the photos stand most recent first, and photos with the
/// same capture time keep the order in which they came.
pub fn group_by_day(photos: Vec<Photo>) -> (groups: Vec<DayGroup>)
    ensures
        is_day_grouping(photos@, groups@),
{
    let sorted = sort_newest_first(photos);
    split_by_day(sorted)
}

/// A photo occurs in a sequence as often as among the photos of its own
/// capture time in that sequence.
proof fn lemma_count_by_time(s: Seq<Photo>, x: Photo)
    ensures
        s.to_multiset().count(x) == s.filter(taken_at(x.captured_at)).to_multiset().count(x),
    decreases s.len(),
{
    let f = taken_at(x.captured_at);
    if s.len() == 0 {
        reveal(Seq::filter);
    } else {
        let rest = s.drop_last();
        let y = s.last();
        assert(s =~= rest.push(y));
        lemma_count_by_time(rest, x);
        lemma_filter_push(rest, y, x.captured_at);
        vstd::seq_lib::to_multiset_build(rest, y);
        if y.captured_at == x.captured_at {
            vstd::seq_lib::to_multiset_build(rest.filter(f), y);
        }
    }
}

/// A stable most-recent-first order holds exactly the photos it was made
/// from, each as often as it came.
pub proof fn lemma_stable_order_keeps_photos(input: Seq<Photo>, sorted: Seq<Photo>)
    requires
        is_stable_newest_first(input, sorted),
    ensures
        sorted.to_multiset() == input.to_multiset(),
{
    assert forall|x: Photo| sorted.to_multiset().count(x) == input.to_multiset().count(x) by {
        lemma_count_by_time(sorted, x);
        lemma_count_by_time(input, x);
        assert(sorted.filter(taken_at(x.captured_at)) == input.filter(taken_at(x.captured_at)));
    }
    assert(sorted.to_multiset() =~= input.to_multiset());
}

} // verus!
