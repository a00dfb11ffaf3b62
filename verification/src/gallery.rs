//! A whole run on photos that are already read: grouping, pagination and
//! the documents to write.

use vstd::prelude::*;
use crate::group::{all_photos, lemma_stable_order_keeps_photos, DayGroup};
use crate::options::Options;
use crate::paginate::{all_groups, build_pages, is_gallery, Page, MAX_PHOTOS_PER_PAGE};
use crate::paths::path_join;
use crate::photo::Photo;
use crate::render::{
    generate_page,
    groups_under,
    navigation,
    navigation_html,
    page_file_name,
    page_html,
    photo_under,
    photos_under,
    Document,
    RenderError,
};

verus! {

/// The pages of a run and the document of each.
#[derive(Clone, Debug, PartialEq, Eq)]
pub struct Gallery {
    pub pages: Vec<Page>,
    pub documents: Vec<Document>,
}

/// Both derivatives of every photo on every page lie under `root`.
pub open spec fn pages_under(root: Seq<char>, pages: Seq<Page>) -> bool {
    forall|k: int| 0 <= k < pages.len() ==> groups_under(root, (#[trigger] pages[k]).groups@)
}

/// `documents` holds, for each page in order, the document of that page:
/// in the file that the page's index names, under `root`, with the
/// navigation list of all pages.
pub open spec fn is_rendering(root: Seq<char>, pages: Seq<Page>, documents: Seq<Document>) -> bool {
    &&& documents.len() == pages.len()
    &&& forall|k: int|
        0 <= k < documents.len() ==> {
            &&& (#[trigger] documents[k]).path@ == path_join(root, page_file_name(k as nat))
            &&& documents[k].html@ == page_html(
                root,
                pages[k].groups@,
                k as nat,
                navigation_html(pages),
            )
        }
}

/// Renders every page, with one navigation list shared by all.
pub fn render_pages(pages: &Vec<Page>, options: &Options) -> (r: Result<
    Vec<Document>,
    RenderError,
>)
    requires
        forall|k: int| 0 <= k < pages@.len() ==> (#[trigger] pages@[k]).groups@.len() > 0,
    ensures
        r is Ok <==> pages_under(options.output_dir@, pages@),
        r matches Ok(documents) ==> is_rendering(options.output_dir@, pages@, documents@),
        r matches Err(e) ==> e == RenderError::OutsideOutputDir,
{
    let nav = navigation(pages);
    let mut documents: Vec<Document> = Vec::new();
    let mut index: usize = 0;
    while index < pages.len()
        invariant
            index <= pages@.len(),
            nav@ == navigation_html(pages@),
            documents@.len() == index,
            forall|k: int| 0 <= k < index ==> groups_under(
                options.output_dir@,
                (#[trigger] pages@[k]).groups@,
            ),
            forall|k: int|
                0 <= k < index ==> {
                    &&& (#[trigger] documents@[k]).path@ == path_join(
                        options.output_dir@,
                        page_file_name(k as nat),
                    )
                    &&& documents@[k].html@ == page_html(
                        options.output_dir@,
                        pages@[k].groups@,
                        k as nat,
                        navigation_html(pages@),
                    )
                },
        decreases pages@.len() - index,
    {
        match generate_page(&pages[index], options, index, nav.as_str()) {
            Ok(document) => {
                documents.push(document);
            },
            Err(e) => {
                return Err(e);
            },
        }
        index = index + 1;
    }
    Ok(documents)
}

/// Derivatives lie under `root` for the photos of `groups` taken group by
/// group exactly when they do for all of them in one sequence.
proof fn lemma_groups_under_flat(root: Seq<char>, groups: Seq<DayGroup>)
    ensures
        groups_under(root, groups) <==> photos_under(root, all_photos(groups)),
    decreases groups.len(),
{
    if groups.len() > 0 {
        let front = groups.drop_last();
        let last = groups.last();
        lemma_groups_under_flat(root, front);
        let flat = all_photos(groups);
        assert(flat == all_photos(front) + last.photos@);
        if groups_under(root, groups) {
            assert forall|g: int| 0 <= g < front.len() implies photos_under(
                root,
                (#[trigger] front[g]).photos@,
            ) by {
                assert(front[g] == groups[g]);
            }
            assert(photos_under(root, last.photos@));
            assert forall|i: int| 0 <= i < flat.len() implies photo_under(
                root,
                #[trigger] flat[i],
            ) by {
                if i < all_photos(front).len() {
                    assert(flat[i] == all_photos(front)[i]);
                } else {
                    assert(flat[i] == last.photos@[i - all_photos(front).len()]);
                }
            }
        }
        if photos_under(root, flat) {
            assert forall|i: int| 0 <= i < all_photos(front).len() implies photo_under(
                root,
                #[trigger] all_photos(front)[i],
            ) by {
                assert(all_photos(front)[i] == flat[i]);
            }
            assert forall|i: int| 0 <= i < last.photos@.len() implies photo_under(
                root,
                #[trigger] last.photos@[i],
            ) by {
                assert(last.photos@[i] == flat[all_photos(front).len() + i]);
            }
            assert forall|g: int| 0 <= g < groups.len() implies photos_under(
                root,
                (#[trigger] groups[g]).photos@,
            ) by {
                if g < front.len() {
                    assert(groups[g] == front[g]);
                }
            }
        }
    }
}

/// Derivatives lie under `root` for the groups of `pages` taken page by
/// page exactly when they do for all groups in one sequence.
proof fn lemma_pages_under_flat(root: Seq<char>, pages: Seq<Page>)
    ensures
        pages_under(root, pages) <==> groups_under(root, all_groups(pages)),
    decreases pages.len(),
{
    if pages.len() > 0 {
        let front = pages.drop_last();
        let last = pages.last();
        lemma_pages_under_flat(root, front);
        let flat = all_groups(pages);
        assert(flat == all_groups(front) + last.groups@);
        if pages_under(root, pages) {
            assert forall|k: int| 0 <= k < front.len() implies groups_under(
                root,
                (#[trigger] front[k]).groups@,
            ) by {
                assert(front[k] == pages[k]);
            }
            assert(groups_under(root, last.groups@));
            assert forall|g: int| 0 <= g < flat.len() implies photos_under(
                root,
                (#[trigger] flat[g]).photos@,
            ) by {
                if g < all_groups(front).len() {
                    assert(flat[g] == all_groups(front)[g]);
                } else {
                    assert(flat[g] == last.groups@[g - all_groups(front).len()]);
                }
            }
        }
        if groups_under(root, flat) {
            assert forall|g: int| 0 <= g < all_groups(front).len() implies photos_under(
                root,
                (#[trigger] all_groups(front)[g]).photos@,
            ) by {
                assert(all_groups(front)[g] == flat[g]);
            }
            assert forall|g: int| 0 <= g < last.groups@.len() implies photos_under(
                root,
                (#[trigger] last.groups@[g]).photos@,
            ) by {
                assert(last.groups@[g] == flat[all_groups(front).len() + g]);
            }
            assert forall|k: int| 0 <= k < pages.len() implies groups_under(
                root,
                (#[trigger] pages[k]).groups@,
            ) by {
                if k < front.len() {
                    assert(pages[k] == front[k]);
                }
            }
        }
    }
}

/// Two sequences that hold the same photos agree on whether all
/// derivatives lie under `root`.
proof fn lemma_photos_under_same_photos(root: Seq<char>, a: Seq<Photo>, b: Seq<Photo>)
    requires
        a.to_multiset() == b.to_multiset(),
        photos_under(root, a),
    ensures
        photos_under(root, b),
{
    a.to_multiset_ensures();
    b.to_multiset_ensures();
    assert forall|i: int| 0 <= i < b.len() implies photo_under(
        root,
        #[trigger] b[i],
    ) by {
        assert(b.contains(b[i]));
        assert(a.to_multiset().count(b[i]) > 0);
        assert(a.contains(b[i]));
        let j = choose|j: int| 0 <= j < a.len() && a[j] == b[i];
        assert(photo_under(root, a[j]));
    }
}

/// The pages of a gallery can be rendered exactly when every derivative of
/// every photo that came in lies under `root`.
pub proof fn lemma_gallery_under(root: Seq<char>, input: Seq<Photo>, pages: Seq<Page>, max: nat)
    requires
        is_gallery(input, pages, max),
    ensures
        pages_under(root, pages) <==> photos_under(root, input),
{
    let flat = all_photos(all_groups(pages));
    lemma_pages_under_flat(root, pages);
    lemma_groups_under_flat(root, all_groups(pages));
    lemma_stable_order_keeps_photos(input, flat);
    if photos_under(root, input) {
        lemma_photos_under_same_photos(root, input, flat);
    }
    if photos_under(root, flat) {
        lemma_photos_under_same_photos(root, flat, input);
    }
}

/// Runs the pipeline on the photos of a run: groups them by capture date,
/// packs the groups into pages most recent first, and renders the document
/// of every page. Fails, with no document, where a derivative of some photo
/// does not lie under the output directory.
pub fn generate(photos: Vec<Photo>, options: &Options) -> (r: Result<Gallery, RenderError>)
    ensures
        r is Ok <==> photos_under(options.output_dir@, photos@),
        r matches Ok(gallery) ==> {
            &&& is_gallery(photos@, gallery.pages@, MAX_PHOTOS_PER_PAGE as nat)
            &&& is_rendering(options.output_dir@, gallery.pages@, gallery.documents@)
        },
        r matches Err(e) ==> e == RenderError::OutsideOutputDir,
{
    let ghost input = photos@;
    let pages = build_pages(photos, MAX_PHOTOS_PER_PAGE);
    proof {
        lemma_gallery_under(options.output_dir@, input, pages@, MAX_PHOTOS_PER_PAGE as nat);
    }
    match render_pages(&pages, options) {
        Ok(documents) => Ok(Gallery { pages, documents }),
        Err(e) => Err(e),
    }
}

} // verus!
