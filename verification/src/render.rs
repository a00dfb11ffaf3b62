//! The documents of a gallery: one page of markup per page of day groups,
//! and the navigation list that every page carries.

use vstd::prelude::*;
use crate::group::DayGroup;
use crate::options::Options;
use crate::paginate::Page;
use crate::paths::{join, path_join, path_strip_prefix};
use crate::photo::Photo;
use crate::text::{decimal, push_decimal};

verus! {

/// The head of every document.
pub const HTML_BEGIN: &'static str =
    "\n<!DOCTYPE html>\n<html lang=\"en\">\n\n<head>\n    <meta charset=\"utf-8\">\n    <title>Photos</title>\n    <meta name=\"viewport\" content=\"width=device-width, initial-scale=1.0\">\n    <link rel=\"stylesheet\" type=\"text/css\" href=\"./css/style.css\">\n    <link rel=\"icon\" href=\"/favicon.ico\" sizes=\"any\">\n    <link rel=\"icon\" href=\"/icon.svg\" type=\"image/svg+xml\">\n    <link rel=\"apple-touch-icon\" href=\"/apple-touch-icon.png\">\n    <link rel=\"manifest\" href=\"/site.webmanifest\">\n    <meta name=\"theme-color\" content=\"#ffffff\">\n</head>\n\n";

/// The tail of every document.
pub const HTML_END: &'static str = "\n\n\n</html>\n\n";

/// What the file name of a page begins with, in front of its index.
pub const PAGE_PREFIX: &'static str = "page_";

/// What the file name of a page ends with.
pub const PAGE_SUFFIX: &'static str = ".html";

/// Opens the style rule of a page, up to the index of the page.
pub const STYLE_OPEN: &'static str = "<style>\na.page_";

/// The body of the style rule: the page's own link is bold and gray.
pub const STYLE_CLOSE: &'static str = " {\n    font-weight: bold;\n    color: gray;\n}\n</style>\n";

/// Opens the body of a document.
pub const BODY_OPEN: &'static str = "<body>\n";

/// Closes the body of a document.
pub const BODY_CLOSE: &'static str = "</body>";

/// Opens the heading of a day group.
pub const HEADING_OPEN: &'static str = "<h2>";

/// Closes the heading of a day group and opens its grid.
pub const HEADING_CLOSE: &'static str = "</h2>\n<div class=\"masonry-grid\">\n";

/// Closes the grid of a day group.
pub const GRID_CLOSE: &'static str = "</div>\n";

/// Opens the entry of a photo, up to the link to the display derivative.
pub const FIGURE_OPEN: &'static str = "<figure><a href=\"";

/// Stands between the link and the thumbnail of an entry.
pub const FIGURE_MIDDLE: &'static str = "\"><img src=\"./";

/// Closes the entry of a photo.
pub const FIGURE_CLOSE: &'static str = "\"></figure></a>\n";

/// Opens the navigation list.
pub const NAV_OPEN: &'static str = "<hr>\n<ul class=\"nav\">\n";

/// Closes the navigation list.
pub const NAV_CLOSE: &'static str = "</ul>\n";

/// Opens a navigation entry, up to the file name of the page.
pub const ENTRY_OPEN: &'static str = "<li><a href=\"";

/// Stands between the file name and the index of a navigation entry.
pub const ENTRY_CLASS: &'static str = "\" class=\"page_";

/// Stands between the index and the label of a navigation entry.
pub const ENTRY_MIDDLE: &'static str = "\">";

/// Closes a navigation entry.
pub const ENTRY_CLOSE: &'static str = "</a></li>\n";

/// Stands between the two dates of a label that spans several dates.
pub const DATE_RANGE_DASH: &'static str = "\u{2013}";

/// Why a page could not be rendered.
#[derive(Clone, Copy, Debug, PartialEq, Eq, Structural)]
pub enum RenderError {
    /// A derivative of some photo does not lie under the output directory.
    OutsideOutputDir,
}

/// A document to write: where, and what.
#[derive(Clone, Debug, PartialEq, Eq)]
pub struct Document {
    pub path: String,
    pub html: String,
}

/// File name of the page with the given index.
pub open spec fn page_file_name(index: nat) -> Seq<char> {
    PAGE_PREFIX@ + decimal(index) + PAGE_SUFFIX@
}

/// File name of the page with the given index: `page_{index}.html`.
pub fn page_path(index: usize) -> (r: String)
    ensures
        r@ == page_file_name(index as nat),
{
    let mut r = PAGE_PREFIX.to_owned();
    push_decimal(&mut r, index as u64);
    r.append(PAGE_SUFFIX);
    r
}

/// Whether `path` lies under the directory `root`.
pub open spec fn is_under(root: Seq<char>, path: Seq<char>) -> bool {
    path_strip_prefix(path, root) is Some
}

/// `path` relative to `root`; meant for a path under `root`.
pub open spec fn relative_to(root: Seq<char>, path: Seq<char>) -> Seq<char> {
    path_strip_prefix(path, root)->0
}

/// Both derivatives of `photo` lie under `root`.
pub open spec fn photo_under(root: Seq<char>, photo: Photo) -> bool {
    is_under(root, photo.display_path@) && is_under(root, photo.thumbnail_path@)
}

/// Both derivatives of every photo lie under `root`.
pub open spec fn photos_under(root: Seq<char>, photos: Seq<Photo>) -> bool {
    forall|i: int| 0 <= i < photos.len() ==> photo_under(root, #[trigger] photos[i])
}

/// Both derivatives of every photo of every group lie under `root`.
pub open spec fn groups_under(root: Seq<char>, groups: Seq<DayGroup>) -> bool {
    forall|g: int| 0 <= g < groups.len() ==> photos_under(root, (#[trigger] groups[g]).photos@)
}

/// The entry of one photo: a link to the display derivative around the
/// thumbnail, both relative to `root`.
pub open spec fn figure_html(root: Seq<char>, photo: Photo) -> Seq<char> {
    FIGURE_OPEN@ + relative_to(root, photo.display_path@) + FIGURE_MIDDLE@ + relative_to(
        root,
        photo.thumbnail_path@,
    ) + FIGURE_CLOSE@
}

/// The entries of `photos`, in order.
pub open spec fn figures_html(root: Seq<char>, photos: Seq<Photo>) -> Seq<char>
    decreases photos.len(),
{
    if photos.len() == 0 {
        Seq::empty()
    } else {
        figures_html(root, photos.drop_last()) + figure_html(root, photos.last())
    }
}

/// A date heading and the grid of the photos of that date.
pub open spec fn group_html(root: Seq<char>, group: DayGroup) -> Seq<char> {
    HEADING_OPEN@ + group.date.label() + HEADING_CLOSE@ + figures_html(root, group.photos@)
        + GRID_CLOSE@
}

/// The headings and grids of `groups`, in order.
pub open spec fn groups_html(root: Seq<char>, groups: Seq<DayGroup>) -> Seq<char>
    decreases groups.len(),
{
    if groups.len() == 0 {
        Seq::empty()
    } else {
        groups_html(root, groups.drop_last()) + group_html(root, groups.last())
    }
}

/// The style rule that sets the page's own link apart in the navigation.
pub open spec fn style_html(index: nat) -> Seq<char> {
    STYLE_OPEN@ + decimal(index) + STYLE_CLOSE@
}

/// The whole document of the page `index` that shows `groups`.
pub open spec fn page_html(root: Seq<char>, groups: Seq<DayGroup>, index: nat, nav: Seq<char>) -> Seq<
    char,
> {
    HTML_BEGIN@ + style_html(index) + BODY_OPEN@ + groups_html(root, groups) + BODY_CLOSE@ + nav
        + HTML_END@
}

/// The date span of a page: its one date, or its earliest and its latest
/// date with a dash between them.
pub open spec fn page_label(groups: Seq<DayGroup>) -> Seq<char> {
    let earliest = groups.last().date;
    let latest = groups.first().date;
    if earliest == latest {
        earliest.label()
    } else {
        earliest.label() + DATE_RANGE_DASH@ + latest.label()
    }
}

/// The navigation entry of the page `index`.
pub open spec fn nav_entry(index: nat, label: Seq<char>) -> Seq<char> {
    ENTRY_OPEN@ + page_file_name(index) + ENTRY_CLASS@ + decimal(index) + ENTRY_MIDDLE@ + label
        + ENTRY_CLOSE@
}

/// The navigation entries of `pages`, in order.
pub open spec fn nav_entries(pages: Seq<Page>) -> Seq<char>
    decreases pages.len(),
{
    if pages.len() == 0 {
        Seq::empty()
    } else {
        nav_entries(pages.drop_last()) + nav_entry(
            (pages.len() - 1) as nat,
            page_label(pages.last().groups@),
        )
    }
}

/// The navigation list that every page of `pages` carries.
pub open spec fn navigation_html(pages: Seq<Page>) -> Seq<char> {
    NAV_OPEN@ + nav_entries(pages) + NAV_CLOSE@
}

/// The date span of a page as the navigation shows it.
pub fn navigation_label(page: &Page) -> (r: String)
    requires
        page.groups@.len() > 0,
    ensures
        r@ == page_label(page.groups@),
{
    let earliest = page.groups[page.groups.len() - 1].date;
    let latest = page.groups[0].date;
    let mut r = earliest.to_label();
    if !(earliest == latest) {
        r.append(DATE_RANGE_DASH);
        latest.push_label(&mut r);
    }
    r
}

/// The navigation list: one entry per page, labelled with the page's date
/// span and linked to the page's file.
pub fn navigation(pages: &Vec<Page>) -> (r: String)
    requires
        forall|k: int| 0 <= k < pages@.len() ==> (#[trigger] pages@[k]).groups@.len() > 0,
    ensures
        r@ == navigation_html(pages@),
{
    let mut r = NAV_OPEN.to_owned();
    let mut index: usize = 0;
    proof {
        assert(pages@.take(0) =~= Seq::<Page>::empty());
        assert(r@ =~= NAV_OPEN@ + nav_entries(pages@.take(0)));
    }
    while index < pages.len()
        invariant
            index <= pages@.len(),
            r@ == NAV_OPEN@ + nav_entries(pages@.take(index as int)),
            forall|k: int| 0 <= k < pages@.len() ==> (#[trigger] pages@[k]).groups@.len() > 0,
        decreases pages@.len() - index,
    {
        let ghost before = r@;
        let label = navigation_label(&pages[index]);
        let path = page_path(index);
        r.append(ENTRY_OPEN);
        r.append(path.as_str());
        r.append(ENTRY_CLASS);
        push_decimal(&mut r, index as u64);
        r.append(ENTRY_MIDDLE);
        r.append(label.as_str());
        r.append(ENTRY_CLOSE);
        proof {
            let seen = pages@.take(index + 1);
            assert(seen.drop_last() =~= pages@.take(index as int));
            assert(seen.last() == pages@[index as int]);
            assert(r@ =~= before + nav_entry(index as nat, page_label(pages@[index as int].groups@)));
            assert(r@ =~= NAV_OPEN@ + nav_entries(seen));
        }
        index = index + 1;
    }
    proof {
        assert(pages@.take(pages@.len() as int) =~= pages@);
    }
    r.append(NAV_CLOSE);
    r
}

/// Appends the entry of one photo.
fn push_figure(out: &mut String, options: &Options, photo: &Photo) -> (r: Result<(), RenderError>)
    ensures
        r is Ok <==> photo_under(options.output_dir@, *photo),
        r is Ok ==> final(out)@ == old(out)@ + figure_html(options.output_dir@, *photo),
{
    let display = match options.relative_path(photo.display_path.as_str()) {
        Some(path) => path,
        None => {
            return Err(RenderError::OutsideOutputDir);
        },
    };
    let thumbnail = match options.relative_path(photo.thumbnail_path.as_str()) {
        Some(path) => path,
        None => {
            return Err(RenderError::OutsideOutputDir);
        },
    };
    out.append(FIGURE_OPEN);
    out.append(display.as_str());
    out.append(FIGURE_MIDDLE);
    out.append(thumbnail.as_str());
    out.append(FIGURE_CLOSE);
    proof {
        assert(out@ =~= old(out)@ + figure_html(options.output_dir@, *photo));
    }
    Ok(())
}

/// Appends the heading and the grid of one day group.
fn push_group(out: &mut String, options: &Options, group: &DayGroup) -> (r: Result<
    (),
    RenderError,
>)
    ensures
        r is Ok <==> photos_under(options.output_dir@, group.photos@),
        r is Ok ==> final(out)@ == old(out)@ + group_html(options.output_dir@, *group),
{
    let ghost root = options.output_dir@;
    out.append(HEADING_OPEN);
    group.date.push_label(out);
    out.append(HEADING_CLOSE);
    let ghost head = out@;
    let mut i: usize = 0;
    proof {
        assert(group.photos@.take(0) =~= Seq::<Photo>::empty());
        assert(out@ =~= head + figures_html(root, group.photos@.take(0)));
    }
    while i < group.photos.len()
        invariant
            i <= group.photos@.len(),
            root == options.output_dir@,
            head == old(out)@ + HEADING_OPEN@ + group.date.label() + HEADING_CLOSE@,
            out@ == head + figures_html(root, group.photos@.take(i as int)),
            photos_under(root, group.photos@.take(i as int)),
        decreases group.photos@.len() - i,
    {
        let ghost before = out@;
        let ghost seen = group.photos@.take(i + 1);
        match push_figure(out, options, &group.photos[i]) {
            Ok(()) => {},
            Err(e) => {
                return Err(e);
            },
        }
        proof {
            assert(seen.drop_last() =~= group.photos@.take(i as int));
            assert(seen.last() == group.photos@[i as int]);
            assert(out@ =~= head + figures_html(root, seen));
            assert forall|j: int| 0 <= j < seen.len() implies photo_under(
                root,
                #[trigger] seen[j],
            ) by {
                if j < i {
                    assert(seen[j] == group.photos@.take(i as int)[j]);
                }
            }
        }
        i = i + 1;
    }
    proof {
        assert(group.photos@.take(group.photos@.len() as int) =~= group.photos@);
    }
    out.append(GRID_CLOSE);
    proof {
        assert(out@ =~= old(out)@ + group_html(root, *group));
    }
    Ok(())
}

/// Renders the document of one page: the shell, the style rule that marks
/// the page's own navigation link, a heading and a grid per day group, and
/// the navigation list `nav`. The document goes to `page_{index}.html` in the
/// output directory. Fails where a derivative of a photo on the page does
/// not lie under the output directory.
pub fn generate_page(page: &Page, options: &Options, index: usize, nav: &str) -> (r: Result<
    Document,
    RenderError,
>)
    ensures
        r is Ok <==> groups_under(options.output_dir@, page.groups@),
        r matches Ok(document) ==> {
            &&& document.path@ == path_join(options.output_dir@, page_file_name(index as nat))
            &&& document.html@ == page_html(
                options.output_dir@,
                page.groups@,
                index as nat,
                nav@,
            )
        },
        r matches Err(e) ==> e == RenderError::OutsideOutputDir,
{
    let ghost root = options.output_dir@;
    let mut html = HTML_BEGIN.to_owned();
    html.append(STYLE_OPEN);
    push_decimal(&mut html, index as u64);
    html.append(STYLE_CLOSE);
    html.append(BODY_OPEN);
    let ghost head = html@;
    let mut g: usize = 0;
    proof {
        assert(page.groups@.take(0) =~= Seq::<DayGroup>::empty());
        assert(head =~= HTML_BEGIN@ + style_html(index as nat) + BODY_OPEN@);
        assert(html@ =~= head + groups_html(root, page.groups@.take(0)));
    }
    while g < page.groups.len()
        invariant
            g <= page.groups@.len(),
            root == options.output_dir@,
            head == HTML_BEGIN@ + style_html(index as nat) + BODY_OPEN@,
            html@ == head + groups_html(root, page.groups@.take(g as int)),
            groups_under(root, page.groups@.take(g as int)),
        decreases page.groups@.len() - g,
    {
        let ghost seen = page.groups@.take(g + 1);
        match push_group(&mut html, options, &page.groups[g]) {
            Ok(()) => {},
            Err(e) => {
                return Err(e);
            },
        }
        proof {
            assert(seen.drop_last() =~= page.groups@.take(g as int));
            assert(seen.last() == page.groups@[g as int]);
            assert(html@ =~= head + groups_html(root, seen));
            assert forall|j: int| 0 <= j < seen.len() implies photos_under(
                root,
                (#[trigger] seen[j]).photos@,
            ) by {
                if j < g {
                    assert(seen[j] == page.groups@.take(g as int)[j]);
                }
            }
        }
        g = g + 1;
    }
    proof {
        assert(page.groups@.take(page.groups@.len() as int) =~= page.groups@);
    }
    html.append(BODY_CLOSE);
    html.append(nav);
    html.append(HTML_END);
    let name = page_path(index);
    let path = join(options.output_dir.as_str(), name.as_str());
    proof {
        assert(html@ =~= page_html(root, page.groups@, index as nat, nav@));
    }
    Ok(Document { path, html })
}

} // verus!
