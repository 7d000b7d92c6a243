//! Finding the assignment pages that a listing page names.

use vstd::prelude::*;
use crate::model::{outcome_view, HTMLFile, HTMLFileView, ScrapeError};
use crate::pattern::{all_matches, get_element_by_regex, occur_in_order, regex_matches};
use crate::text::{
    is_safe_file_name, safe_file_name, strip_prefix, strip_suffix, without_prefix, without_suffix,
};

verus! {

/// Matches a relative link to an assignment's directory: two dots, a slash,
/// any character, a dot, a slash, the course's directory, a slash and the
/// digits that follow, if any.
pub const SUBPAGE_PATTERN: &'static str = "\\.\\./.\\./mc202ABC/\\d*";

/// What a link to an assignment's directory starts with, before the number.
pub const SUBPAGE_PREFIX: &'static str = "../../mc202ABC/";

/// What the address of an assignment page ends with, after its directory.
pub const PAGE_SUFFIX: &'static str = "/enunc.html";

/// The address of the page in the directory that `link` names, seen from `base`.
pub open spec fn subpage_url(base: Seq<char>, link: Seq<char>) -> Seq<char> {
    base + seq!['/'] + link + PAGE_SUFFIX@
}

/// The name under which the page behind `link` is saved.
pub open spec fn subpage_title(link: Seq<char>) -> Seq<char> {
    without_prefix(link, SUBPAGE_PREFIX@)
}

/// The page behind `link`, not fetched yet.
pub open spec fn subpage_of(base: Seq<char>, link: Seq<char>) -> HTMLFileView {
    HTMLFileView {
        url: subpage_url(base, link),
        html_body: None,
        html_document_title: subpage_title(link),
    }
}

/// Every link gives a title that is a safe file name.
pub open spec fn titles_safe(links: Seq<Seq<char>>) -> bool {
    forall|i: int| 0 <= i < links.len() ==> safe_file_name(subpage_title(#[trigger] links[i]))
}

/// One page for each link, in the order of the links, or `Pattern` where a
/// title is not a safe file name.
pub open spec fn planned_subpages(base: Seq<char>, links: Seq<Seq<char>>) -> Result<
    Seq<HTMLFileView>,
    ScrapeError,
> {
    if titles_safe(links) {
        Ok(Seq::new(links.len(), |i: int| subpage_of(base, links[i])))
    } else {
        Err(ScrapeError::Pattern)
    }
}

/// The pages that the listing page `listing` names, or `Pattern` where a
/// title is not a safe file name or the link pattern does not compile.
pub open spec fn listed_subpages(base: Seq<char>, listing: Seq<char>) -> Result<
    Seq<HTMLFileView>,
    ScrapeError,
> {
    match all_matches(SUBPAGE_PATTERN@, listing) {
        Ok(links) => planned_subpages(base, links),
        Err(error) => Err(error),
    }
}

/// The directory that the page at `url` lies in.
pub open spec fn directory_of(url: Seq<char>) -> Seq<char> {
    without_suffix(url, PAGE_SUFFIX@)
}

/// A listed page lies in the directory that its link names: taking the
/// page's file name off its address gives the listing's address, a slash and
/// the link.
pub proof fn lemma_directory_of_subpage(base: Seq<char>, link: Seq<char>)
    ensures
        directory_of(subpage_url(base, link)) == base + seq!['/'] + link,
{
    let dir = base + seq!['/'] + link;
    let url = subpage_url(base, link);
    assert(url.subrange(url.len() - PAGE_SUFFIX@.len(), url.len() as int) =~= PAGE_SUFFIX@);
    assert(url.take(url.len() - PAGE_SUFFIX@.len()) =~= dir);
}

/// The page record for one link found on the listing page.
fn subpage_from_link(base_url: &str, link: &str) -> (page: HTMLFile)
    ensures
        page@ == subpage_of(base_url@, link@),
{
    proof {
        reveal_strlit("/");
    }
    let mut url = String::from_str(base_url);
    url.append("/");
    url.append(link);
    url.append(PAGE_SUFFIX);
    assert("/"@ =~= seq!['/']);
    HTMLFile {
        url,
        html_body: None,
        html_document_title: String::from_str(strip_prefix(link, SUBPAGE_PREFIX)),
    }
}

/// Builds the page records for the links found on a listing page, one for
/// each link and in their order; a link that occurs twice gives two records.
/// Fails with `Pattern` where a link's title is not a safe file name.
pub fn subpages_from_links(base_url: &str, links: &Vec<String>) -> (pages: Result<
    Vec<HTMLFile>,
    ScrapeError,
>)
    ensures
        outcome_view(pages) == planned_subpages(base_url@, links.deep_view()),
        pages matches Ok(files) ==> forall|i: int|
            0 <= i < files.len() ==> (#[trigger] files[i])@.well_formed(),
{
    let ghost all = links.deep_view();
    let mut files: Vec<HTMLFile> = Vec::new();
    let mut i: usize = 0;
    while i < links.len()
        invariant
            i <= links.len(),
            all == links.deep_view(),
            files.len() == i,
            forall|k: int| 0 <= k < i ==> safe_file_name(subpage_title(#[trigger] all[k])),
            forall|k: int| 0 <= k < i ==> (#[trigger] files@[k])@ == subpage_of(base_url@, all[k]),
        decreases links.len() - i,
    {
        assert(all[i as int] == links@[i as int]@);
        let page = subpage_from_link(base_url, links[i].as_str());
        if !is_safe_file_name(page.html_document_title.as_str()) {
            assert(!safe_file_name(subpage_title(all[i as int])));
            return Err(ScrapeError::Pattern);
        }
        files.push(page);
        i += 1;
    }
    assert(files.deep_view() =~= Seq::new(all.len(), |i: int| subpage_of(base_url@, all[i])));
    Ok(files)
}

/// The assignment pages that the listing page `listing`, fetched from
/// `base_url`, names: one for each match of the link pattern, in the order
/// of the matches, duplicates included. Fails with `Pattern` exactly where a
/// title is not a safe file name or the pattern does not compile.
pub fn discover_subpages(base_url: &str, listing: &str) -> (pages: Result<
    Vec<HTMLFile>,
    ScrapeError,
>)
    ensures
        outcome_view(pages) == listed_subpages(base_url@, listing@),
        pages matches Ok(files) ==> {
            let links = regex_matches(SUBPAGE_PATTERN@, listing@);
            &&& occur_in_order(listing@, links)
            &&& files.len() == links.len()
            &&& forall|i: int|
                #![trigger files[i]]
                0 <= i < files.len() ==> {
                    &&& files[i].url@ == base_url@ + seq!['/'] + links[i] + PAGE_SUFFIX@
                    &&& files[i].html_document_title@ == without_prefix(links[i], SUBPAGE_PREFIX@)
                    &&& files[i].html_body is None
                }
        },
        pages matches Ok(files) ==> forall|i: int|
            0 <= i < files.len() ==> (#[trigger] files[i])@.well_formed(),
{
    let links = match get_element_by_regex(SUBPAGE_PATTERN, listing) {
        Ok(links) => links,
        Err(e) => { return Err(e); },
    };
    let pages = subpages_from_links(base_url, &links);
    proof {
        if let Ok(files) = &pages {
            let all = links.deep_view();
            let planned = Seq::new(all.len(), |i: int| subpage_of(base_url@, all[i]));
            assert(files.deep_view() == planned);
            assert(files.len() == files.deep_view().len());
            assert forall|i: int| 0 <= i < files.len() implies {
                &&& (#[trigger] files[i]).url@ == base_url@ + seq!['/'] + all[i] + PAGE_SUFFIX@
                &&& files[i].html_document_title@ == without_prefix(all[i], SUBPAGE_PREFIX@)
                &&& files[i].html_body is None
            } by {
                assert(files.deep_view()[i] == files[i]@);
                assert(planned[i] == subpage_of(base_url@, all[i]));
            }
        }
    }
    pages
}

/// The directory that the page at `url` lies in: `url` without the page's
/// file name at its end.
pub fn page_directory(url: &str) -> (dir: &str)
    ensures
        dir@ == directory_of(url@),
{
    strip_suffix(url, PAGE_SUFFIX)
}

} // verus!
