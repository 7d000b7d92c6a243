//! The whole course of a crawl on a site where nothing fails: which actions
//! it asks for, from the first request to the last.

use vstd::prelude::*;
use crate::crawl::{lemma_next_keeps_well_formed, ActionView, CrawlView, EventView, Stage};
use crate::images::document_images;
use crate::links::{directory_of, listed_subpages};
use crate::model::{HTMLFileView, ImageFileView, ScrapeError};

verus! {

/// What a site serves under each address, as text and as bytes.
pub struct Site {
    pub text: spec_fn(Seq<char>) -> Seq<char>,
    pub bytes: spec_fn(Seq<char>) -> Seq<u8>,
}

impl Site {
    /// The pages that the listing at `base` names.
    pub open spec fn pages(self, base: Seq<char>) -> Result<Seq<HTMLFileView>, ScrapeError> {
        listed_subpages(base, (self.text)(base))
    }

    /// The images that `page` embeds.
    pub open spec fn images(self, page: HTMLFileView) -> Result<Seq<ImageFileView>, ScrapeError> {
        document_images(directory_of(page.url), (self.text)(page.url))
    }

    /// The listing at `base` and every page it names can be worked: the
    /// patterns compile and no name found is refused.
    pub open spec fn crawlable(self, base: Seq<char>) -> bool {
        &&& self.pages(base) is Ok
        &&& forall|i: int|
            0 <= i < self.pages(base)->Ok_0.len() ==> self.images(
                #[trigger] self.pages(base)->Ok_0[i],
            ) is Ok
    }

    /// What comes of `action`: the text or the bytes at the address, or
    /// success.
    pub open spec fn answer(self, action: ActionView) -> EventView {
        match action {
            ActionView::FetchText { url } => EventView::Text((self.text)(url)),
            ActionView::FetchBytes { url } => EventView::Bytes((self.bytes)(url)),
            _ => EventView::Done,
        }
    }

    /// Each image in turn is fetched and then written, as it was served, to
    /// the file it is named after.
    pub open spec fn image_plan(self, images: Seq<ImageFileView>) -> Seq<ActionView>
        decreases images.len(),
    {
        if images.len() == 0 {
            Seq::empty()
        } else {
            seq![
                ActionView::FetchBytes { url: images[0].url },
                ActionView::WriteFile {
                    name: images[0].name,
                    content: (self.bytes)(images[0].url),
                },
            ] + self.image_plan(images.drop_first())
        }
    }

    /// A page is fetched, its images are saved, and it is converted.
    pub open spec fn page_plan(self, page: HTMLFileView) -> Seq<ActionView> {
        seq![ActionView::FetchText { url: page.url }] + self.image_plan(self.images(page)->Ok_0)
            + seq![
            ActionView::Convert {
                html: (self.text)(page.url),
                output: page.html_document_title,
            },
        ]
    }

    /// Each page in turn is worked, and then the crawl finishes.
    pub open spec fn pages_plan(self, pages: Seq<HTMLFileView>) -> Seq<ActionView>
        decreases pages.len(),
    {
        if pages.len() == 0 {
            seq![ActionView::Finish]
        } else {
            self.page_plan(pages[0]) + self.pages_plan(pages.drop_first())
        }
    }

    /// Everything that a crawl asks for once it has asked for the listing at
    /// `base`.
    pub open spec fn crawl_plan(self, base: Seq<char>) -> Seq<ActionView> {
        self.pages_plan(self.pages(base)->Ok_0)
    }
}

impl CrawlView {
    /// The crawl after `n` steps on `site`, each taking what the site
    /// answers to the action asked before it, and the actions that these
    /// steps asked for. `first` is the action that the crawl waits on.
    pub open spec fn served(self, site: Site, first: ActionView, n: nat) -> (
        CrawlView,
        Seq<ActionView>,
    )
        decreases n,
    {
        if n == 0 {
            (self, Seq::empty())
        } else {
            let (before, asked) = self.served(site, first, (n - 1) as nat);
            let pending = if n == 1 {
                first
            } else {
                asked.last()
            };
            let (after, action) = before.next(site.answer(pending));
            (after, asked.push(action))
        }
    }
}

/// What `site` answers to the action that `crawl` is waiting on.
spec fn awaited(crawl: CrawlView, site: Site) -> EventView {
    match crawl.stage {
        Stage::Listing => EventView::Text((site.text)(crawl.base_url)),
        Stage::Page => EventView::Text((site.text)(crawl.pages[crawl.page as int].url)),
        Stage::Image => EventView::Bytes((site.bytes)(crawl.images[crawl.image as int].url)),
        _ => EventView::Done,
    }
}

/// The crawl holds what `site` serves: the pages of its listing, and the
/// text and the images of the current page.
spec fn in_step(crawl: CrawlView, site: Site, base: Seq<char>) -> bool {
    &&& site.crawlable(base)
    &&& crawl.well_formed()
    &&& crawl.base_url == base
    &&& !(crawl.stage is Failed)
    &&& !(crawl.stage is Listing) ==> crawl.pages == site.pages(base)->Ok_0
    &&& (crawl.stage is Image || crawl.stage is Saving || crawl.stage is Converting) ==> {
        &&& crawl.body == (site.text)(crawl.pages[crawl.page as int].url)
        &&& crawl.images == site.images(crawl.pages[crawl.page as int])->Ok_0
    }
}

/// What the crawl is still to ask for after the action that it is waiting on.
spec fn ahead(crawl: CrawlView, site: Site) -> Seq<ActionView> {
    let later = site.pages_plan(crawl.pages.skip(crawl.page as int + 1));
    let convert = seq![
        ActionView::Convert {
            html: crawl.body,
            output: crawl.pages[crawl.page as int].html_document_title,
        },
    ];
    let images = site.image_plan(crawl.images.skip(crawl.image as int + 1));
    match crawl.stage {
        Stage::Listing => site.crawl_plan(crawl.base_url),
        Stage::Page => site.page_plan(crawl.pages[crawl.page as int]).drop_first() + later,
        Stage::Image => seq![
            ActionView::WriteFile {
                name: crawl.images[crawl.image as int].name,
                content: (site.bytes)(crawl.images[crawl.image as int].url),
            },
        ] + images + convert + later,
        Stage::Saving => images + convert + later,
        Stage::Converting => later,
        _ => Seq::empty(),
    }
}

/// The plan for the pages from index `from` on starts with the plan for the
/// page at `from`; past the last page it is to finish.
proof fn lemma_pages_plan_from(site: Site, pages: Seq<HTMLFileView>, from: int)
    requires
        0 <= from <= pages.len(),
    ensures
        site.pages_plan(pages.skip(from)) == if from < pages.len() {
            site.page_plan(pages[from]) + site.pages_plan(pages.skip(from + 1))
        } else {
            seq![ActionView::Finish]
        },
{
    if from < pages.len() {
        assert(pages.skip(from).drop_first() =~= pages.skip(from + 1));
    }
}

/// The plan for the images from index `from` on starts with fetching and
/// writing the image at `from`; past the last image it is empty.
proof fn lemma_image_plan_from(site: Site, images: Seq<ImageFileView>, from: int)
    requires
        0 <= from <= images.len(),
    ensures
        site.image_plan(images.skip(from)) == if from < images.len() {
            seq![
                ActionView::FetchBytes { url: images[from].url },
                ActionView::WriteFile {
                    name: images[from].name,
                    content: (site.bytes)(images[from].url),
                },
            ] + site.image_plan(images.skip(from + 1))
        } else {
            Seq::empty()
        },
{
    if from < images.len() {
        assert(images.skip(from).drop_first() =~= images.skip(from + 1));
    }
}

/// While the crawl has not finished it is still to ask for something.
proof fn lemma_ahead_of_a_running_crawl(crawl: CrawlView, site: Site)
    requires
        !crawl.stopped(),
    ensures
        ahead(crawl, site).len() > 0,
{
    let later = crawl.pages.skip(crawl.page as int + 1);
    if later.len() > 0 {
        assert(site.page_plan(later[0]).len() > 0);
    }
    assert(site.pages_plan(later).len() > 0);
    let listed = site.pages(crawl.base_url)->Ok_0;
    if listed.len() > 0 {
        assert(site.page_plan(listed[0]).len() > 0);
    }
    assert(site.pages_plan(listed).len() > 0);
}

/// One step on the site's answer asks for the next action of the plan and
/// leaves the crawl holding what the site serves.
proof fn lemma_step_follows_plan(crawl: CrawlView, site: Site, base: Seq<char>)
    requires
        in_step(crawl, site, base),
        !crawl.stopped(),
    ensures
        in_step(crawl.next(awaited(crawl, site)).0, site, base),
        ahead(crawl, site) == seq![crawl.next(awaited(crawl, site)).1] + ahead(
            crawl.next(awaited(crawl, site)).0,
            site,
        ),
        !crawl.next(awaited(crawl, site)).0.stopped() ==> awaited(
            crawl.next(awaited(crawl, site)).0,
            site,
        ) == site.answer(crawl.next(awaited(crawl, site)).1),
{
    let (after, action) = crawl.next(awaited(crawl, site));
    lemma_next_keeps_well_formed(crawl, awaited(crawl, site));
    let pages = site.pages(base)->Ok_0;
    match crawl.stage {
        Stage::Listing => {
            lemma_pages_plan_from(site, pages, 0);
            assert(pages.skip(0) =~= pages);
            if pages.len() > 0 {
                let plan = site.page_plan(pages[0]);
                let rest = site.pages_plan(pages.skip(1));
                assert(plan.drop_first() + rest =~= (plan + rest).drop_first());
                assert(ahead(crawl, site) =~= seq![action] + ahead(after, site));
            } else {
                assert(ahead(crawl, site) =~= seq![action] + ahead(after, site));
            }
        },
        Stage::Page => {
            let page = crawl.pages[crawl.page as int];
            let images = site.images(page)->Ok_0;
            lemma_image_plan_from(site, images, 0);
            assert(images.skip(0) =~= images);
            assert(ahead(crawl, site) =~= seq![action] + ahead(after, site));
        },
        Stage::Image => {
            assert(ahead(crawl, site) =~= seq![action] + ahead(after, site));
        },
        Stage::Saving => {
            lemma_image_plan_from(site, crawl.images, crawl.image as int + 1);
            assert(ahead(crawl, site) =~= seq![action] + ahead(after, site));
        },
        Stage::Converting => {
            lemma_pages_plan_from(site, crawl.pages, crawl.page as int + 1);
            if crawl.page + 1 < crawl.pages.len() {
                let plan = site.page_plan(crawl.pages[crawl.page as int + 1]);
                let rest = site.pages_plan(crawl.pages.skip(crawl.page as int + 2));
                assert(plan.drop_first() + rest =~= (plan + rest).drop_first());
            }
            assert(ahead(crawl, site) =~= seq![action] + ahead(after, site));
        },
        _ => {},
    }
}

/// After `n` steps on the site's answers the crawl has asked for the first
/// `n` actions of the plan and is still to ask for the rest.
proof fn lemma_served_follows_plan(site: Site, base: Seq<char>, n: nat)
    requires
        site.crawlable(base),
        n <= site.crawl_plan(base).len(),
    ensures
        ({
            let first = ActionView::FetchText { url: base };
            let (crawl, asked) = CrawlView::started(base).served(site, first, n);
            &&& asked == site.crawl_plan(base).take(n as int)
            &&& in_step(crawl, site, base)
            &&& ahead(crawl, site) == site.crawl_plan(base).skip(n as int)
            &&& !crawl.stopped() ==> awaited(crawl, site) == site.answer(
                if n == 0 {
                    first
                } else {
                    asked.last()
                },
            )
        }),
    decreases n,
{
    let first = ActionView::FetchText { url: base };
    let plan = site.crawl_plan(base);
    if n == 0 {
        assert(plan.take(0) =~= Seq::empty());
        assert(plan.skip(0) =~= plan);
    } else {
        lemma_served_follows_plan(site, base, (n - 1) as nat);
        let (before, asked) = CrawlView::started(base).served(site, first, (n - 1) as nat);
        assert(ahead(before, site).len() > 0);
        assert(!before.stopped());
        lemma_step_follows_plan(before, site, base);
        let (after, action) = before.next(awaited(before, site));
        assert(plan.skip(n - 1)[0] == action);
        assert(ahead(after, site) =~= plan.skip(n - 1).drop_first());
        assert(plan.skip(n - 1).drop_first() =~= plan.skip(n as int));
        assert(asked.push(action) =~= plan.take(n as int));
    }
}

/// On a site where nothing fails and that can be worked, a crawl asks for
/// exactly the plan, in its order: each page that the listing names is fetched, each of its images
/// is fetched and written as served, the page is converted, and after the
/// last page the crawl finishes. After `n` answers the crawl has asked for
/// the first `n` actions of the plan, and it has stopped, finished, exactly
/// when that is the whole plan.
pub proof fn lemma_crawl_follows_its_plan(site: Site, base: Seq<char>, n: nat)
    requires
        site.crawlable(base),
        n <= site.crawl_plan(base).len(),
    ensures
        ({
            let first = ActionView::FetchText { url: base };
            let (crawl, asked) = CrawlView::started(base).served(site, first, n);
            &&& asked == site.crawl_plan(base).take(n as int)
            &&& crawl.stopped() <==> n == site.crawl_plan(base).len()
            &&& crawl.stopped() ==> crawl.stage is Finished
        }),
{
    let plan = site.crawl_plan(base);
    let first = ActionView::FetchText { url: base };
    lemma_served_follows_plan(site, base, n);
    let crawl = CrawlView::started(base).served(site, first, n).0;
    assert(plan.skip(n as int).len() == plan.len() - n);
    if !crawl.stopped() {
        lemma_ahead_of_a_running_crawl(crawl, site);
    }
}

} // verus!
