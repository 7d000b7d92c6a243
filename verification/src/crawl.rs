//! The crawl as a state machine: each step takes what came of the last
//! action and says what to do next. The caller does the fetching, writing
//! and converting; every decision is taken here.

use vstd::prelude::*;
use crate::images::{
    document_images, get_document_images, lemma_images_have_safe_names, tag_names,
    IMAGE_TAG_PATTERN,
};
use crate::links::{
    directory_of, discover_subpages, listed_subpages, page_directory, subpage_of, SUBPAGE_PATTERN,
};
use crate::model::{
    outcome_view, HTMLFile, HTMLFileView, ImageFile, ImageFileView, ScrapeError,
};
use crate::pattern::regex_matches;
use crate::text::safe_file_name;

verus! {

/// What the caller is asked to do next.
#[derive(Debug, PartialEq, Eq)]
pub enum Action {
    /// Fetch the document at `url` as text and report it with `Event::Text`.
    FetchText { url: String },
    /// Fetch the document at `url` as bytes and report them with `Event::Bytes`.
    FetchBytes { url: String },
    /// Write `content` to the file `name` in the working directory, replacing
    /// what is there, and report `Event::Done`.
    WriteFile { name: String, content: Vec<u8> },
    /// Convert the HTML text `html` to Markdown in the file `output` and
    /// report `Event::Done`.
    Convert { html: String, output: String },
    /// Every page is done: stop with success.
    Finish,
    /// Stop with failure.
    Abort { error: ScrapeError },
}

/// What came of the action that the caller was asked for.
#[derive(Debug, PartialEq, Eq)]
pub enum Event {
    /// The text that was fetched.
    Text(String),
    /// The bytes that were fetched.
    Bytes(Vec<u8>),
    /// The file was written, or the page converted.
    Done,
    /// The action failed.
    Failed(ScrapeError),
}

/// What a crawl is waiting for.
#[derive(Debug, Clone, Copy, PartialEq, Eq, Structural)]
pub enum Stage {
    /// The text of the listing page.
    Listing,
    /// The text of the current page.
    Page,
    /// The bytes of the current image.
    Image,
    /// The current image to be written.
    Saving,
    /// The current page to be converted.
    Converting,
    /// Nothing: every page is done.
    Finished,
    /// Nothing: the crawl has failed.
    Failed(ScrapeError),
}

/// An `Action` as plain sequences.
pub enum ActionView {
    FetchText { url: Seq<char> },
    FetchBytes { url: Seq<char> },
    WriteFile { name: Seq<char>, content: Seq<u8> },
    Convert { html: Seq<char>, output: Seq<char> },
    Finish,
    Abort { error: ScrapeError },
}

/// An `Event` as plain sequences.
pub enum EventView {
    Text(Seq<char>),
    Bytes(Seq<u8>),
    Done,
    Failed(ScrapeError),
}

impl View for Action {
    type V = ActionView;

    open spec fn view(&self) -> ActionView {
        match self {
            Action::FetchText { url } => ActionView::FetchText { url: url@ },
            Action::FetchBytes { url } => ActionView::FetchBytes { url: url@ },
            Action::WriteFile { name, content } => ActionView::WriteFile {
                name: name@,
                content: content@,
            },
            Action::Convert { html, output } => ActionView::Convert {
                html: html@,
                output: output@,
            },
            Action::Finish => ActionView::Finish,
            Action::Abort { error } => ActionView::Abort { error: *error },
        }
    }
}

impl View for Event {
    type V = EventView;

    open spec fn view(&self) -> EventView {
        match self {
            Event::Text(text) => EventView::Text(text@),
            Event::Bytes(bytes) => EventView::Bytes(bytes@),
            Event::Done => EventView::Done,
            Event::Failed(error) => EventView::Failed(*error),
        }
    }
}

/// A crawl as plain values.
pub struct CrawlView {
    /// What the crawl is waiting for.
    pub stage: Stage,
    /// The address of the listing page.
    pub base_url: Seq<char>,
    /// The pages that the listing names, in its order.
    pub pages: Seq<HTMLFileView>,
    /// How many of the pages are done; the current page's index.
    pub page: nat,
    /// The HTML of the current page.
    pub body: Seq<char>,
    /// The images of the current page, in its order.
    pub images: Seq<ImageFileView>,
    /// How many of the images are saved; the current image's index.
    pub image: nat,
}

/// Every page is saved under a safe file name.
pub open spec fn pages_well_formed(pages: Seq<HTMLFileView>) -> bool {
    forall|i: int| 0 <= i < pages.len() ==> (#[trigger] pages[i]).well_formed()
}

/// Every image is saved under a safe file name.
pub open spec fn images_well_formed(images: Seq<ImageFileView>) -> bool {
    forall|i: int| 0 <= i < images.len() ==> (#[trigger] images[i]).well_formed()
}

impl CrawlView {
    /// A crawl that has just begun: it waits for the listing at `base_url`.
    pub open spec fn started(base_url: Seq<char>) -> CrawlView {
        CrawlView {
            stage: Stage::Listing,
            base_url,
            pages: Seq::empty(),
            page: 0,
            body: Seq::empty(),
            images: Seq::empty(),
            image: 0,
        }
    }

    /// The crawl is at work on a page: it waits for the page's text, for one
    /// of its images, or for its conversion.
    pub open spec fn working(self) -> bool {
        self.stage is Page || self.stage is Image || self.stage is Saving
            || self.stage is Converting
    }

    /// There is a current page while one is worked on and a current image
    /// while one is fetched or saved, a finished crawl has done every page,
    /// and every file name is safe.
    pub open spec fn well_formed(self) -> bool {
        &&& self.working() ==> self.page < self.pages.len()
        &&& (self.stage is Image || self.stage is Saving) ==> self.image < self.images.len()
        &&& self.stage is Finished ==> self.page == self.pages.len()
        &&& pages_well_formed(self.pages)
        &&& images_well_formed(self.images)
    }

    /// The crawl has come to its end, in success or in failure.
    pub open spec fn stopped(self) -> bool {
        self.stage is Finished || self.stage is Failed
    }

    /// The crawl gives up with `error`.
    pub open spec fn fail(self, error: ScrapeError) -> (CrawlView, ActionView) {
        (CrawlView { stage: Stage::Failed(error), ..self }, ActionView::Abort { error })
    }

    /// The crawl turns to the page at index `page`: it asks for the page's
    /// text, or finishes where no page is left.
    pub open spec fn begin_page(self) -> (CrawlView, ActionView) {
        if self.page < self.pages.len() {
            (
                CrawlView { stage: Stage::Page, ..self },
                ActionView::FetchText { url: self.pages[self.page as int].url },
            )
        } else {
            (CrawlView { stage: Stage::Finished, ..self }, ActionView::Finish)
        }
    }

    /// The crawl turns to the image at index `image`: it asks for the
    /// image's bytes, or for the page's conversion where no image is left.
    pub open spec fn begin_image(self) -> (CrawlView, ActionView) {
        if self.image < self.images.len() {
            (
                CrawlView { stage: Stage::Image, ..self },
                ActionView::FetchBytes { url: self.images[self.image as int].url },
            )
        } else {
            (
                CrawlView { stage: Stage::Converting, ..self },
                ActionView::Convert {
                    html: self.body,
                    output: self.pages[self.page as int].html_document_title,
                },
            )
        }
    }

    /// The crawl once its listing has been searched: it turns to the first
    /// of the pages found, or fails with the error that the search gave.
    pub open spec fn with_pages(self, found: Result<Seq<HTMLFileView>, ScrapeError>) -> (
        CrawlView,
        ActionView,
    ) {
        match found {
            Ok(pages) => CrawlView { pages, page: 0, ..self }.begin_page(),
            Err(error) => self.fail(error),
        }
    }

    /// The crawl once the current page has arrived as `body` and has been
    /// searched: it turns to the first of the images found, or fails with
    /// the error that the search gave.
    pub open spec fn with_images(
        self,
        body: Seq<char>,
        found: Result<Seq<ImageFileView>, ScrapeError>,
    ) -> (CrawlView, ActionView) {
        match found {
            Ok(images) => CrawlView { body, images, image: 0, ..self }.begin_image(),
            Err(error) => self.fail(error),
        }
    }

    /// The error that an event stands for where it does not answer the
    /// action that the crawl is waiting on: the one it reports, or else the
    /// failure of that action.
    pub open spec fn refusal(self, event: EventView) -> ScrapeError {
        match event {
            EventView::Failed(error) => error,
            _ => match self.stage {
                Stage::Saving => ScrapeError::Filesystem,
                Stage::Converting => ScrapeError::Conversion,
                _ => ScrapeError::Network,
            },
        }
    }

    /// The crawl after `event`, and the action it asks for.
    pub open spec fn next(self, event: EventView) -> (CrawlView, ActionView) {
        match (self.stage, event) {
            (Stage::Finished, _) => (self, ActionView::Finish),
            (Stage::Failed(error), _) => (self, ActionView::Abort { error }),
            (Stage::Listing, EventView::Text(listing)) => self.with_pages(
                listed_subpages(self.base_url, listing),
            ),
            (Stage::Page, EventView::Text(body)) => self.with_images(
                body,
                document_images(directory_of(self.pages[self.page as int].url), body),
            ),
            (Stage::Image, EventView::Bytes(content)) => (
                CrawlView { stage: Stage::Saving, ..self },
                ActionView::WriteFile { name: self.images[self.image as int].name, content },
            ),
            (Stage::Saving, EventView::Done) => CrawlView {
                image: self.image + 1,
                ..self
            }.begin_image(),
            (Stage::Converting, EventView::Done) => CrawlView {
                page: self.page + 1,
                ..self
            }.begin_page(),
            _ => self.fail(self.refusal(event)),
        }
    }
}

impl CrawlView {
    /// The crawl after each of the events `steps` in turn, and the action
    /// that each step asked for.
    pub open spec fn run(self, steps: Seq<EventView>) -> (CrawlView, Seq<ActionView>)
        decreases steps.len(),
    {
        if steps.len() == 0 {
            (self, Seq::empty())
        } else {
            let (before, actions) = self.run(steps.drop_last());
            let (after, action) = before.next(steps.last());
            (after, actions.push(action))
        }
    }
}

/// A step keeps a crawl well formed.
pub proof fn lemma_next_keeps_well_formed(crawl: CrawlView, event: EventView)
    requires
        crawl.well_formed(),
    ensures
        crawl.next(event).0.well_formed(),
{
    match (crawl.stage, event) {
        (Stage::Listing, EventView::Text(listing)) => {
            if listed_subpages(crawl.base_url, listing) is Ok {
                let links = regex_matches(SUBPAGE_PATTERN@, listing);
                let pages = listed_subpages(crawl.base_url, listing)->Ok_0;
                assert forall|i: int| 0 <= i < pages.len() implies (
                #[trigger] pages[i]).well_formed() by {
                    assert(pages[i] == subpage_of(crawl.base_url, links[i]));
                }
            }
        },
        (Stage::Page, EventView::Text(body)) => {
            let dir = directory_of(crawl.pages[crawl.page as int].url);
            if document_images(dir, body) is Ok {
                lemma_images_have_safe_names(
                    dir,
                    tag_names(regex_matches(IMAGE_TAG_PATTERN@, body)),
                );
            }
        },
        _ => {},
    }
}

/// Whatever a crawl asks to write or to convert into goes to a safe file
/// name: one that names a file directly in the working directory.
pub proof fn lemma_output_names_are_safe(crawl: CrawlView, event: EventView)
    requires
        crawl.well_formed(),
    ensures
        crawl.next(event).1 matches ActionView::WriteFile { name, .. } ==> safe_file_name(
            name,
        ),
        crawl.next(event).1 matches ActionView::Convert { output, .. } ==> safe_file_name(
            output,
        ),
{
    lemma_next_keeps_well_formed(crawl, event);
    let after = crawl.next(event).0;
    if crawl.next(event).1 is WriteFile {
        assert(crawl.images[crawl.image as int].well_formed());
    }
    if crawl.next(event).1 is Convert {
        assert(after.pages[after.page as int].well_formed());
    }
}

/// An image is saved exactly as it was fetched: the bytes that arrive for
/// the current image are the bytes that the crawl asks to write, to the file
/// that the image is named after.
pub proof fn lemma_image_is_saved_as_fetched(crawl: CrawlView, content: Seq<u8>)
    requires
        crawl.stage is Image,
    ensures
        crawl.next(EventView::Bytes(content)).1 == (ActionView::WriteFile {
            name: crawl.images[crawl.image as int].name,
            content,
        }),
{
}

/// A crawl that has stopped stays as it is, whatever events arrive, and
/// only repeats that it has finished or that it has failed.
pub proof fn lemma_stopped_crawl_stays(crawl: CrawlView, steps: Seq<EventView>)
    requires
        crawl.stopped(),
    ensures
        crawl.run(steps).0 == crawl,
        crawl.run(steps).1.len() == steps.len(),
        forall|k: int|
            0 <= k < steps.len() ==> #[trigger] crawl.run(steps).1[k] == (match crawl.stage {
                Stage::Failed(error) => ActionView::Abort { error },
                _ => ActionView::Finish,
            }),
    decreases steps.len(),
{
    if steps.len() > 0 {
        lemma_stopped_crawl_stays(crawl, steps.drop_last());
    }
}

/// The first failure ends the crawl: the crawl asks to abort with the error
/// that the event reports, and whatever events follow, it asks for nothing
/// else. No page is converted and no file written after a failure.
pub proof fn lemma_failure_ends_the_crawl(
    crawl: CrawlView,
    error: ScrapeError,
    later: Seq<EventView>,
)
    requires
        !crawl.stopped(),
    ensures
        crawl.next(EventView::Failed(error)) == crawl.fail(error),
        forall|k: int|
            0 <= k < later.len() ==> #[trigger] crawl.fail(error).0.run(later).1[k] == (
            ActionView::Abort { error }),
{
    lemma_stopped_crawl_stays(crawl.fail(error).0, later);
}

/// A crawl in progress.
#[derive(Debug)]
pub struct Crawl {
    stage: Stage,
    base_url: String,
    pages: Vec<HTMLFile>,
    page: usize,
    body: String,
    images: Vec<ImageFile>,
    image: usize,
}

impl View for Crawl {
    type V = CrawlView;

    closed spec fn view(&self) -> CrawlView {
        CrawlView {
            stage: self.stage,
            base_url: self.base_url@,
            pages: self.pages.deep_view(),
            page: self.page as nat,
            body: self.body@,
            images: self.images.deep_view(),
            image: self.image as nat,
        }
    }
}

impl Crawl {
    #[verifier::type_invariant]
    spec fn sound(&self) -> bool {
        self@.well_formed()
    }

    /// A crawl of the site whose listing page is at `base_url`, and its
    /// first action: to fetch that page.
    pub fn start(base_url: String) -> (begun: (Crawl, Action))
        ensures
            begun.0@ == CrawlView::started(base_url@),
            begun.1@ == (ActionView::FetchText { url: base_url@ }),
            begun.0@.well_formed(),
    {
        let url = base_url.clone();
        let crawl = Crawl {
            stage: Stage::Listing,
            base_url,
            pages: Vec::new(),
            page: 0,
            body: String::new(),
            images: Vec::new(),
            image: 0,
        };
        assert(crawl.pages.deep_view() =~= Seq::empty());
        assert(crawl.images.deep_view() =~= Seq::empty());
        (crawl, Action::FetchText { url })
    }

    /// The page that the crawl is at work on, if it is at work on one.
    pub fn current_page(&self) -> (page: Option<&HTMLFile>)
        ensures
            page is Some <==> self@.working(),
            page matches Some(file) ==> file@ == self@.pages[self@.page as int],
    {
        proof {
            use_type_invariant(self);
        }
        assert(self.pages.deep_view().len() == self.pages.len());
        match self.stage {
            Stage::Page | Stage::Image | Stage::Saving | Stage::Converting => {
                assert(self.pages.deep_view()[self.page as int] == self.pages@[self.page as int]@);
                Some(&self.pages[self.page])
            },
            _ => None,
        }
    }

    /// The images that were found in the page last searched, in its order.
    pub fn current_images(&self) -> (images: &Vec<ImageFile>)
        ensures
            images.deep_view() == self@.images,
    {
        &self.images
    }

    fn fail(self, error: ScrapeError) -> (next: (Crawl, Action))
        ensures
            (next.0@, next.1@) == self@.fail(error),
    {
        proof {
            use_type_invariant(&self);
        }
        (Crawl { stage: Stage::Failed(error), ..self }, Action::Abort { error })
    }

    fn turn_to_page(self, page: usize) -> (next: (Crawl, Action))
        requires
            page <= self@.pages.len(),
        ensures
            (next.0@, next.1@) == (CrawlView { page: page as nat, ..self@ }).begin_page(),
    {
        proof {
            use_type_invariant(&self);
        }
        assert(self.pages.deep_view().len() == self.pages.len());
        if page < self.pages.len() {
            let url = self.pages[page].url.clone();
            assert(self.pages.deep_view()[page as int] == self.pages@[page as int]@);
            (Crawl { stage: Stage::Page, page, ..self }, Action::FetchText { url })
        } else {
            (Crawl { stage: Stage::Finished, page, ..self }, Action::Finish)
        }
    }

    fn turn_to_image(self, image: usize) -> (next: (Crawl, Action))
        requires
            self@.page < self@.pages.len(),
            image <= self@.images.len(),
        ensures
            (next.0@, next.1@) == (CrawlView { image: image as nat, ..self@ }).begin_image(),
    {
        proof {
            use_type_invariant(&self);
        }
        assert(self.pages.deep_view().len() == self.pages.len());
        assert(self.images.deep_view().len() == self.images.len());
        if image < self.images.len() {
            let url = self.images[image].url.clone();
            assert(self.images.deep_view()[image as int] == self.images@[image as int]@);
            (Crawl { stage: Stage::Image, image, ..self }, Action::FetchBytes { url })
        } else {
            let html = self.body.clone();
            let output = self.pages[self.page].html_document_title.clone();
            assert(self.pages.deep_view()[self.page as int] == self.pages@[self.page as int]@);
            (Crawl { stage: Stage::Converting, image, ..self }, Action::Convert { html, output })
        }
    }

    /// Takes the pages that were found on the listing, or the error of the
    /// search, and says what to do next: to fetch the first page, to finish
    /// where there is none, or to abort.
    pub fn with_pages(self, found: Result<Vec<HTMLFile>, ScrapeError>) -> (next: (Crawl, Action))
        requires
            self@.stage is Listing,
            found matches Ok(pages) ==> pages_well_formed(pages.deep_view()),
        ensures
            (next.0@, next.1@) == self@.with_pages(outcome_view(found)),
            next.0@.well_formed(),
    {
        proof {
            use_type_invariant(&self);
        }
        let next = match found {
            Ok(pages) => Crawl { pages, ..self }.turn_to_page(0),
            Err(error) => self.fail(error),
        };
        proof {
            use_type_invariant(&next.0);
        }
        next
    }

    /// Takes the current page's text and the images that were found in it,
    /// or the error of the search, and says what to do next: to fetch the
    /// first image, to convert the page where it has none, or to abort.
    pub fn with_images(self, body: String, found: Result<Vec<ImageFile>, ScrapeError>) -> (next: (
        Crawl,
        Action,
    ))
        requires
            self@.stage is Page,
            found matches Ok(images) ==> images_well_formed(images.deep_view()),
        ensures
            (next.0@, next.1@) == self@.with_images(body@, outcome_view(found)),
            next.0@.well_formed(),
    {
        proof {
            use_type_invariant(&self);
        }
        let next = match found {
            Ok(images) => Crawl { body, images, image: 0, ..self }.turn_to_image(0),
            Err(error) => self.fail(error),
        };
        proof {
            use_type_invariant(&next.0);
        }
        next
    }

    /// Takes what came of the last action and says what to do next.
    ///
    /// An event that does not answer the action asked for counts as that
    /// action's failure. A text that arrives is searched for links or for
    /// images; where the search fails, the crawl fails with its error. A
    /// crawl that has stopped repeats its last action.
    pub fn step(self, event: Event) -> (next: (Crawl, Action))
        ensures
            (next.0@, next.1@) == self@.next(event@),
            next.0@.well_formed(),
    {
        proof {
            use_type_invariant(&self);
        }
        assert(self.pages.deep_view().len() == self.pages.len());
        assert(self.images.deep_view().len() == self.images.len());
        let (after, action) = match self.stage {
            Stage::Finished => (self, Action::Finish),
            Stage::Failed(error) => (self, Action::Abort { error }),
            Stage::Listing => match event {
                Event::Text(listing) => {
                    let found = discover_subpages(self.base_url.as_str(), listing.as_str());
                    proof {
                        if let Ok(pages) = &found {
                            assert forall|i: int| 0 <= i < pages.deep_view().len() implies (
                            #[trigger] pages.deep_view()[i]).well_formed() by {
                                assert(pages.deep_view()[i] == pages[i]@);
                            }
                        }
                    }
                    self.with_pages(found)
                },
                Event::Failed(error) => self.fail(error),
                _ => self.fail(ScrapeError::Network),
            },
            Stage::Page => match event {
                Event::Text(body) => {
                    let target = HTMLFile {
                        url: self.pages[self.page].url.clone(),
                        html_body: Some(body),
                        html_document_title: self.pages[self.page].html_document_title.clone(),
                    };
                    let dir = String::from_str(page_directory(target.url.as_str()));
                    assert(self.pages.deep_view()[self.page as int]
                        == self.pages@[self.page as int]@);
                    let found = get_document_images(dir, &target);
                    proof {
                        if let Ok(images) = &found {
                            assert forall|i: int| 0 <= i < images.deep_view().len() implies (
                            #[trigger] images.deep_view()[i]).well_formed() by {
                                assert(images.deep_view()[i] == images[i]@);
                            }
                        }
                    }
                    self.with_images(target.html_body.unwrap(), found)
                },
                Event::Failed(error) => self.fail(error),
                _ => self.fail(ScrapeError::Network),
            },
            Stage::Image => match event {
                Event::Bytes(content) => {
                    let name = self.images[self.image].name.clone();
                    assert(self.images.deep_view()[self.image as int]
                        == self.images@[self.image as int]@);
                    (Crawl { stage: Stage::Saving, ..self }, Action::WriteFile { name, content })
                },
                Event::Failed(error) => self.fail(error),
                _ => self.fail(ScrapeError::Network),
            },
            Stage::Saving => match event {
                Event::Done => {
                    let image = self.image + 1;
                    self.turn_to_image(image)
                },
                Event::Failed(error) => self.fail(error),
                _ => self.fail(ScrapeError::Filesystem),
            },
            Stage::Converting => match event {
                Event::Done => {
                    let page = self.page + 1;
                    self.turn_to_page(page)
                },
                Event::Failed(error) => self.fail(error),
                _ => self.fail(ScrapeError::Conversion),
            },
        };
        proof {
            use_type_invariant(&after);
        }
        (after, action)
    }
}

} // verus!
