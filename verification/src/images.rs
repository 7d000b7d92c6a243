//! Finding the images that a page embeds.

use vstd::prelude::*;
use crate::model::{outcome_view, HTMLFile, ImageFile, ImageFileView, ScrapeError};
use crate::pattern::{
    all_matches, captures_text, first_match, get_element_by_regex, regex_compiles,
    regex_first_match,
};
use crate::text::{
    is_safe_file_name, join_with_slash, safe_file_name, slash_joined, trim_char, trimmed,
};

verus! {

/// Matches one whole `<img ...>` tag, up to the first `>` after `<img `.
pub const IMAGE_TAG_PATTERN: &'static str = "<img [^>]*>";

/// Matches a quoted string inside a tag: from a quote to the last quote on
/// the line that comes right after one of the characters `p n g | j e i f`.
/// The square brackets hold a set of characters, not a choice of endings.
pub const IMAGE_NAME_PATTERN: &'static str = "\".*[png|jpg|jpeg|gif]\"";

/// The file name that a match of the name pattern stands for: the match
/// without the quotes around it.
pub open spec fn image_name(found: Option<Seq<char>>) -> Option<Seq<char>> {
    match found {
        Some(quoted) => Some(trimmed(quoted, '"')),
        None => None,
    }
}

/// The file name in the tag `tag`, `None` where it holds none, or `Pattern`
/// where the name pattern does not compile.
pub open spec fn tag_name(tag: Seq<char>) -> Result<Option<Seq<char>>, ScrapeError> {
    match first_match(IMAGE_NAME_PATTERN@, tag) {
        Ok(found) => Ok(image_name(found)),
        Err(error) => Err(error),
    }
}

/// The file name in each tag, `None` for a tag that holds none.
pub open spec fn tag_names(tags: Seq<Seq<char>>) -> Seq<Option<Seq<char>>> {
    Seq::new(tags.len(), |i: int| image_name(regex_first_match(IMAGE_NAME_PATTERN@, tags[i])))
}

/// The image called `name` in the directory `dir`.
pub open spec fn image_of(dir: Seq<char>, name: Seq<char>) -> ImageFileView {
    ImageFileView { url: slash_joined(dir, name), name }
}

/// One image for each name that is there, in the order of the names.
pub open spec fn images_of(dir: Seq<char>, names: Seq<Option<Seq<char>>>) -> Seq<ImageFileView>
    decreases names.len(),
{
    if names.len() == 0 {
        Seq::empty()
    } else {
        let before = images_of(dir, names.drop_last());
        match names.last() {
            Some(name) => before.push(image_of(dir, name)),
            None => before,
        }
    }
}

/// Every name that is there is a safe file name.
pub open spec fn names_safe(names: Seq<Option<Seq<char>>>) -> bool {
    forall|i: int|
        0 <= i < names.len() ==> (#[trigger] names[i] matches Some(name) ==> safe_file_name(name))
}

/// The images for `names`, or `Pattern` where one of the names is not a safe
/// file name.
pub open spec fn planned_images(dir: Seq<char>, names: Seq<Option<Seq<char>>>) -> Result<
    Seq<ImageFileView>,
    ScrapeError,
> {
    if names_safe(names) {
        Ok(images_of(dir, names))
    } else {
        Err(ScrapeError::Pattern)
    }
}

/// Every image built from safe names is saved under a safe file name.
pub proof fn lemma_images_have_safe_names(dir: Seq<char>, names: Seq<Option<Seq<char>>>)
    requires
        names_safe(names),
    ensures
        forall|i: int|
            0 <= i < images_of(dir, names).len() ==> (#[trigger] images_of(
                dir,
                names,
            )[i]).well_formed(),
    decreases names.len(),
{
    if names.len() > 0 {
        let before = names.drop_last();
        assert forall|i: int| 0 <= i < before.len() implies (#[trigger] before[i] matches Some(
            name,
        ) ==> safe_file_name(name)) by {
            assert(before[i] == names[i]);
        }
        lemma_images_have_safe_names(dir, before);
        let earlier = images_of(dir, before);
        assert forall|i: int| 0 <= i < images_of(dir, names).len() implies (#[trigger] images_of(
            dir,
            names,
        )[i]).well_formed() by {
            if i < earlier.len() {
                assert(images_of(dir, names)[i] == earlier[i]);
            } else {
                assert(names.last() == names[names.len() - 1]);
            }
        }
    }
}

/// The images that the page `body` in the directory `dir` embeds, or
/// `Pattern` where a name is not a safe file name or a pattern that the
/// search needs does not compile: the tag pattern, and the name pattern
/// where there is a tag to search.
pub open spec fn document_images(dir: Seq<char>, body: Seq<char>) -> Result<
    Seq<ImageFileView>,
    ScrapeError,
> {
    match all_matches(IMAGE_TAG_PATTERN@, body) {
        Ok(tags) => if tags.len() > 0 && !regex_compiles(IMAGE_NAME_PATTERN@) {
            Err(ScrapeError::Pattern)
        } else {
            planned_images(dir, tag_names(tags))
        },
        Err(error) => Err(error),
    }
}

/// Turns what the name pattern matched in a tag into the file name: strips
/// the quotes from both ends.
pub fn file_name_of_match(found: Option<String>) -> (name: Option<String>)
    ensures
        name.deep_view() == image_name(found.deep_view()),
{
    match found {
        Some(quoted) => Some(String::from_str(trim_char(quoted.as_str(), '"'))),
        None => None,
    }
}

/// The file name that the tag `raw_url` refers to, if it holds one. Fails
/// with `Pattern` exactly where the name pattern does not compile.
pub fn clean_image_url(raw_url: &str) -> (name: Result<Option<String>, ScrapeError>)
    ensures
        outcome_view(name) == tag_name(raw_url@),
{
    match captures_text(IMAGE_NAME_PATTERN, raw_url) {
        Ok(found) => Ok(file_name_of_match(found)),
        Err(_) => Err(ScrapeError::Pattern),
    }
}

/// Builds the image records for the names found in a page's tags. A tag
/// without a name gives no image; a name that is not a safe file name fails
/// the whole page with `Pattern`.
pub fn images_from_names(base_url: &str, names: &Vec<Option<String>>) -> (images: Result<
    Vec<ImageFile>,
    ScrapeError,
>)
    ensures
        outcome_view(images) == planned_images(base_url@, names.deep_view()),
        images matches Ok(files) ==> forall|i: int|
            0 <= i < files.len() ==> (#[trigger] files[i])@.well_formed(),
{
    let ghost all = names.deep_view();
    let mut files: Vec<ImageFile> = Vec::new();
    let mut i: usize = 0;
    while i < names.len()
        invariant
            i <= names.len(),
            all == names.deep_view(),
            names_safe(all.take(i as int)),
            files.deep_view() == images_of(base_url@, all.take(i as int)),
        decreases names.len() - i,
    {
        proof {
            assert(all.take(i + 1).drop_last() =~= all.take(i as int));
            assert(all.take(i + 1).last() == all[i as int]);
            assert(all[i as int] == names@[i as int].deep_view());
        }
        match &names[i] {
            Some(name) => {
                if !is_safe_file_name(name.as_str()) {
                    assert(!names_safe(all));
                    return Err(ScrapeError::Pattern);
                }
                let ghost before = files.deep_view();
                let file = ImageFile {
                    url: join_with_slash(base_url, name.as_str()),
                    name: String::from_str(name.as_str()),
                };
                files.push(file);
                assert(files.deep_view() =~= before.push(image_of(base_url@, name@)));
            },
            None => {},
        }
        assert(names_safe(all.take(i + 1))) by {
            let upto = all.take(i + 1);
            assert forall|k: int| 0 <= k < upto.len() implies (#[trigger] upto[k] matches Some(n)
                ==> safe_file_name(n)) by {
                if k < i {
                    assert(all.take(i as int)[k] == upto[k]);
                }
            }
        }
        i += 1;
    }
    assert(all.take(i as int) =~= all);
    proof {
        lemma_images_have_safe_names(base_url@, all);
        assert forall|k: int| 0 <= k < files.len() implies (#[trigger] files[k])@.well_formed() by {
            assert(files.deep_view()[k] == files[k]@);
        }
    }
    Ok(files)
}

/// The images that the fetched page `html` embeds, to be fetched from the
/// directory `base_url`: one for each `<img ...>` tag that holds a file name,
/// in the order of the tags. Fails with `Pattern` exactly where a name is
/// not a safe file name or a pattern that the search needs does not compile.
pub fn get_document_images(base_url: String, html: &HTMLFile) -> (images: Result<
    Vec<ImageFile>,
    ScrapeError,
>)
    requires
        html.html_body is Some,
    ensures
        outcome_view(images) == document_images(base_url@, html@.html_body->0),
        images matches Ok(files) ==> forall|i: int|
            0 <= i < files.len() ==> (#[trigger] files[i])@.well_formed(),
{
    let body = html.html_body.as_ref().unwrap();
    let tags = match get_element_by_regex(IMAGE_TAG_PATTERN, body.as_str()) {
        Ok(tags) => tags,
        Err(e) => { return Err(e); },
    };
    let mut names: Vec<Option<String>> = Vec::new();
    let mut i: usize = 0;
    while i < tags.len()
        invariant
            i <= tags.len(),
            i > 0 ==> regex_compiles(IMAGE_NAME_PATTERN@),
            html.html_body is Some,
            all_matches(IMAGE_TAG_PATTERN@, html@.html_body->0) == Ok::<
                Seq<Seq<char>>,
                ScrapeError,
            >(tags.deep_view()),
            tags.deep_view().len() == tags.len(),
            names.deep_view() == tag_names(tags.deep_view()).take(i as int),
        decreases tags.len() - i,
    {
        let ghost before = names.deep_view();
        match clean_image_url(tags[i].as_str()) {
            Ok(name) => {
                let ghost found = name.deep_view();
                names.push(name);
                assert(names.deep_view() =~= before.push(found));
            },
            Err(e) => { return Err(e); },
        }
        assert(tags.deep_view()[i as int] == tags@[i as int]@);
        assert(names.deep_view() =~= tag_names(tags.deep_view()).take(i + 1));
        i += 1;
    }
    assert(names.deep_view() =~= tag_names(tags.deep_view()));
    match images_from_names(base_url.as_str(), &names) {
        Ok(files) => Ok(files),
        Err(e) => Err(e),
    }
}

} // verus!
