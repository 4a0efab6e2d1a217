//! Pages: the texts of a page as they are checked, stored and shown, and the navigation
//! made from the pages.

use vstd::prelude::*;

use crate::content::common::{byte_len, opt_text, trimmed_text};
use crate::content::errors::ContentError;
use crate::content::posts::{clean_slug, sanitize_slug};
use crate::models::{NavigationItemResponse, NavigationResponse, SitePage};
use crate::text::{text_of, trim};

verus! {

/// Most bytes of the hero and of the layout of a page, written as JSON.
pub const MAX_PAGE_JSON_BYTES: usize = 200_000;

/// The texts of a page.
#[derive(Debug)]
pub struct PageTexts {
    pub slug: String,
    pub title: String,
    pub description: Option<String>,
    pub nav_label: Option<String>,
}

/// The texts that a change to a page names. For the navigation label, naming none
/// takes the label away.
#[derive(Debug)]
pub struct PageTextsChange {
    pub slug: Option<String>,
    pub title: Option<String>,
    pub description: Option<String>,
    pub nav_label: Option<Option<String>>,
}

/// A navigation label as it is stored: trimmed, and none where nothing is left.
pub open spec fn clean_label(label: Option<Seq<char>>) -> Option<Seq<char>> {
    match label {
        Some(text) => if trim(text).len() == 0 {
            None
        } else {
            Some(trim(text))
        },
        None => None,
    }
}

/// Brings a navigation label into the form in which it is stored.
pub fn sanitize_nav_label(label: Option<&str>) -> (clean: Option<String>)
    ensures
        opt_text(clean) == clean_label(text_of(label)),
{
    match label {
        Some(text) => {
            let trimmed = trimmed_text(text);
            if trimmed.as_str().is_empty() {
                None
            } else {
                Some(trimmed)
            }
        },
        None => None,
    }
}

/// What is asked of a new page, in the order in which it is checked: a slug, a title of
/// at most 200 bytes, a description of at most 1000, a navigation label of at most 100,
/// and a hero and a layout within their size.
pub open spec fn page_verdict(
    slug: Seq<char>,
    title: Seq<char>,
    description: Option<Seq<char>>,
    nav_label: Option<Seq<char>>,
    hero_bytes: nat,
    layout_bytes: nat,
) -> Result<(), ContentError> {
    if clean_slug(slug).len() == 0 {
        Err(ContentError::SlugEmpty)
    } else if trim(title).len() == 0 {
        Err(ContentError::TitleEmpty)
    } else if byte_len(trim(title)) > 200 {
        Err(ContentError::TitleTooLong)
    } else if description is Some && byte_len(trim(description.unwrap())) > 1000 {
        Err(ContentError::DescriptionTooLong)
    } else if clean_label(nav_label) is Some && byte_len(clean_label(nav_label).unwrap()) > 100 {
        Err(ContentError::NavLabelTooLong)
    } else if hero_bytes > MAX_PAGE_JSON_BYTES {
        Err(ContentError::HeroTooLarge)
    } else if layout_bytes > MAX_PAGE_JSON_BYTES {
        Err(ContentError::LayoutTooLarge)
    } else {
        Ok(())
    }
}

/// Checks a new page, given its texts and the sizes of its hero and its layout written
/// as JSON, and brings the texts into the form in which they are stored: the slug
/// trimmed and in lower case, the others trimmed, a blank navigation label dropped.
pub fn prepare_page(
    slug: &str,
    title: &str,
    description: Option<&str>,
    nav_label: Option<&str>,
    hero_bytes: usize,
    layout_bytes: usize,
) -> (r: Result<PageTexts, ContentError>)
    ensures
        match r {
            Ok(texts) => {
                &&& page_verdict(
                    slug@,
                    title@,
                    text_of(description),
                    text_of(nav_label),
                    hero_bytes as nat,
                    layout_bytes as nat,
                ) is Ok
                &&& texts.slug@ == clean_slug(slug@)
                &&& texts.title@ == trim(title@)
                &&& opt_text(texts.description) == (match description {
                    Some(text) => Some(trim(text@)),
                    None => None,
                })
                &&& opt_text(texts.nav_label) == clean_label(text_of(nav_label))
            },
            Err(e) => page_verdict(
                slug@,
                title@,
                text_of(description),
                text_of(nav_label),
                hero_bytes as nat,
                layout_bytes as nat,
            ) == Err::<(), ContentError>(e),
        },
{
    let clean = sanitize_slug(slug);
    if clean.as_str().is_empty() {
        return Err(ContentError::SlugEmpty);
    }
    let trimmed_title = trimmed_text(title);
    if trimmed_title.as_str().is_empty() {
        return Err(ContentError::TitleEmpty);
    }
    if trimmed_title.as_str().as_bytes().len() > 200 {
        return Err(ContentError::TitleTooLong);
    }
    let trimmed_description: Option<String> = match description {
        Some(text) => {
            let trimmed = trimmed_text(text);
            if trimmed.as_str().as_bytes().len() > 1000 {
                return Err(ContentError::DescriptionTooLong);
            }
            Some(trimmed)
        },
        None => None,
    };
    let label = sanitize_nav_label(nav_label);
    match &label {
        Some(text) => {
            if text.as_str().as_bytes().len() > 100 {
                return Err(ContentError::NavLabelTooLong);
            }
        },
        None => {},
    }
    if hero_bytes > MAX_PAGE_JSON_BYTES {
        return Err(ContentError::HeroTooLarge);
    }
    if layout_bytes > MAX_PAGE_JSON_BYTES {
        return Err(ContentError::LayoutTooLarge);
    }
    Ok(PageTexts { slug: clean, title: trimmed_title, description: trimmed_description, nav_label: label })
}

/// The navigation label that a change names, as it is stored.
pub open spec fn changed_label(nav_label: Option<Option<Seq<char>>>) -> Option<Option<Seq<char>>> {
    match nav_label {
        Some(label) => Some(clean_label(label)),
        None => None,
    }
}

/// What is asked of a change to a page, in the order in which it is checked, each only
/// where the change names it.
pub open spec fn page_update_verdict(
    slug: Option<Seq<char>>,
    title: Option<Seq<char>>,
    description: Option<Seq<char>>,
    nav_label: Option<Option<Seq<char>>>,
    hero_bytes: Option<usize>,
    layout_bytes: Option<usize>,
) -> Result<(), ContentError> {
    if slug is Some && clean_slug(slug.unwrap()).len() == 0 {
        Err(ContentError::SlugEmpty)
    } else if title is Some && trim(title.unwrap()).len() == 0 {
        Err(ContentError::TitleEmpty)
    } else if title is Some && byte_len(trim(title.unwrap())) > 200 {
        Err(ContentError::TitleTooLong)
    } else if description is Some && byte_len(trim(description.unwrap())) > 1000 {
        Err(ContentError::DescriptionTooLong)
    } else if nav_label is Some && clean_label(nav_label.unwrap()) is Some && byte_len(
        clean_label(nav_label.unwrap()).unwrap(),
    ) > 100 {
        Err(ContentError::NavLabelTooLong)
    } else if hero_bytes is Some && hero_bytes.unwrap() > MAX_PAGE_JSON_BYTES {
        Err(ContentError::HeroTooLarge)
    } else if layout_bytes is Some && layout_bytes.unwrap() > MAX_PAGE_JSON_BYTES {
        Err(ContentError::LayoutTooLarge)
    } else {
        Ok(())
    }
}

/// The view of a navigation label that a change names.
pub open spec fn label_change_view(nav_label: Option<Option<String>>) -> Option<Option<Seq<char>>> {
    match nav_label {
        Some(label) => Some(opt_text(label)),
        None => None,
    }
}

/// The view of a navigation label that a change names, before it is cleaned.
pub open spec fn label_request_view(nav_label: Option<Option<&str>>) -> Option<Option<Seq<char>>> {
    match nav_label {
        Some(label) => Some(text_of(label)),
        None => None,
    }
}

/// Checks a change to a page and brings the texts it names into the form in which they
/// are stored.
pub fn prepare_page_update(
    slug: Option<&str>,
    title: Option<&str>,
    description: Option<&str>,
    nav_label: Option<Option<&str>>,
    hero_bytes: Option<usize>,
    layout_bytes: Option<usize>,
) -> (r: Result<PageTextsChange, ContentError>)
    ensures
        match r {
            Ok(change) => {
                &&& page_update_verdict(
                    text_of(slug),
                    text_of(title),
                    text_of(description),
                    label_request_view(nav_label),
                    hero_bytes,
                    layout_bytes,
                ) is Ok
                &&& opt_text(change.slug) == (match slug {
                    Some(text) => Some(clean_slug(text@)),
                    None => None,
                })
                &&& opt_text(change.title) == (match title {
                    Some(text) => Some(trim(text@)),
                    None => None,
                })
                &&& opt_text(change.description) == (match description {
                    Some(text) => Some(trim(text@)),
                    None => None,
                })
                &&& label_change_view(change.nav_label) == changed_label(label_request_view(nav_label))
            },
            Err(e) => page_update_verdict(
                text_of(slug),
                text_of(title),
                text_of(description),
                label_request_view(nav_label),
                hero_bytes,
                layout_bytes,
            ) == Err::<(), ContentError>(e),
        },
{
    let new_slug: Option<String> = match slug {
        Some(text) => {
            let clean = sanitize_slug(text);
            if clean.as_str().is_empty() {
                return Err(ContentError::SlugEmpty);
            }
            Some(clean)
        },
        None => None,
    };
    let new_title: Option<String> = match title {
        Some(text) => {
            let trimmed = trimmed_text(text);
            if trimmed.as_str().is_empty() {
                return Err(ContentError::TitleEmpty);
            }
            if trimmed.as_str().as_bytes().len() > 200 {
                return Err(ContentError::TitleTooLong);
            }
            Some(trimmed)
        },
        None => None,
    };
    let new_description: Option<String> = match description {
        Some(text) => {
            let trimmed = trimmed_text(text);
            if trimmed.as_str().as_bytes().len() > 1000 {
                return Err(ContentError::DescriptionTooLong);
            }
            Some(trimmed)
        },
        None => None,
    };
    let new_label: Option<Option<String>> = match nav_label {
        Some(label) => {
            let clean = sanitize_nav_label(label);
            match &clean {
                Some(text) => {
                    if text.as_str().as_bytes().len() > 100 {
                        return Err(ContentError::NavLabelTooLong);
                    }
                },
                None => {},
            }
            Some(clean)
        },
        None => None,
    };
    match hero_bytes {
        Some(bytes) => {
            if bytes > MAX_PAGE_JSON_BYTES {
                return Err(ContentError::HeroTooLarge);
            }
        },
        None => {},
    }
    match layout_bytes {
        Some(bytes) => {
            if bytes > MAX_PAGE_JSON_BYTES {
                return Err(ContentError::LayoutTooLarge);
            }
        },
        None => {},
    }
    Ok(PageTextsChange { slug: new_slug, title: new_title, description: new_description, nav_label: new_label })
}

/// The title under which a stored page is shown: its own, trimmed, or its slug where
/// the title is blank.
pub open spec fn shown_title(slug: Seq<char>, title: Seq<char>) -> Seq<char> {
    if trim(title).len() == 0 {
        clean_slug(slug)
    } else {
        trim(title)
    }
}

/// The texts of a stored page as they are shown: the slug trimmed and in lower case,
/// the title trimmed or replaced by the slug where it is blank, the description
/// trimmed, a blank navigation label dropped.
pub fn present_page(page: &SitePage) -> (texts: PageTexts)
    ensures
        texts.slug@ == clean_slug(page.slug@),
        texts.title@ == shown_title(page.slug@, page.title@),
        opt_text(texts.description) == Some(trim(page.description@)),
        opt_text(texts.nav_label) == clean_label(opt_text(page.nav_label)),
{
    let slug = sanitize_slug(page.slug.as_str());
    let trimmed = trimmed_text(page.title.as_str());
    let title = if trimmed.as_str().is_empty() {
        slug.clone()
    } else {
        trimmed
    };
    let nav_label = match &page.nav_label {
        Some(label) => sanitize_nav_label(Some(label.as_str())),
        None => None,
    };
    PageTexts { slug, title, description: Some(trimmed_text(page.description.as_str())), nav_label }
}

/// The label of a page in the navigation: its navigation label as it is written, unless
/// that is missing or blank, and then its trimmed title.
pub open spec fn navigation_label(nav_label: Option<Seq<char>>, title: Seq<char>) -> Seq<char> {
    match nav_label {
        Some(label) => if trim(label).len() > 0 {
            label
        } else {
            trim(title)
        },
        None => trim(title),
    }
}

/// Whether an entry of the navigation is the one of a page.
pub open spec fn is_entry_of(item: NavigationItemResponse, page: SitePage) -> bool {
    &&& item.id@ == page.id@
    &&& item.slug@ == clean_slug(page.slug@)
    &&& item.label@ == navigation_label(opt_text(page.nav_label), page.title@)
    &&& item.order_index == page.order_index
}

/// The entry of a page in the navigation; none for a page whose slug is blank.
pub fn navigation_item(page: &SitePage) -> (r: Option<NavigationItemResponse>)
    ensures
        r is Some <==> clean_slug(page.slug@).len() > 0,
        r matches Some(item) ==> is_entry_of(item, *page),
{
    let slug = sanitize_slug(page.slug.as_str());
    if slug.as_str().is_empty() {
        return None;
    }
    let title = trimmed_text(page.title.as_str());
    let label = match &page.nav_label {
        Some(given) => {
            let trimmed = trimmed_text(given.as_str());
            if trimmed.as_str().is_empty() {
                title
            } else {
                given.clone()
            }
        },
        None => title,
    };
    Some(NavigationItemResponse { id: page.id.clone(), slug, label, order_index: page.order_index })
}

/// The pages that get an entry in the navigation, in their order: those whose slug is
/// not blank.
pub open spec fn navigable(pages: Seq<SitePage>) -> Seq<SitePage> {
    pages.filter(|page: SitePage| clean_slug(page.slug@).len() > 0)
}

/// The navigation made from the pages that are to be shown in it: one entry for each
/// page whose slug is not blank, in the order of the pages.
pub fn navigation(pages: &Vec<SitePage>) -> (r: NavigationResponse)
    ensures
        r.items@.len() == navigable(pages@).len(),
        forall|i: int| 0 <= i < r.items@.len() ==> is_entry_of(#[trigger] r.items@[i], navigable(pages@)[i]),
{
    let mut items: Vec<NavigationItemResponse> = Vec::new();
    let mut i: usize = 0;
    proof {
        assert(pages@.take(0) =~= Seq::<SitePage>::empty());
        reveal(Seq::filter);
    }
    while i < pages.len()
        invariant
            i <= pages.len(),
            items@.len() == navigable(pages@.take(i as int)).len(),
            forall|k: int|
                0 <= k < items@.len() ==> is_entry_of(#[trigger] items@[k], navigable(pages@.take(i as int))[k]),
        decreases pages.len() - i,
    {
        proof {
            let shorter = pages@.take(i as int);
            let longer = pages@.take(i + 1);
            assert(longer.drop_last() =~= shorter);
            assert(longer.last() == pages@[i as int]);
            reveal(Seq::filter);
            assert(navigable(longer) == if clean_slug(pages@[i as int].slug@).len() > 0 {
                navigable(shorter).push(pages@[i as int])
            } else {
                navigable(shorter)
            });
        }
        match navigation_item(&pages[i]) {
            Some(item) => {
                items.push(item);
            },
            None => {},
        }
        i += 1;
    }
    assert(pages@.take(pages.len() as int) =~= pages@);
    NavigationResponse { items }
}

/// The slugs under which pages are reached, in their order: each trimmed and in lower
/// case, blank ones left out.
pub open spec fn reachable_slugs(slugs: Seq<Seq<char>>) -> Seq<Seq<char>> {
    slugs.map_values(|slug: Seq<char>| clean_slug(slug)).filter(|slug: Seq<char>| slug.len() > 0)
}

/// The slugs under which the given pages are reached.
pub fn published_slugs(pages: &Vec<SitePage>) -> (r: Vec<String>)
    ensures
        r@.map_values(|slug: String| slug@) == reachable_slugs(pages@.map_values(|page: SitePage| page.slug@)),
{
    let ghost given = pages@.map_values(|page: SitePage| page.slug@);
    let mut out: Vec<String> = Vec::new();
    let mut i: usize = 0;
    proof {
        reveal(Seq::filter);
        assert(given.take(0).map_values(|slug: Seq<char>| clean_slug(slug)) =~= Seq::<Seq<char>>::empty());
        assert(out@.map_values(|slug: String| slug@) =~= reachable_slugs(given.take(0)));
    }
    while i < pages.len()
        invariant
            i <= pages.len(),
            given == pages@.map_values(|page: SitePage| page.slug@),
            out@.map_values(|slug: String| slug@) == reachable_slugs(given.take(i as int)),
        decreases pages.len() - i,
    {
        let slug = sanitize_slug(pages[i].slug.as_str());
        proof {
            let shorter = given.take(i as int).map_values(|slug: Seq<char>| clean_slug(slug));
            let longer = given.take(i + 1).map_values(|slug: Seq<char>| clean_slug(slug));
            assert(longer.drop_last() =~= shorter);
            assert(longer.last() == slug@);
            reveal(Seq::filter);
        }
        if !slug.as_str().is_empty() {
            let ghost before = out@.map_values(|slug: String| slug@);
            out.push(slug);
            assert(out@.map_values(|slug: String| slug@) =~= before.push(slug@));
        }
        i += 1;
    }
    assert(given.take(pages.len() as int) =~= given);
    out
}

} // verus!
