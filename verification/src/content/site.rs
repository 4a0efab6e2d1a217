//! Sections of site content, and where the database lives.

use vstd::prelude::*;

use crate::content::errors::ContentError;
use crate::text::{
    chars_of, chars_start_with, copy_range, find_char, index_of, starts_with, str_eq, string_of,
    trim, trim_chars,
};

verus! {

/// The sections of site content that exist.
pub open spec fn is_allowed_section(section: Seq<char>) -> bool {
    section == "hero"@ || section == "tutorial_section"@ || section == "header"@ || section == "footer"@
        || section == "site_meta"@ || section == "stats"@ || section == "cta_section"@ || section
        == "settings"@ || section == "login"@
}

/// The sections of site content that exist.
pub fn allowed_sections() -> (sections: Vec<&'static str>)
    ensures
        sections@.len() == 9,
        forall|i: int| 0 <= i < 9 ==> is_allowed_section((#[trigger] sections@[i])@),
        forall|name: Seq<char>|
            is_allowed_section(name) ==> exists|i: int| 0 <= i < 9 && (#[trigger] sections@[i])@ == name,
{
    let mut sections: Vec<&'static str> = Vec::new();
    sections.push("hero");
    sections.push("tutorial_section");
    sections.push("header");
    sections.push("footer");
    sections.push("site_meta");
    sections.push("stats");
    sections.push("cta_section");
    sections.push("settings");
    sections.push("login");
    assert forall|name: Seq<char>| is_allowed_section(name) implies exists|i: int|
        0 <= i < 9 && (#[trigger] sections@[i])@ == name by {
        if name == "hero"@ {
            assert(sections@[0]@ == name);
        } else if name == "tutorial_section"@ {
            assert(sections@[1]@ == name);
        } else if name == "header"@ {
            assert(sections@[2]@ == name);
        } else if name == "footer"@ {
            assert(sections@[3]@ == name);
        } else if name == "site_meta"@ {
            assert(sections@[4]@ == name);
        } else if name == "stats"@ {
            assert(sections@[5]@ == name);
        } else if name == "cta_section"@ {
            assert(sections@[6]@ == name);
        } else if name == "settings"@ {
            assert(sections@[7]@ == name);
        } else {
            assert(sections@[8]@ == name);
        }
    }
    sections
}

/// Checks that a section of site content exists.
pub fn validate_section(section: &str) -> (r: Result<(), ContentError>)
    ensures
        r == (if is_allowed_section(section@) {
            Ok::<(), ContentError>(())
        } else {
            Err::<(), ContentError>(ContentError::UnknownSection)
        }),
{
    if str_eq(section, "hero") || str_eq(section, "tutorial_section") || str_eq(section, "header")
        || str_eq(section, "footer") || str_eq(section, "site_meta") || str_eq(section, "stats")
        || str_eq(section, "cta_section") || str_eq(section, "settings") || str_eq(section, "login") {
        Ok(())
    } else {
        Err(ContentError::UnknownSection)
    }
}

/// Most bytes of a section's content, written as JSON.
pub const MAX_SECTION_BYTES: usize = 5_000_000;

/// Checks the size of a section's content, written as JSON.
pub fn validate_content_size(bytes: usize) -> (r: Result<(), ContentError>)
    ensures
        r == (if bytes <= MAX_SECTION_BYTES {
            Ok::<(), ContentError>(())
        } else {
            Err::<(), ContentError>(ContentError::SectionTooLarge)
        }),
{
    if bytes <= MAX_SECTION_BYTES {
        Ok(())
    } else {
        Err(ContentError::SectionTooLarge)
    }
}

/// What the checks on a section's structure read from its content.
#[derive(Clone, Copy, Debug, PartialEq, Eq, Structural)]
pub struct ContentShape {
    /// Whether the content is a JSON object. The other fields speak of its members.
    pub is_object: bool,
    pub has_title: bool,
    pub has_description: bool,
    pub has_features: bool,
    pub features_is_array: bool,
    pub has_brand: bool,
    pub has_nav_items: bool,
    pub nav_items_is_array: bool,
    pub has_quick_links: bool,
    pub has_keywords: bool,
    pub keywords_is_string: bool,
    pub has_pdf_enabled: bool,
    pub pdf_enabled_is_boolean: bool,
}

/// What is wrong with the structure of a section's content.
#[derive(Clone, Copy, Debug, PartialEq, Eq, Structural)]
pub enum StructureFault {
    NotAnObject,
    TitleMissing,
    DescriptionMissing,
    KeywordsNotText,
    HeroFieldsMissing,
    FeaturesNotArray,
    TutorialSectionFieldsMissing,
    HeaderFieldsMissing,
    NavItemsNotArray,
    FooterFieldsMissing,
    PdfEnabledNotBoolean,
}

/// The text of each fault.
pub open spec fn structure_fault_text(fault: StructureFault) -> Seq<char> {
    match fault {
        StructureFault::NotAnObject => "Expected JSON object"@,
        StructureFault::TitleMissing => "Missing required field 'title'"@,
        StructureFault::DescriptionMissing => "Missing required field 'description'"@,
        StructureFault::KeywordsNotText => "Field 'keywords' must be a string"@,
        StructureFault::HeroFieldsMissing => "Missing required fields 'title' or 'features'"@,
        StructureFault::FeaturesNotArray => "Field 'features' must be an array"@,
        StructureFault::TutorialSectionFieldsMissing => "Missing required fields 'title' or 'description'"@,
        StructureFault::HeaderFieldsMissing => "Missing required fields 'brand' or 'navItems'"@,
        StructureFault::NavItemsNotArray => "Field 'navItems' must be an array"@,
        StructureFault::FooterFieldsMissing => "Missing required fields 'brand' or 'quickLinks'"@,
        StructureFault::PdfEnabledNotBoolean => "Field 'pdfEnabled' must be a boolean"@,
    }
}

impl StructureFault {
    /// The text sent to the client, after the name of the section.
    pub fn message(&self) -> (text: &'static str)
        ensures
            text@ == structure_fault_text(*self),
    {
        match self {
            StructureFault::NotAnObject => "Expected JSON object",
            StructureFault::TitleMissing => "Missing required field 'title'",
            StructureFault::DescriptionMissing => "Missing required field 'description'",
            StructureFault::KeywordsNotText => "Field 'keywords' must be a string",
            StructureFault::HeroFieldsMissing => "Missing required fields 'title' or 'features'",
            StructureFault::FeaturesNotArray => "Field 'features' must be an array",
            StructureFault::TutorialSectionFieldsMissing => "Missing required fields 'title' or 'description'",
            StructureFault::HeaderFieldsMissing => "Missing required fields 'brand' or 'navItems'",
            StructureFault::NavItemsNotArray => "Field 'navItems' must be an array",
            StructureFault::FooterFieldsMissing => "Missing required fields 'brand' or 'quickLinks'",
            StructureFault::PdfEnabledNotBoolean => "Field 'pdfEnabled' must be a boolean",
        }
    }
}

/// Whether a section is one whose content has to have a certain structure.
pub open spec fn is_structured_section(section: Seq<char>) -> bool {
    section == "hero"@ || section == "tutorial_section"@ || section == "header"@ || section == "footer"@
        || section == "settings"@ || section == "site_meta"@ || section == "login"@
}

/// What is asked of the structure of a section's content. The sections with a
/// structure of their own want a JSON object, and of its members:
/// the hero a title and a list of features; the tutorial section a title and a
/// description; the header a brand and a list of navigation items; the footer a brand
/// and quick links; the settings a boolean where PDF is switched; the site's metadata a
/// title, a description and keywords as text, if any; the login a title. Everything
/// else passes.
pub open spec fn structure_verdict(section: Seq<char>, shape: ContentShape) -> Result<(), StructureFault> {
    if !is_structured_section(section) {
        Ok(())
    } else if !shape.is_object {
        Err(StructureFault::NotAnObject)
    } else if section == "hero"@ {
        if !shape.has_title || !shape.has_features {
            Err(StructureFault::HeroFieldsMissing)
        } else if !shape.features_is_array {
            Err(StructureFault::FeaturesNotArray)
        } else {
            Ok(())
        }
    } else if section == "tutorial_section"@ {
        if !shape.has_title || !shape.has_description {
            Err(StructureFault::TutorialSectionFieldsMissing)
        } else {
            Ok(())
        }
    } else if section == "header"@ {
        if !shape.has_brand || !shape.has_nav_items {
            Err(StructureFault::HeaderFieldsMissing)
        } else if !shape.nav_items_is_array {
            Err(StructureFault::NavItemsNotArray)
        } else {
            Ok(())
        }
    } else if section == "footer"@ {
        if !shape.has_brand || !shape.has_quick_links {
            Err(StructureFault::FooterFieldsMissing)
        } else {
            Ok(())
        }
    } else if section == "settings"@ {
        if shape.has_pdf_enabled && !shape.pdf_enabled_is_boolean {
            Err(StructureFault::PdfEnabledNotBoolean)
        } else {
            Ok(())
        }
    } else if section == "site_meta"@ {
        if !shape.has_title {
            Err(StructureFault::TitleMissing)
        } else if !shape.has_description {
            Err(StructureFault::DescriptionMissing)
        } else if shape.has_keywords && !shape.keywords_is_string {
            Err(StructureFault::KeywordsNotText)
        } else {
            Ok(())
        }
    } else {
        if !shape.has_title {
            Err(StructureFault::TitleMissing)
        } else {
            Ok(())
        }
    }
}

/// Checks the structure of a section's content, given what was read from it.
pub fn validate_content_structure(section: &str, shape: &ContentShape) -> (r: Result<(), StructureFault>)
    ensures
        r == structure_verdict(section@, *shape),
{
    let hero = str_eq(section, "hero");
    let tutorial_section = str_eq(section, "tutorial_section");
    let header = str_eq(section, "header");
    let footer = str_eq(section, "footer");
    let settings = str_eq(section, "settings");
    let site_meta = str_eq(section, "site_meta");
    let login = str_eq(section, "login");
    if !(hero || tutorial_section || header || footer || settings || site_meta || login) {
        return Ok(());
    }
    if !shape.is_object {
        return Err(StructureFault::NotAnObject);
    }
    if hero {
        if !shape.has_title || !shape.has_features {
            Err(StructureFault::HeroFieldsMissing)
        } else if !shape.features_is_array {
            Err(StructureFault::FeaturesNotArray)
        } else {
            Ok(())
        }
    } else if tutorial_section {
        if !shape.has_title || !shape.has_description {
            Err(StructureFault::TutorialSectionFieldsMissing)
        } else {
            Ok(())
        }
    } else if header {
        if !shape.has_brand || !shape.has_nav_items {
            Err(StructureFault::HeaderFieldsMissing)
        } else if !shape.nav_items_is_array {
            Err(StructureFault::NavItemsNotArray)
        } else {
            Ok(())
        }
    } else if footer {
        if !shape.has_brand || !shape.has_quick_links {
            Err(StructureFault::FooterFieldsMissing)
        } else {
            Ok(())
        }
    } else if settings {
        if shape.has_pdf_enabled && !shape.pdf_enabled_is_boolean {
            Err(StructureFault::PdfEnabledNotBoolean)
        } else {
            Ok(())
        }
    } else if site_meta {
        if !shape.has_title {
            Err(StructureFault::TitleMissing)
        } else if !shape.has_description {
            Err(StructureFault::DescriptionMissing)
        } else if shape.has_keywords && !shape.keywords_is_string {
            Err(StructureFault::KeywordsNotText)
        } else {
            Ok(())
        }
    } else {
        if !shape.has_title {
            Err(StructureFault::TitleMissing)
        } else {
            Ok(())
        }
    }
}

/// The file behind a database address of the form `sqlite:<path>[?options]`; none for
/// other addresses, for in-memory databases and for blank paths. A path written with
/// two or three leading slashes loses one or two of them.
pub open spec fn sqlite_path(url: Seq<char>) -> Option<Seq<char>> {
    let prefix = "sqlite:"@;
    if !starts_with(url, prefix) {
        None
    } else {
        let rest = url.skip(prefix.len() as int);
        if rest.len() == 0 || rest[0] == ':' {
            None
        } else {
            let path = rest.take(index_of(rest, '?'));
            let normalized = if starts_with(path, "///"@) {
                path.skip(2)
            } else if starts_with(path, "//"@) {
                path.skip(1)
            } else {
                path
            };
            if trim(normalized).len() == 0 {
                None
            } else {
                Some(normalized)
            }
        }
    }
}

/// Finds the file behind a database address.
pub fn sqlite_file_path(database_url: &str) -> (r: Option<String>)
    ensures
        match r {
            Some(path) => sqlite_path(database_url@) == Some(path@),
            None => sqlite_path(database_url@) is None,
        },
{
    let chars = chars_of(database_url);
    let prefix = chars_of("sqlite:");
    if !chars_start_with(chars.as_slice(), prefix.as_slice()) {
        return None;
    }
    let rest = copy_range(chars.as_slice(), prefix.len(), chars.len());
    assert(rest@ =~= chars@.skip(prefix.len() as int));
    if rest.len() == 0 || rest[0] == ':' {
        return None;
    }
    let cut = find_char(rest.as_slice(), '?');
    let path = copy_range(rest.as_slice(), 0, cut);
    assert(path@ =~= rest@.take(cut as int));
    let three = chars_of("///");
    let two = chars_of("//");
    let normalized = if chars_start_with(path.as_slice(), three.as_slice()) {
        proof {
            reveal_strlit("///");
        }
        let shorter = copy_range(path.as_slice(), 2, path.len());
        assert(shorter@ =~= path@.skip(2));
        shorter
    } else if chars_start_with(path.as_slice(), two.as_slice()) {
        proof {
            reveal_strlit("//");
        }
        let shorter = copy_range(path.as_slice(), 1, path.len());
        assert(shorter@ =~= path@.skip(1));
        shorter
    } else {
        path
    };
    let trimmed = trim_chars(normalized.as_slice());
    if trimmed.len() == 0 {
        return None;
    }
    Some(string_of(normalized.as_slice()))
}

} // verus!
