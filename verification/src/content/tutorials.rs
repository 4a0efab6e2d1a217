//! Tutorials: identifiers, texts, icons, colours, topics, and changes to them.

use vstd::prelude::*;

use crate::content::common::{
    byte_len, check_text, opt_text, opt_texts, split_words, texts_of, trimmed_text, utf8_len,
    words,
};
use crate::content::errors::ContentError;
use crate::crypto::fresh_nonce;
use crate::models::{
    CreateTutorialRequest, Tutorial, TutorialResponse, TutorialSummaryResponse,
    UpdateTutorialRequest,
};
use crate::text::{
    ascii_lower_text, char_is_alphanumeric, char_is_ascii_alnum, chars_eq, chars_of,
    chars_start_with, copy_range, is_ascii_alnum, lower_chars, split_chars, split_on, starts_with,
    str_eq, string_of, trim, trim_chars, unicode_alphanumeric,
};

verus! {

/// How many tutorials are listed when the client does not say.
pub fn default_tutorial_limit() -> (limit: i64)
    ensures
        limit == 50,
{
    50
}

/// A character that may stand in a tutorial identifier, given whether it is a letter or
/// number.
pub open spec fn is_id_char(c: char) -> bool {
    unicode_alphanumeric(c) || c == '-' || c == '_' || c == '.'
}

/// What is asked of a tutorial identifier, given its length in bytes and whether all
/// its characters are allowed: one to a hundred bytes, allowed characters only.
pub open spec fn id_outcome(bytes: nat, allowed: bool) -> Result<(), ContentError> {
    if bytes == 0 || bytes > 100 {
        Err(ContentError::TutorialIdLength)
    } else if !allowed {
        Err(ContentError::TutorialIdCharacters)
    } else {
        Ok(())
    }
}

/// Decides on a tutorial identifier from its length in bytes and whether all its
/// characters are allowed.
pub fn judge_tutorial_id(bytes: usize, allowed: bool) -> (r: Result<(), ContentError>)
    ensures
        r == id_outcome(bytes as nat, allowed),
{
    if bytes == 0 || bytes > 100 {
        Err(ContentError::TutorialIdLength)
    } else if !allowed {
        Err(ContentError::TutorialIdCharacters)
    } else {
        Ok(())
    }
}

/// Checks a tutorial identifier: letters and numbers of any script, `-`, `_` and `.`,
/// one to a hundred bytes.
pub fn validate_tutorial_id(id: &str) -> (r: Result<(), ContentError>)
    ensures
        r == id_outcome(byte_len(id@), forall|i: int| 0 <= i < id@.len() ==> is_id_char(#[trigger] id@[i])),
{
    let chars = chars_of(id);
    let mut allowed = true;
    let mut i: usize = 0;
    while i < chars.len()
        invariant
            i <= chars.len(),
            allowed == (forall|k: int| 0 <= k < i ==> is_id_char(#[trigger] chars@[k])),
        decreases chars.len() - i,
    {
        let c = chars[i];
        if !(char_is_alphanumeric(c) || c == '-' || c == '_' || c == '.') {
            allowed = false;
        }
        i += 1;
    }
    judge_tutorial_id(id.as_bytes().len(), allowed)
}

/// What is asked of the texts of a tutorial, in the order in which they are checked:
/// title, description and content, each not blank and within its limit once trimmed.
pub open spec fn tutorial_data_verdict(title: Seq<char>, description: Seq<char>, content: Seq<char>) -> Result<
    (),
    ContentError,
> {
    if trim(title).len() == 0 {
        Err(ContentError::TitleEmpty)
    } else if byte_len(trim(title)) > 200 {
        Err(ContentError::TitleTooLong)
    } else if trim(description).len() == 0 {
        Err(ContentError::DescriptionEmpty)
    } else if byte_len(trim(description)) > 1000 {
        Err(ContentError::DescriptionTooLong)
    } else if trim(content).len() == 0 {
        Err(ContentError::ContentEmpty)
    } else if byte_len(trim(content)) > 100000 {
        Err(ContentError::ContentTooLong)
    } else {
        Ok(())
    }
}

/// Checks the texts of a tutorial.
pub fn validate_tutorial_data(title: &str, description: &str, content: &str) -> (r: Result<
    (),
    ContentError,
>)
    ensures
        r == tutorial_data_verdict(title@, description@, content@),
{
    match check_text(title, 200, ContentError::TitleEmpty, ContentError::TitleTooLong) {
        Err(e) => {
            return Err(e);
        },
        Ok(()) => {},
    }
    match check_text(
        description,
        1000,
        ContentError::DescriptionEmpty,
        ContentError::DescriptionTooLong,
    ) {
        Err(e) => {
            return Err(e);
        },
        Ok(()) => {},
    }
    check_text(content, 100000, ContentError::ContentEmpty, ContentError::ContentTooLong)
}

/// The icons a tutorial may carry.
pub open spec fn is_allowed_icon(icon: Seq<char>) -> bool {
    icon == "Terminal"@ || icon == "FolderTree"@ || icon == "FileText"@ || icon == "Settings"@ || icon
        == "Shield"@ || icon == "Network"@ || icon == "Database"@ || icon == "Server"@
}

/// Checks the icon of a tutorial against the list of known icons.
pub fn validate_icon(icon: &str) -> (r: Result<(), ContentError>)
    ensures
        r == (if is_allowed_icon(icon@) {
            Ok::<(), ContentError>(())
        } else {
            Err::<(), ContentError>(ContentError::UnknownIcon)
        }),
{
    if str_eq(icon, "Terminal") || str_eq(icon, "FolderTree") || str_eq(icon, "FileText") || str_eq(
        icon,
        "Settings",
    ) || str_eq(icon, "Shield") || str_eq(icon, "Network") || str_eq(icon, "Database") || str_eq(
        icon,
        "Server",
    ) {
        Ok(())
    } else {
        Err(ContentError::UnknownIcon)
    }
}

/// Whether a word is a colour class with the given prefix: after its last `:`, the
/// prefix and then one to thirty-two ASCII letters, digits or hyphens.
pub open spec fn is_color_segment(segment: Seq<char>, prefix: Seq<char>) -> bool {
    let base = split_on(segment, ':').last();
    let suffix = base.skip(prefix.len() as int);
    &&& starts_with(base, prefix)
    &&& 0 < suffix.len() <= 32
    &&& forall|i: int| 0 <= i < suffix.len() ==> is_ascii_alnum(#[trigger] suffix[i]) || suffix[i] == '-'
}

#[verifier::loop_isolation(false)]
fn check_color_segment(segment: &Vec<char>, prefix: &str) -> (ok: bool)
    ensures
        ok == is_color_segment(segment@, prefix@),
{
    let pieces = split_chars(segment.as_slice(), ':');
    let base = &pieces[pieces.len() - 1];
    proof {
        let views = pieces@.map_values(|p: Vec<char>| p@);
        assert(views.last() == pieces@[pieces.len() - 1]@);
    }
    let lead = chars_of(prefix);
    if !chars_start_with(base.as_slice(), lead.as_slice()) {
        return false;
    }
    let suffix = copy_range(base.as_slice(), lead.len(), base.len());
    assert(suffix@ =~= base@.skip(lead.len() as int));
    if suffix.len() == 0 || suffix.len() > 32 {
        return false;
    }
    let mut i: usize = 0;
    while i < suffix.len()
        invariant
            i <= suffix.len(),
            forall|k: int| 0 <= k < i ==> is_ascii_alnum(#[trigger] suffix@[k]) || suffix@[k] == '-',
        decreases suffix.len() - i,
    {
        let c = suffix[i];
        if !(char_is_ascii_alnum(c) || c == '-') {
            assert(!(is_ascii_alnum(suffix@[i as int]) || suffix@[i as int] == '-'));
            return false;
        }
        i += 1;
    }
    true
}

/// What is asked of a colour gradient: two or three words, `from-…`, then `via-…` where
/// there are three, then `to-…`.
pub open spec fn color_verdict(color: Seq<char>) -> Result<(), ContentError> {
    let segments = words(color);
    if !(segments.len() == 2 || segments.len() == 3) {
        Err(ContentError::ColorShape)
    } else if !is_color_segment(segments[0], "from-"@) {
        Err(ContentError::ColorFrom)
    } else if segments.len() == 3 {
        if !is_color_segment(segments[1], "via-"@) {
            Err(ContentError::ColorVia)
        } else if !is_color_segment(segments[2], "to-"@) {
            Err(ContentError::ColorTo)
        } else {
            Ok(())
        }
    } else if !is_color_segment(segments[1], "to-"@) {
        Err(ContentError::ColorTo)
    } else {
        Ok(())
    }
}

/// Checks the colour gradient of a tutorial.
pub fn validate_color(color: &str) -> (r: Result<(), ContentError>)
    ensures
        r == color_verdict(color@),
{
    let chars = chars_of(color);
    let segments = split_words(chars.as_slice());
    proof {
        let views = segments@.map_values(|w: Vec<char>| w@);
        assert(forall|k: int| 0 <= k < segments.len() ==> (#[trigger] views[k]) == segments@[k]@);
    }
    if !(segments.len() == 2 || segments.len() == 3) {
        return Err(ContentError::ColorShape);
    }
    if !check_color_segment(&segments[0], "from-") {
        return Err(ContentError::ColorFrom);
    }
    if segments.len() == 3 {
        if !check_color_segment(&segments[1], "via-") {
            return Err(ContentError::ColorVia);
        }
        if !check_color_segment(&segments[2], "to-") {
            return Err(ContentError::ColorTo);
        }
    } else if !check_color_segment(&segments[1], "to-") {
        return Err(ContentError::ColorTo);
    }
    Ok(())
}

/// A topic as it is kept: trimmed, and cut to its first hundred characters where it has
/// more than a hundred bytes.
pub open spec fn kept_topic(topic: Seq<char>) -> Seq<char> {
    let trimmed = trim(topic);
    if byte_len(trimmed) > 100 {
        if trimmed.len() > 100 {
            trimmed.take(100)
        } else {
            trimmed
        }
    } else {
        trimmed
    }
}

/// Whether a topic, apart from ASCII case, is among those kept so far.
pub open spec fn topic_seen(kept: Seq<Seq<char>>, topic: Seq<char>) -> bool {
    exists|k: int| 0 <= k < kept.len() && ascii_lower_text(#[trigger] kept[k]) == ascii_lower_text(topic)
}

/// The topics kept from a list read from the left; an error at the first topic that
/// repeats one kept before. Blank topics are passed over.
pub open spec fn topics_scan(topics: Seq<Seq<char>>) -> Option<Seq<Seq<char>>>
    decreases topics.len(),
{
    if topics.len() == 0 {
        Some(Seq::empty())
    } else {
        match topics_scan(topics.drop_last()) {
            None => None,
            Some(kept) => {
                let topic = kept_topic(topics.last());
                if trim(topics.last()).len() == 0 {
                    Some(kept)
                } else if topic_seen(kept, topic) {
                    None
                } else {
                    Some(kept.push(topic))
                }
            },
        }
    }
}

/// What becomes of a list of topics: at most twenty are taken, none may repeat another
/// apart from ASCII case, and at least one has to be left.
pub open spec fn topics_verdict(topics: Seq<Seq<char>>) -> Result<Seq<Seq<char>>, ContentError> {
    if topics.len() > 20 {
        Err(ContentError::TooManyTopics)
    } else {
        match topics_scan(topics) {
            None => Err(ContentError::DuplicateTopics),
            Some(kept) => if kept.len() == 0 {
                Err(ContentError::NoTopics)
            } else {
                Ok(kept)
            },
        }
    }
}

/// Whether a topic repeats one kept before. The topics kept are searched one by one:
/// vstd gives hashing of integers a model, but not hashing of texts, so a hash set of
/// topics could not be reasoned about.
fn seen_before(kept: &Vec<Vec<char>>, topic: &Vec<char>) -> (r: bool)
    ensures
        r == topic_seen(kept@.map_values(|t: Vec<char>| t@), topic@),
{
    let folded = lower_chars(topic.as_slice());
    let ghost views = kept@.map_values(|t: Vec<char>| t@);
    let mut k: usize = 0;
    while k < kept.len()
        invariant
            k <= kept.len(),
            views == kept@.map_values(|t: Vec<char>| t@),
            folded@ == ascii_lower_text(topic@),
            forall|j: int| 0 <= j < k ==> ascii_lower_text(#[trigger] views[j]) != ascii_lower_text(topic@),
        decreases kept.len() - k,
    {
        let other = lower_chars(kept[k].as_slice());
        assert(views[k as int] == kept@[k as int]@);
        if chars_eq(other.as_slice(), folded.as_slice()) {
            return true;
        }
        k += 1;
    }
    false
}

/// Cleans a list of topics: trims each, drops blank ones, cuts overlong ones, and
/// refuses lists that are too long, repeat a topic, or are left empty.
#[verifier::loop_isolation(false)]
pub fn sanitize_topics(topics: &Vec<String>) -> (r: Result<Vec<String>, ContentError>)
    ensures
        match r {
            Ok(kept) => topics_verdict(topics@.map_values(|t: String| t@)) == Ok::<
                Seq<Seq<char>>,
                ContentError,
            >(kept@.map_values(|t: String| t@)),
            Err(e) => topics_verdict(topics@.map_values(|t: String| t@)) == Err::<
                Seq<Seq<char>>,
                ContentError,
            >(e),
        },
{
    if topics.len() > 20 {
        return Err(ContentError::TooManyTopics);
    }
    let ghost given = topics@.map_values(|t: String| t@);
    let mut kept: Vec<Vec<char>> = Vec::new();
    let mut i: usize = 0;
    while i < topics.len()
        invariant
            i <= topics.len(),
            given == topics@.map_values(|t: String| t@),
            topics_scan(given.take(i as int)) == Some(kept@.map_values(|t: Vec<char>| t@)),
        decreases topics.len() - i,
    {
        let chars = chars_of(topics[i].as_str());
        let trimmed = trim_chars(chars.as_slice());
        proof {
            assert(given.take(i + 1).drop_last() =~= given.take(i as int));
            assert(given.take(i + 1).last() == topics@[i as int]@);
        }
        if trimmed.len() > 0 {
            let limited = if utf8_len(trimmed.as_slice()) > 100 && trimmed.len() > 100 {
                let cut = copy_range(trimmed.as_slice(), 0, 100);
                assert(cut@ =~= trimmed@.take(100));
                cut
            } else {
                trimmed
            };
            assert(limited@ == kept_topic(topics@[i as int]@));
            if seen_before(&kept, &limited) {
                proof {
                    assert(topics_scan(given.take(i + 1)) is None);
                    lemma_topics_scan_stays_failed(given, i + 1);
                }
                return Err(ContentError::DuplicateTopics);
            }
            let ghost views = kept@.map_values(|t: Vec<char>| t@);
            kept.push(limited);
            assert(kept@.map_values(|t: Vec<char>| t@) =~= views.push(limited@));
        }
        i += 1;
    }
    assert(given.take(topics.len() as int) =~= given);
    if kept.len() == 0 {
        return Err(ContentError::NoTopics);
    }
    let mut out: Vec<String> = Vec::new();
    let mut k: usize = 0;
    while k < kept.len()
        invariant
            k <= kept.len(),
            out@.map_values(|t: String| t@) == kept@.map_values(|t: Vec<char>| t@).take(k as int),
        decreases kept.len() - k,
    {
        let ghost before = out@.map_values(|t: String| t@);
        let text = string_of(kept[k].as_slice());
        out.push(text);
        assert(out@.map_values(|t: String| t@) =~= before.push(kept@[k as int]@));
        assert(kept@.map_values(|t: Vec<char>| t@).take(k + 1) =~= kept@.map_values(
            |t: Vec<char>| t@,
        ).take(k as int).push(kept@[k as int]@));
        k += 1;
    }
    assert(kept@.map_values(|t: Vec<char>| t@).take(kept.len() as int) =~= kept@.map_values(
        |t: Vec<char>| t@,
    ));
    Ok(out)
}

/// Once a list of topics has failed, reading further topics does not mend it.
pub proof fn lemma_topics_scan_stays_failed(topics: Seq<Seq<char>>, i: int)
    requires
        0 <= i <= topics.len(),
        topics_scan(topics.take(i)) is None,
    ensures
        topics_scan(topics) is None,
    decreases topics.len() - i,
{
    if i == topics.len() {
        assert(topics.take(i) =~= topics);
    } else {
        assert(topics.take(i + 1).drop_last() =~= topics.take(i));
        lemma_topics_scan_stays_failed(topics, i + 1);
    }
}

/// The list of texts that a JSON text holds, where it is a JSON array of strings.
pub uninterp spec fn json_string_list(json: Seq<char>) -> Option<Seq<Seq<char>>>;

/// Trusted: `serde_json::from_str` at the type `Vec<String>`. The result depends on the
/// text alone.
#[verifier::external_body]
pub(crate) fn parse_string_list(json: &str) -> (r: Option<Vec<String>>)
    ensures
        match r {
            Some(list) => json_string_list(json@) == Some(list@.map_values(|s: String| s@)),
            None => json_string_list(json@) is None,
        },
{
    serde_json::from_str::<Vec<String>>(json).ok()
}

/// The topics of a stored tutorial, given what its topics text was read as: the list
/// where it could be read, no topics where it could not.
pub fn topics_or_none(parsed: Option<Vec<String>>) -> (topics: Vec<String>)
    ensures
        topics@.map_values(|s: String| s@) == match parsed {
            Some(list) => list@.map_values(|s: String| s@),
            None => Seq::<Seq<char>>::empty(),
        },
{
    match parsed {
        Some(list) => list,
        None => {
            let empty: Vec<String> = Vec::new();
            assert(empty@.map_values(|s: String| s@) =~= Seq::<Seq<char>>::empty());
            empty
        },
    }
}

/// The topics of a stored tutorial as a list.
pub open spec fn stored_topics(json: Seq<char>) -> Seq<Seq<char>> {
    match json_string_list(json) {
        Some(list) => list,
        None => Seq::empty(),
    }
}

impl TutorialResponse {
    /// A tutorial as sent to clients: every field as it is stored, and the topics as a
    /// list. Topics that cannot be read are sent as none; the conversion does not fail.
    pub fn try_from(tutorial: Tutorial) -> (r: Result<TutorialResponse, String>)
        ensures
            r matches Ok(response) && {
                &&& response.id == tutorial.id
                &&& response.title == tutorial.title
                &&& response.description == tutorial.description
                &&& response.icon == tutorial.icon
                &&& response.color == tutorial.color
                &&& response.topics@.map_values(|s: String| s@) == stored_topics(tutorial.topics@)
                &&& response.content == tutorial.content
                &&& response.version == tutorial.version
                &&& response.created_at == tutorial.created_at
                &&& response.updated_at == tutorial.updated_at
            },
    {
        let topics = topics_or_none(parse_string_list(tutorial.topics.as_str()));
        Ok(
            TutorialResponse {
                id: tutorial.id,
                title: tutorial.title,
                description: tutorial.description,
                icon: tutorial.icon,
                color: tutorial.color,
                topics,
                content: tutorial.content,
                version: tutorial.version,
                created_at: tutorial.created_at,
                updated_at: tutorial.updated_at,
            },
        )
    }
}

impl TutorialSummaryResponse {
    /// A tutorial as listed: every field but the content, and the topics as a list.
    pub fn try_from(tutorial: Tutorial) -> (r: Result<TutorialSummaryResponse, String>)
        ensures
            r matches Ok(response) && {
                &&& response.id == tutorial.id
                &&& response.title == tutorial.title
                &&& response.description == tutorial.description
                &&& response.icon == tutorial.icon
                &&& response.color == tutorial.color
                &&& response.topics@.map_values(|s: String| s@) == stored_topics(tutorial.topics@)
                &&& response.version == tutorial.version
                &&& response.created_at == tutorial.created_at
                &&& response.updated_at == tutorial.updated_at
            },
    {
        let topics = topics_or_none(parse_string_list(tutorial.topics.as_str()));
        Ok(
            TutorialSummaryResponse {
                id: tutorial.id,
                title: tutorial.title,
                description: tutorial.description,
                icon: tutorial.icon,
                color: tutorial.color,
                topics,
                version: tutorial.version,
                created_at: tutorial.created_at,
                updated_at: tutorial.updated_at,
            },
        )
    }
}

/// The JSON text of a list of texts; none where it cannot be written.
pub uninterp spec fn string_list_json(list: Seq<Seq<char>>) -> Option<Seq<char>>;

/// Trusted: `serde_json::to_string` of a `Vec<String>`. The text depends on the list
/// alone, and a list of strings can always be written.
#[verifier::external_body]
pub(crate) fn write_string_list(list: &Vec<String>) -> (r: Option<String>)
    ensures
        r is Some,
        r matches Some(json) ==> string_list_json(list@.map_values(|s: String| s@)) == Some(json@),
{
    serde_json::to_string(list).ok()
}

/// A text of a tutorial after a change: the new text trimmed where the change names
/// one, which then must not be blank, and the stored text trimmed where it does not.
pub open spec fn merged_text(update: Option<Seq<char>>, stored: Seq<char>, blank: ContentError) -> Result<
    Seq<char>,
    ContentError,
> {
    match update {
        Some(text) => if trim(text).len() == 0 {
            Err(blank)
        } else {
            Ok(trim(text))
        },
        None => Ok(trim(stored)),
    }
}

fn merge_text(update: &Option<String>, stored: &str, blank: ContentError) -> (r: Result<
    String,
    ContentError,
>)
    ensures
        match r {
            Ok(text) => merged_text(opt_text(*update), stored@, blank) == Ok::<Seq<char>, ContentError>(text@),
            Err(e) => merged_text(opt_text(*update), stored@, blank) == Err::<Seq<char>, ContentError>(e),
        },
{
    match update {
        Some(text) => {
            let trimmed = trimmed_text(text.as_str());
            if trimmed.as_str().is_empty() {
                Err(blank)
            } else {
                Ok(trimmed)
            }
        },
        None => Ok(trimmed_text(stored)),
    }
}

/// A tutorial as it is to be stored after a change.
pub struct TutorialChange {
    pub title: String,
    pub description: String,
    pub content: String,
    pub icon: String,
    pub color: String,
    pub topics: Vec<String>,
    /// The topics as JSON text.
    pub topics_json: String,
    /// The version the changed tutorial gets.
    pub version: i64,
}

/// The topics of a tutorial after a change, as a list and as JSON text, given what the
/// stored topics read as and what the new topics are written as: new topics are
/// cleaned and written anew, and without new topics the stored ones have to be
/// readable and are kept as they are written.
pub open spec fn merged_topics(
    update: Option<Seq<Seq<char>>>,
    stored_json: Seq<char>,
) -> Result<(Seq<Seq<char>>, Seq<char>), ContentError> {
    match update {
        Some(given) => match topics_verdict(given) {
            Err(e) => Err(e),
            Ok(kept) => match string_list_json(kept) {
                Some(json) => Ok((kept, json)),
                None => Err(ContentError::TopicsUnwritable),
            },
        },
        None => match json_string_list(stored_json) {
            Some(list) => Ok((list, stored_json)),
            None => Err(ContentError::StoredTopicsUnreadable),
        },
    }
}

/// What a change to a tutorial comes to, in the order in which it is checked: the three
/// texts must not be blanked, the merged texts, icon and colour have to pass the checks
/// on a tutorial, the version has to be countable, and the topics have to be in order.
pub open spec fn tutorial_change_verdict(stored: Tutorial, payload: UpdateTutorialRequest) -> Result<
    (Seq<char>, Seq<char>, Seq<char>, Seq<char>, Seq<char>, Seq<Seq<char>>, Seq<char>, int),
    ContentError,
> {
    let title = merged_text(opt_text(payload.title), stored.title@, ContentError::TitleEmpty);
    let description = merged_text(
        opt_text(payload.description),
        stored.description@,
        ContentError::DescriptionEmpty,
    );
    let content = merged_text(opt_text(payload.content), stored.content@, ContentError::ContentEmpty);
    let icon = match payload.icon {
        Some(i) => i@,
        None => stored.icon@,
    };
    let color = match payload.color {
        Some(c) => c@,
        None => stored.color@,
    };
    if title is Err {
        Err(title->Err_0)
    } else if description is Err {
        Err(description->Err_0)
    } else if content is Err {
        Err(content->Err_0)
    } else if tutorial_data_verdict(title->Ok_0, description->Ok_0, content->Ok_0) is Err {
        Err(tutorial_data_verdict(title->Ok_0, description->Ok_0, content->Ok_0)->Err_0)
    } else if !is_allowed_icon(icon) {
        Err(ContentError::UnknownIcon)
    } else if color_verdict(color) is Err {
        Err(color_verdict(color)->Err_0)
    } else if stored.version == i64::MAX {
        Err(ContentError::VersionOverflow)
    } else {
        match merged_topics(opt_texts(payload.topics), stored.topics@) {
            Err(e) => Err(e),
            Ok((topics, json)) => Ok(
                (
                    title->Ok_0,
                    description->Ok_0,
                    content->Ok_0,
                    icon,
                    color,
                    topics,
                    json,
                    stored.version + 1,
                ),
            ),
        }
    }
}

/// The view of a changed tutorial.
pub open spec fn change_view(change: TutorialChange) -> (
    Seq<char>,
    Seq<char>,
    Seq<char>,
    Seq<char>,
    Seq<char>,
    Seq<Seq<char>>,
    Seq<char>,
    int,
) {
    (
        change.title@,
        change.description@,
        change.content@,
        change.icon@,
        change.color@,
        texts_of(change.topics),
        change.topics_json@,
        change.version as int,
    )
}

/// Merges a change into a stored tutorial and checks the result. Fields the change
/// does not name keep their stored value; the version goes up by one.
pub fn merge_tutorial_update(stored: &Tutorial, payload: UpdateTutorialRequest) -> (r: Result<
    TutorialChange,
    ContentError,
>)
    ensures
        match r {
            Ok(change) => tutorial_change_verdict(*stored, payload) == Ok::<
                (Seq<char>, Seq<char>, Seq<char>, Seq<char>, Seq<char>, Seq<Seq<char>>, Seq<char>, int),
                ContentError,
            >(change_view(change)),
            Err(e) => tutorial_change_verdict(*stored, payload) == Err::<
                (Seq<char>, Seq<char>, Seq<char>, Seq<char>, Seq<char>, Seq<Seq<char>>, Seq<char>, int),
                ContentError,
            >(e),
        },
{
    let title = match merge_text(&payload.title, stored.title.as_str(), ContentError::TitleEmpty) {
        Ok(text) => text,
        Err(e) => {
            return Err(e);
        },
    };
    let description = match merge_text(
        &payload.description,
        stored.description.as_str(),
        ContentError::DescriptionEmpty,
    ) {
        Ok(text) => text,
        Err(e) => {
            return Err(e);
        },
    };
    let content = match merge_text(&payload.content, stored.content.as_str(), ContentError::ContentEmpty) {
        Ok(text) => text,
        Err(e) => {
            return Err(e);
        },
    };
    let icon: String = match &payload.icon {
        Some(i) => i.clone(),
        None => stored.icon.clone(),
    };
    let color: String = match &payload.color {
        Some(c) => c.clone(),
        None => stored.color.clone(),
    };
    match validate_tutorial_data(title.as_str(), description.as_str(), content.as_str()) {
        Err(e) => {
            return Err(e);
        },
        Ok(()) => {},
    }
    match validate_icon(icon.as_str()) {
        Err(e) => {
            return Err(e);
        },
        Ok(()) => {},
    }
    match validate_color(color.as_str()) {
        Err(e) => {
            return Err(e);
        },
        Ok(()) => {},
    }
    let version = match stored.version.checked_add(1) {
        Some(version) => version,
        None => {
            return Err(ContentError::VersionOverflow);
        },
    };
    let (topics, topics_json) = match &payload.topics {
        Some(given) => {
            let kept = match sanitize_topics(given) {
                Ok(kept) => kept,
                Err(e) => {
                    return Err(e);
                },
            };
            match write_string_list(&kept) {
                Some(json) => (kept, json),
                None => {
                    return Err(ContentError::TopicsUnwritable);
                },
            }
        },
        None => match parse_string_list(stored.topics.as_str()) {
            Some(list) => (list, stored.topics.clone()),
            None => {
                return Err(ContentError::StoredTopicsUnreadable);
            },
        },
    };
    Ok(TutorialChange { title, description, content, icon, color, topics, topics_json, version })
}

/// The identifier of a new tutorial: the one the editor asks for, trimmed and checked,
/// or a fresh random one.
pub fn new_tutorial_id(custom: Option<&str>) -> (r: Result<String, ContentError>)
    ensures
        match custom {
            Some(given) => match r {
                Ok(id) => id@ == trim(given@) && id_outcome(
                    byte_len(trim(given@)),
                    forall|i: int| 0 <= i < trim(given@).len() ==> is_id_char(#[trigger] trim(given@)[i]),
                ) is Ok,
                Err(e) => id_outcome(
                    byte_len(trim(given@)),
                    forall|i: int| 0 <= i < trim(given@).len() ==> is_id_char(#[trigger] trim(given@)[i]),
                ) == Err::<(), ContentError>(e),
            },
            None => r matches Ok(id) && id@.len() == 36,
        },
{
    match custom {
        Some(given) => {
            let trimmed = trimmed_text(given);
            match validate_tutorial_id(trimmed.as_str()) {
                Ok(()) => Ok(trimmed),
                Err(e) => Err(e),
            }
        },
        None => Ok(fresh_nonce()),
    }
}

/// What is asked of the identifier an editor may give a new tutorial: none is fine, one
/// that is given is trimmed and checked.
pub open spec fn requested_id_verdict(id: Option<String>) -> Result<(), ContentError> {
    match id {
        Some(given) => id_outcome(
            byte_len(trim(given@)),
            forall|i: int| 0 <= i < trim(given@).len() ==> is_id_char(#[trigger] trim(given@)[i]),
        ),
        None => Ok(()),
    }
}

/// Whether a new tutorial is taken, and the first complaint where it is not: about its
/// texts, then its icon, its colour, the identifier asked for, its topics, and last
/// about topics that cannot be written down for storing.
pub open spec fn creation_verdict(payload: CreateTutorialRequest) -> Result<(), ContentError> {
    if tutorial_data_verdict(payload.title@, payload.description@, payload.content@) is Err {
        tutorial_data_verdict(payload.title@, payload.description@, payload.content@)
    } else if !is_allowed_icon(payload.icon@) {
        Err(ContentError::UnknownIcon)
    } else if color_verdict(payload.color@) is Err {
        color_verdict(payload.color@)
    } else if requested_id_verdict(payload.id) is Err {
        requested_id_verdict(payload.id)
    } else {
        match topics_verdict(texts_of(payload.topics)) {
            Err(e) => Err(e),
            Ok(kept) => match string_list_json(kept) {
                Some(_) => Ok(()),
                None => Err(ContentError::TopicsUnwritable),
            },
        }
    }
}

/// What is asked of a new tutorial, in the order in which it is checked: its trimmed
/// texts, its icon, its colour, the identifier the editor asks for, and its topics.
/// What comes back is the tutorial as it is to be stored, with the version it starts at.
pub fn prepare_tutorial(payload: &CreateTutorialRequest) -> (r: Result<(String, TutorialChange), ContentError>)
    ensures
        match r {
            Ok((id, change)) => {
                &&& change.title@ == trim(payload.title@)
                &&& change.description@ == trim(payload.description@)
                &&& change.content@ == trim(payload.content@)
                &&& change.icon@ == payload.icon@
                &&& change.color@ == payload.color@
                &&& change.version == 1
                &&& creation_verdict(*payload) is Ok
                &&& topics_verdict(texts_of(payload.topics)) == Ok::<Seq<Seq<char>>, ContentError>(
                    texts_of(change.topics),
                )
                &&& string_list_json(texts_of(change.topics)) == Some(change.topics_json@)
                &&& payload.id is Some ==> id@ == trim(payload.id.unwrap()@)
                &&& payload.id is None ==> id@.len() == 36
            },
            Err(e) => creation_verdict(*payload) == Err::<(), ContentError>(e),
        },
{
    let title = trimmed_text(payload.title.as_str());
    let description = trimmed_text(payload.description.as_str());
    let content = trimmed_text(payload.content.as_str());
    match validate_tutorial_data(payload.title.as_str(), payload.description.as_str(), payload.content.as_str()) {
        Err(e) => {
            return Err(e);
        },
        Ok(()) => {},
    }
    match validate_icon(payload.icon.as_str()) {
        Err(e) => {
            return Err(e);
        },
        Ok(()) => {},
    }
    match validate_color(payload.color.as_str()) {
        Err(e) => {
            return Err(e);
        },
        Ok(()) => {},
    }
    let id = match &payload.id {
        Some(custom) => match new_tutorial_id(Some(custom.as_str())) {
            Ok(id) => id,
            Err(e) => {
                return Err(e);
            },
        },
        None => match new_tutorial_id(None) {
            Ok(id) => id,
            Err(e) => {
                return Err(e);
            },
        },
    };
    let topics = match sanitize_topics(&payload.topics) {
        Ok(kept) => kept,
        Err(e) => {
            return Err(e);
        },
    };
    let topics_json = match write_string_list(&topics) {
        Some(json) => json,
        None => {
            return Err(ContentError::TopicsUnwritable);
        },
    };
    Ok(
        (
            id,
            TutorialChange {
                title,
                description,
                content,
                icon: payload.icon.clone(),
                color: payload.color.clone(),
                topics,
                topics_json,
                version: 1,
            },
        ),
    )
}

} // verus!
