//! Decoding a story review: a named, grouped collection of stories sharing a
//! category tag.

use vstd::prelude::*;
use crate::error::{DecodeError, ErrorModel};
use crate::json::JsonValue;
use crate::story::{DetailModel, StoryDetail};
use crate::strutil::str_eq;

verus! {

/// The coarse classification of an activity, used to group activities for
/// navigation. Every tag outside the fixed set falls back to `Unclassified`.
#[derive(Debug, Clone, Copy, PartialEq, Eq, Structural)]
pub enum EntryType {
    Activity,
    MiniActivity,
    Mainline,
    Unclassified,
}

/// The category tag that a raw `entryType` string denotes.
pub open spec fn spec_entry_type(s: Seq<char>) -> EntryType {
    if s == "ACTIVITY"@ {
        EntryType::Activity
    } else if s == "MINI_ACTIVITY"@ {
        EntryType::MiniActivity
    } else if s == "MAINLINE"@ {
        EntryType::Mainline
    } else {
        EntryType::Unclassified
    }
}

/// The category key that an entry type is displayed and grouped under.
pub open spec fn spec_label(t: EntryType) -> Seq<char> {
    match t {
        EntryType::Activity => "activity"@,
        EntryType::MiniActivity => "mini_activity"@,
        EntryType::Mainline => "mainline"@,
        EntryType::Unclassified => "none"@,
    }
}

impl EntryType {
    /// Classifies a raw `entryType` string.
    pub fn parse(s: &str) -> (r: EntryType)
        ensures
            r == spec_entry_type(s@),
    {
        if str_eq(s, "ACTIVITY") {
            EntryType::Activity
        } else if str_eq(s, "MINI_ACTIVITY") {
            EntryType::MiniActivity
        } else if str_eq(s, "MAINLINE") {
            EntryType::Mainline
        } else {
            EntryType::Unclassified
        }
    }

    /// The category key this entry type is grouped under.
    pub fn label(&self) -> (r: String)
        ensures
            r@ == spec_label(*self),
    {
        match self {
            EntryType::Activity => "activity".to_owned(),
            EntryType::MiniActivity => "mini_activity".to_owned(),
            EntryType::Mainline => "mainline".to_owned(),
            EntryType::Unclassified => "none".to_owned(),
        }
    }
}

/// The mathematical image of a [`StorySummary`].
#[verifier::ext_equal]
pub struct SummaryModel {
    pub story_id: Seq<char>,
    pub story_code: Option<Seq<char>>,
    pub story_txt: Seq<char>,
    pub detail: Option<DetailModel>,
}

/// One story of an activity: its identifier, optional short code, and the
/// resource key (`story_txt`) that both locates its secondary detail
/// resource and names its output slug. The detail starts empty and is
/// attached once, when the catalog resolves it.
#[derive(Debug, Clone, PartialEq, Eq)]
pub struct StorySummary {
    pub story_id: String,
    pub story_code: Option<String>,
    pub story_txt: String,
    pub detail: Option<StoryDetail>,
}

impl View for StorySummary {
    type V = SummaryModel;

    open spec fn view(&self) -> SummaryModel {
        SummaryModel {
            story_id: self.story_id@,
            story_code: match &self.story_code {
                Some(s) => Some(s@),
                None => None,
            },
            story_txt: self.story_txt@,
            detail: match &self.detail {
                Some(d) => Some(d@),
                None => None,
            },
        }
    }
}

/// Decoding one raw story-summary record: `storyId` and `storyTxt` are
/// required strings, `storyCode` is optional; no detail is resolved yet.
pub open spec fn spec_parse_summary(v: JsonValue) -> Result<SummaryModel, ErrorModel> {
    if v.spec_get_str("storyId"@) is None {
        Err(ErrorModel::Schema { field: "storyId"@ })
    } else if v.spec_get_opt_str("storyCode"@) is Err {
        Err(ErrorModel::Schema { field: "storyCode"@ })
    } else if v.spec_get_str("storyTxt"@) is None {
        Err(ErrorModel::Schema { field: "storyTxt"@ })
    } else {
        Ok(
            SummaryModel {
                story_id: v.spec_get_str("storyId"@)->Some_0,
                story_code: v.spec_get_opt_str("storyCode"@)->Ok_0,
                story_txt: v.spec_get_str("storyTxt"@)->Some_0,
                detail: None,
            },
        )
    }
}

/// Decodes one raw story-summary record, as [`spec_parse_summary`]
/// describes.
pub fn parse_story_summary(v: &JsonValue) -> (r: Result<StorySummary, DecodeError>)
    ensures
        match r {
            Ok(s) => spec_parse_summary(*v) matches Ok(m) && s@ == m,
            Err(e) => spec_parse_summary(*v) matches Err(m) && e@ == m,
        },
{
    let story_id = match v.get_string("storyId") {
        Some(s) => s,
        None => {
            return Err(DecodeError::Schema { field: "storyId".to_owned() });
        },
    };
    let story_code = match v.get_opt_string("storyCode") {
        Ok(c) => c,
        Err(()) => {
            return Err(DecodeError::Schema { field: "storyCode".to_owned() });
        },
    };
    let story_txt = match v.get_string("storyTxt") {
        Some(s) => s,
        None => {
            return Err(DecodeError::Schema { field: "storyTxt".to_owned() });
        },
    };
    Ok(StorySummary { story_id, story_code, story_txt, detail: None })
}

/// The mathematical image of an [`Activity`].
#[verifier::ext_equal]
pub struct ActivityModel {
    pub id: Seq<char>,
    pub name: Seq<char>,
    pub entry_type: EntryType,
    pub story_entry_pic_id: Option<Seq<char>>,
    pub stories: Seq<SummaryModel>,
}

/// An activity (a "story review"): identifier, display name, category tag,
/// optional cover image, and its ordered stories.
#[derive(Debug, Clone, PartialEq, Eq)]
pub struct Activity {
    pub id: String,
    pub name: String,
    pub entry_type: EntryType,
    pub story_entry_pic_id: Option<String>,
    pub stories: Vec<StorySummary>,
}

/// The views of a list of story summaries.
pub open spec fn summary_views(v: Seq<StorySummary>) -> Seq<SummaryModel> {
    v.map_values(|s: StorySummary| s@)
}

impl View for Activity {
    type V = ActivityModel;

    open spec fn view(&self) -> ActivityModel {
        ActivityModel {
            id: self.id@,
            name: self.name@,
            entry_type: self.entry_type,
            story_entry_pic_id: match &self.story_entry_pic_id {
                Some(s) => Some(s@),
                None => None,
            },
            stories: summary_views(self.stories@),
        }
    }
}

impl Activity {
    /// The previous story by list position: the story before index `i`, if
    /// `i` names a story that has one.
    pub fn prev_story<'a>(&'a self, i: usize) -> (r: Option<&'a StorySummary>)
        ensures
            if 1 <= i < self.stories@.len() {
                r matches Some(s) && *s == self.stories@[i - 1]
            } else {
                r is None
            },
    {
        if 1 <= i && i < self.stories.len() {
            Some(&self.stories[i - 1])
        } else {
            None
        }
    }

    /// The next story by list position: the story after index `i`, if there
    /// is one.
    pub fn next_story<'a>(&'a self, i: usize) -> (r: Option<&'a StorySummary>)
        ensures
            if i + 1 < self.stories@.len() {
                r matches Some(s) && *s == self.stories@[i + 1]
            } else {
                r is None
            },
    {
        if i < self.stories.len() && i + 1 < self.stories.len() {
            Some(&self.stories[i + 1])
        } else {
            None
        }
    }
}

/// Decoding a raw story-summary array element by element, in order, stopping
/// at the first failure.
pub open spec fn spec_parse_summaries(items: Seq<JsonValue>) -> Result<
    Seq<SummaryModel>,
    ErrorModel,
>
    decreases items.len(),
{
    if items.len() == 0 {
        Ok(Seq::<SummaryModel>::empty())
    } else {
        match spec_parse_summary(items[0]) {
            Err(e) => Err(e),
            Ok(m) => match spec_parse_summaries(items.drop_first()) {
                Err(e) => Err(e),
                Ok(rest) => Ok(seq![m] + rest),
            },
        }
    }
}

/// Decoding one raw activity record: `id`, `name` and `entryType` are
/// required strings, `storyEntryPicId` is optional, and `infoUnlockDatas`
/// must be an array of decodable story summaries.
pub open spec fn spec_parse_review(v: JsonValue) -> Result<ActivityModel, ErrorModel> {
    if v.spec_get_str("id"@) is None {
        Err(ErrorModel::Schema { field: "id"@ })
    } else if v.spec_get_str("name"@) is None {
        Err(ErrorModel::Schema { field: "name"@ })
    } else if v.spec_get_str("entryType"@) is None {
        Err(ErrorModel::Schema { field: "entryType"@ })
    } else if v.spec_get_opt_str("storyEntryPicId"@) is Err {
        Err(ErrorModel::Schema { field: "storyEntryPicId"@ })
    } else {
        match v.spec_get("infoUnlockDatas"@) {
            Some(JsonValue::Arr(items)) => match spec_parse_summaries(items@) {
                Err(e) => Err(e),
                Ok(stories) => Ok(
                    ActivityModel {
                        id: v.spec_get_str("id"@)->Some_0,
                        name: v.spec_get_str("name"@)->Some_0,
                        entry_type: spec_entry_type(v.spec_get_str("entryType"@)->Some_0),
                        story_entry_pic_id: v.spec_get_opt_str("storyEntryPicId"@)->Ok_0,
                        stories,
                    },
                ),
            },
            _ => Err(ErrorModel::Schema { field: "infoUnlockDatas"@ }),
        }
    }
}

/// Decoding an activity record never names a missing resource: every failure
/// is a schema failure.
pub proof fn lemma_review_error_is_schema(v: JsonValue)
    ensures
        spec_parse_review(v) matches Err(e) ==> e.is_schema(),
{
    match v.spec_get("infoUnlockDatas"@) {
        Some(JsonValue::Arr(items)) => {
            lemma_summaries_error_is_schema(items@);
        },
        _ => {
        },
    }
}

/// Decoding a raw story-summary array never names a missing resource: every
/// failure is a schema failure.
pub proof fn lemma_summaries_error_is_schema(items: Seq<JsonValue>)
    ensures
        spec_parse_summaries(items) matches Err(e) ==> e.is_schema(),
    decreases items.len(),
{
    if items.len() > 0 {
        lemma_summaries_error_is_schema(items.drop_first());
    }
}

/// Decodes each element of a raw story-summary array in order, stopping at
/// the first failure.
fn parse_summaries(items: &Vec<JsonValue>) -> (r: Result<Vec<StorySummary>, DecodeError>)
    ensures
        match r {
            Ok(stories) => spec_parse_summaries(items@) == Ok::<_, ErrorModel>(
                summary_views(stories@),
            ),
            Err(e) => spec_parse_summaries(items@) matches Err(m) && e@ == m,
        },
{
    let n = items.len();
    let mut out: Vec<StorySummary> = Vec::new();
    let mut i: usize = 0;
    proof {
        assert(items@.skip(0) =~= items@);
        assert(summary_views(out@) =~= Seq::<SummaryModel>::empty());
    }
    while i < n
        invariant
            n == items@.len(),
            i <= n,
            summary_views(out@).len() == i,
            ({
                let full = spec_parse_summaries(items@);
                let rest = spec_parse_summaries(items@.skip(i as int));
                match rest {
                    Ok(models) => full == Ok::<_, ErrorModel>(summary_views(out@) + models),
                    Err(e) => full == Err::<Seq<SummaryModel>, _>(e),
                }
            }),
        decreases n - i,
    {
        proof {
            assert(items@.skip(i as int)[0] == items@[i as int]);
            assert(items@.skip(i as int).drop_first() =~= items@.skip(i as int + 1));
        }
        match parse_story_summary(&items[i]) {
            Err(e) => {
                return Err(e);
            },
            Ok(s) => {
                proof {
                    let m = spec_parse_summary(items@[i as int])->Ok_0;
                    if spec_parse_summaries(items@.skip(i as int + 1)) is Ok {
                        let rest = spec_parse_summaries(items@.skip(i as int + 1))->Ok_0;
                        assert(summary_views(out@.push(s)) + rest =~~= summary_views(out@) + (seq![
                            m,
                        ] + rest));
                    }
                }
                out.push(s);
            },
        }
        i += 1;
    }
    proof {
        assert(items@.skip(n as int) =~= Seq::<JsonValue>::empty());
        assert(summary_views(out@) + Seq::<SummaryModel>::empty() =~~= summary_views(out@));
    }
    Ok(out)
}

/// Decodes one raw activity record into an [`Activity`], as
/// [`spec_parse_review`] describes; story summaries decode independently,
/// their details not yet resolved.
pub fn parse_story_review(v: &JsonValue) -> (r: Result<Activity, DecodeError>)
    ensures
        match r {
            Ok(a) => spec_parse_review(*v) matches Ok(m) && a@ == m,
            Err(e) => spec_parse_review(*v) matches Err(m) && e@ == m,
        },
{
    let id = match v.get_string("id") {
        Some(s) => s,
        None => {
            return Err(DecodeError::Schema { field: "id".to_owned() });
        },
    };
    let name = match v.get_string("name") {
        Some(s) => s,
        None => {
            return Err(DecodeError::Schema { field: "name".to_owned() });
        },
    };
    let entry_type_raw = match v.get_string("entryType") {
        Some(s) => s,
        None => {
            return Err(DecodeError::Schema { field: "entryType".to_owned() });
        },
    };
    let story_entry_pic_id = match v.get_opt_string("storyEntryPicId") {
        Ok(p) => p,
        Err(()) => {
            return Err(DecodeError::Schema { field: "storyEntryPicId".to_owned() });
        },
    };
    let items = match v.get("infoUnlockDatas") {
        Some(list) => match list.as_arr() {
            Some(items) => items,
            None => {
                return Err(DecodeError::Schema { field: "infoUnlockDatas".to_owned() });
            },
        },
        None => {
            return Err(DecodeError::Schema { field: "infoUnlockDatas".to_owned() });
        },
    };
    let stories = match parse_summaries(items) {
        Ok(stories) => stories,
        Err(e) => {
            return Err(e);
        },
    };
    Ok(
        Activity {
            id,
            name,
            entry_type: EntryType::parse(entry_type_raw.as_str()),
            story_entry_pic_id,
            stories,
        },
    )
}

} // verus!
