//! The content catalog: every decoded activity, grouped by category, with
//! each story's detail resolved from its secondary resource.
//!
//! The build goes through three states — empty, activities loaded, details
//! resolved — and no step skips one: [`parse_primary`] decodes the primary
//! resource into activities, [`Catalog::from_activities`] groups them by
//! category (first-occurrence order), and [`Catalog::resolve_details`]
//! attaches every story's script, failing fast on the first error.

use vstd::prelude::*;
use crate::error::{BuildError, BuildErrorModel, DecodeError, ErrorModel};
use crate::json::JsonValue;
use crate::raw::{json_of, parse_json};
use crate::review::{
    parse_story_review, spec_label, spec_parse_review, summary_views, Activity, ActivityModel,
    EntryType, StorySummary, SummaryModel,
};
use crate::story::{parse_story_detail_text, spec_parse_detail_text};
use crate::strutil::{seq_views, str_eq};

verus! {

/// The mathematical image of a [`CategoryGroup`].
#[verifier::ext_equal]
pub struct GroupModel {
    pub key: EntryType,
    pub activities: Seq<ActivityModel>,
}

/// One category: its entry type and the activities that carry it, in the
/// order the primary resource listed them.
#[derive(Debug, Clone, PartialEq, Eq)]
pub struct CategoryGroup {
    pub key: EntryType,
    pub activities: Vec<Activity>,
}

/// The views of a list of activities.
pub open spec fn activity_views(v: Seq<Activity>) -> Seq<ActivityModel> {
    v.map_values(|a: Activity| a@)
}

impl View for CategoryGroup {
    type V = GroupModel;

    open spec fn view(&self) -> GroupModel {
        GroupModel { key: self.key, activities: activity_views(self.activities@) }
    }
}

/// The mathematical image of a [`Catalog`].
#[verifier::ext_equal]
pub struct CatalogModel {
    pub groups: Seq<GroupModel>,
}

/// The catalog: categories in order of first occurrence, each holding its
/// activities in primary-resource order.
#[derive(Debug, Clone, PartialEq, Eq)]
pub struct Catalog {
    pub groups: Vec<CategoryGroup>,
}

/// The views of a list of category groups.
pub open spec fn group_views(v: Seq<CategoryGroup>) -> Seq<GroupModel> {
    v.map_values(|g: CategoryGroup| g@)
}

impl View for Catalog {
    type V = CatalogModel;

    open spec fn view(&self) -> CatalogModel {
        CatalogModel { groups: group_views(self.groups@) }
    }
}

/// The first group with the given category key, or `-1` if none has it.
pub open spec fn spec_find_group(groups: Seq<GroupModel>, key: EntryType) -> int
    decreases groups.len(),
{
    if groups.len() == 0 {
        -1
    } else if groups[0].key == key {
        0
    } else {
        let rest = spec_find_group(groups.drop_first(), key);
        if rest == -1 {
            -1
        } else {
            rest + 1
        }
    }
}

/// Grouping activities by category: categories appear in order of first
/// occurrence, and each keeps its activities in input order.
pub open spec fn spec_group_activities(acts: Seq<ActivityModel>) -> Seq<GroupModel>
    decreases acts.len(),
{
    if acts.len() == 0 {
        Seq::<GroupModel>::empty()
    } else {
        let prev = spec_group_activities(acts.drop_last());
        let a = acts.last();
        let gi = spec_find_group(prev, a.entry_type);
        if gi == -1 {
            prev.push(GroupModel { key: a.entry_type, activities: seq![a] })
        } else {
            prev.update(
                gi,
                GroupModel { key: prev[gi].key, activities: prev[gi].activities.push(a) },
            )
        }
    }
}

/// The index that [`spec_find_group`] names is in range and holds the key,
/// and no group before it does; `-1` means no group holds the key.
pub proof fn lemma_find_group(groups: Seq<GroupModel>, key: EntryType)
    ensures
        spec_find_group(groups, key) == -1 ==> forall|i: int|
            0 <= i < groups.len() ==> (#[trigger] groups[i]).key != key,
        spec_find_group(groups, key) != -1 ==> {
            let gi = spec_find_group(groups, key);
            &&& 0 <= gi < groups.len()
            &&& groups[gi].key == key
            &&& forall|i: int| 0 <= i < gi ==> (#[trigger] groups[i]).key != key
        },
    decreases groups.len(),
{
    if groups.len() > 0 {
        lemma_find_group(groups.drop_first(), key);
        assert(forall|i: int|
            1 <= i < groups.len() ==> groups.drop_first()[i - 1] == #[trigger] groups[i]);
    }
}

/// Finds the first group with the given key.
fn find_group(groups: &Vec<CategoryGroup>, key: EntryType) -> (r: Option<usize>)
    ensures
        match r {
            Some(gi) => gi < groups@.len() && spec_find_group(group_views(groups@), key)
                == gi as int,
            None => spec_find_group(group_views(groups@), key) == -1,
        },
{
    let n = groups.len();
    let mut i: usize = 0;
    proof {
        assert(group_views(groups@).skip(0) =~= group_views(groups@));
    }
    while i < n
        invariant
            n == groups@.len(),
            i <= n,
            ({
                let gv = group_views(groups@);
                let rest = spec_find_group(gv.skip(i as int), key);
                spec_find_group(gv, key) == if rest == -1 {
                    -1int
                } else {
                    rest + i
                }
            }),
        decreases n - i,
    {
        proof {
            let gv = group_views(groups@);
            assert(gv.skip(i as int)[0] == gv[i as int]);
            assert(gv[i as int] == groups@[i as int]@);
            assert(gv.skip(i as int).drop_first() =~= gv.skip(i as int + 1));
        }
        if groups[i].key == key {
            return Some(i);
        }
        proof {
            let gv = group_views(groups@);
            assert(gv[i as int].key != key);
            let r2 = spec_find_group(gv.skip(i as int + 1), key);
            lemma_find_group(gv.skip(i as int + 1), key);
            assert(spec_find_group(gv.skip(i as int), key) == if r2 == -1 {
                -1int
            } else {
                r2 + 1
            });
        }
        i += 1;
    }
    proof {
        assert(group_views(groups@).skip(n as int) =~= Seq::<GroupModel>::empty());
    }
    None
}

impl Catalog {
    /// Groups activities by their category, as [`spec_group_activities`]
    /// describes: categories in order of first occurrence, activities in
    /// input order within each.
    pub fn from_activities(activities: Vec<Activity>) -> (r: Catalog)
        ensures
            r@.groups == spec_group_activities(activity_views(activities@)),
    {
        let ghost all = activity_views(activities@);
        let mut rest = activities;
        let mut groups: Vec<CategoryGroup> = Vec::new();
        proof {
            assert(all.take(0) =~= Seq::<ActivityModel>::empty());
            assert(group_views(groups@) =~= Seq::<GroupModel>::empty());
            assert(activity_views(rest@) =~= all.skip(0));
        }
        while rest.len() > 0
            invariant
                rest@.len() <= all.len(),
                activity_views(rest@) == all.skip(all.len() - rest@.len()),
                group_views(groups@) == spec_group_activities(
                    all.take(all.len() - rest@.len()),
                ),
            decreases rest@.len(),
        {
            let ghost i = all.len() - rest@.len();
            let a = rest.remove(0);
            proof {
                assert(all.skip(i)[0] == all[i]);
                assert(a@ == all[i]);
                assert(forall|j: int|
                    0 <= j < rest@.len() ==> (#[trigger] rest@[j])@ == all.skip(i)[j + 1]);
                assert(activity_views(rest@) =~= all.skip(i + 1));
                assert(all.take(i + 1).drop_last() =~= all.take(i));
                assert(all.take(i + 1).last() == all[i]);
            }
            match find_group(&groups, a.entry_type) {
                Some(gi) => {
                    proof {
                        lemma_find_group(group_views(groups@), a@.entry_type);
                    }
                    let ghost before = group_views(groups@);
                    let group = &mut groups[gi];
                    group.activities.push(a);
                    proof {
                        assert(group_views(groups@) =~~= before.update(
                            gi as int,
                            GroupModel {
                                key: before[gi as int].key,
                                activities: before[gi as int].activities.push(all[i]),
                            },
                        ));
                    }
                },
                None => {
                    let ghost key = a@.entry_type;
                    let mut members: Vec<Activity> = Vec::new();
                    members.push(a);
                    groups.push(CategoryGroup { key: members[0].entry_type, activities: members });
                    proof {
                        assert(group_views(groups@.drop_last()) =~= spec_group_activities(
                            all.take(i),
                        ));
                        assert(group_views(groups@) =~~= group_views(groups@.drop_last()).push(
                            GroupModel { key, activities: seq![all[i]] },
                        ));
                    }
                },
            }
        }
        proof {
            assert(all.take(all.len() as int) =~= all);
        }
        Catalog { groups }
    }

    /// The category keys, in group order.
    pub fn category_keys(&self) -> (r: Vec<String>)
        ensures
            seq_views(r@) == self@.groups.map_values(|g: GroupModel| spec_label(g.key)),
    {
        let n = self.groups.len();
        let mut out: Vec<String> = Vec::new();
        let mut i: usize = 0;
        while i < n
            invariant
                n == self.groups@.len(),
                i <= n,
                out@.len() == i,
                forall|j: int|
                    0 <= j < i ==> (#[trigger] out@[j])@ == spec_label(group_views(
                        self.groups@,
                    )[j].key),
        decreases n - i,
        {
            out.push(self.groups[i].key.label());
            i += 1;
        }
        proof {
            assert(seq_views(out@) =~~= self@.groups.map_values(
                |g: GroupModel| spec_label(g.key),
            ));
        }
        out
    }
}

/// Decoding a raw activity-record array element by element, in order,
/// stopping at the first failure.
pub open spec fn spec_parse_reviews(items: Seq<JsonValue>) -> Result<Seq<ActivityModel>, ErrorModel>
    decreases items.len(),
{
    if items.len() == 0 {
        Ok(Seq::<ActivityModel>::empty())
    } else {
        match spec_parse_review(items[0]) {
            Err(e) => Err(e),
            Ok(m) => match spec_parse_reviews(items.drop_first()) {
                Err(e) => Err(e),
                Ok(rest) => Ok(seq![m] + rest),
            },
        }
    }
}

/// Decoding the primary resource: an object whose keys are discarded and
/// whose values, in entry order, are raw activity records.
pub open spec fn spec_load_activities(v: JsonValue) -> Result<Seq<ActivityModel>, ErrorModel> {
    match v {
        JsonValue::Obj(entries) => spec_parse_reviews(
            entries@.map_values(|e: (String, JsonValue)| e.1),
        ),
        _ => Err(ErrorModel::Schema { field: "root"@ }),
    }
}

/// Decodes the primary resource's activity records in entry order, stopping
/// at the first failure, as [`spec_load_activities`] describes.
pub fn load_activities(v: &JsonValue) -> (r: Result<Vec<Activity>, DecodeError>)
    ensures
        match r {
            Ok(acts) => spec_load_activities(*v) == Ok::<_, ErrorModel>(activity_views(acts@)),
            Err(e) => spec_load_activities(*v) matches Err(m) && e@ == m,
        },
{
    let entries = match v.as_obj() {
        Some(entries) => entries,
        None => {
            return Err(DecodeError::Schema { field: "root".to_owned() });
        },
    };
    let ghost items = entries@.map_values(|e: (String, JsonValue)| e.1);
    let n = entries.len();
    let mut out: Vec<Activity> = Vec::new();
    let mut i: usize = 0;
    proof {
        assert(items.skip(0) =~= items);
        assert(activity_views(out@) =~= Seq::<ActivityModel>::empty());
    }
    while i < n
        invariant
            n == entries@.len(),
            items == entries@.map_values(|e: (String, JsonValue)| e.1),
            spec_load_activities(*v) == spec_parse_reviews(items),
            i <= n,
            activity_views(out@).len() == i,
            ({
                let full = spec_parse_reviews(items);
                let rest = spec_parse_reviews(items.skip(i as int));
                match rest {
                    Ok(models) => full == Ok::<_, ErrorModel>(activity_views(out@) + models),
                    Err(e) => full == Err::<Seq<ActivityModel>, _>(e),
                }
            }),
        decreases n - i,
    {
        proof {
            assert(items.skip(i as int)[0] == items[i as int]);
            assert(items[i as int] == entries@[i as int].1);
            assert(items.skip(i as int).drop_first() =~= items.skip(i as int + 1));
        }
        match parse_story_review(&entries[i].1) {
            Err(e) => {
                return Err(e);
            },
            Ok(a) => {
                proof {
                    let m = spec_parse_review(items[i as int])->Ok_0;
                    if spec_parse_reviews(items.skip(i as int + 1)) is Ok {
                        let rest = spec_parse_reviews(items.skip(i as int + 1))->Ok_0;
                        assert(activity_views(out@.push(a)) + rest =~~= activity_views(out@) + (
                        seq![m] + rest));
                    }
                }
                out.push(a);
            },
        }
        i += 1;
    }
    proof {
        assert(items.skip(n as int) =~= Seq::<JsonValue>::empty());
        assert(activity_views(out@) + Seq::<ActivityModel>::empty() =~~= activity_views(out@));
    }
    Ok(out)
}

/// The text of the resource with the given key, if the table holds it; the
/// first entry wins.
pub open spec fn spec_resource_lookup(table: Seq<(String, String)>, key: Seq<char>) -> Option<
    Seq<char>,
>
    decreases table.len(),
{
    if table.len() == 0 {
        None
    } else if table[0].0@ == key {
        Some(table[0].1@)
    } else {
        spec_resource_lookup(table.drop_first(), key)
    }
}

/// Finds the text of the resource with the given key.
fn resource_lookup<'a>(table: &'a Vec<(String, String)>, key: &str) -> (r: Option<&'a String>)
    ensures
        r matches Some(t) ==> spec_resource_lookup(table@, key@) == Some(t@),
        r is None ==> spec_resource_lookup(table@, key@) is None,
{
    let n = table.len();
    let mut i: usize = 0;
    proof {
        assert(table@.skip(0) =~= table@);
    }
    while i < n
        invariant
            n == table@.len(),
            i <= n,
            spec_resource_lookup(table@, key@) == spec_resource_lookup(
                table@.skip(i as int),
                key@,
            ),
        decreases n - i,
    {
        proof {
            assert(table@.skip(i as int)[0] == table@[i as int]);
            assert(table@.skip(i as int).drop_first() =~= table@.skip(i as int + 1));
        }
        if str_eq(table[i].0.as_str(), key) {
            return Some(&table[i].1);
        }
        i += 1;
    }
    proof {
        assert(table@.skip(n as int) =~= Seq::<(String, String)>::empty());
    }
    None
}

/// Resolving one story's detail: its resource key must be in the table, and
/// the text there must decode as a story detail; the summary's other fields
/// are untouched. A failure names the story's resource key.
pub open spec fn spec_resolve_summary(s: SummaryModel, table: Seq<(String, String)>) -> Result<
    SummaryModel,
    BuildErrorModel,
> {
    match spec_resource_lookup(table, s.story_txt) {
        None => Err(
            BuildErrorModel {
                story: Some(s.story_txt),
                error: ErrorModel::Resource { key: s.story_txt },
            },
        ),
        Some(t) => match spec_parse_detail_text(t) {
            Err(e) => Err(BuildErrorModel { story: Some(s.story_txt), error: e }),
            Ok(d) => Ok(
                SummaryModel {
                    story_id: s.story_id,
                    story_code: s.story_code,
                    story_txt: s.story_txt,
                    detail: Some(d),
                },
            ),
        },
    }
}

/// Resolves and attaches one story's detail, as [`spec_resolve_summary`]
/// describes.
pub fn resolve_summary(s: StorySummary, table: &Vec<(String, String)>) -> (r: Result<
    StorySummary,
    BuildError,
>)
    ensures
        match r {
            Ok(s2) => spec_resolve_summary(s@, table@) == Ok::<_, BuildErrorModel>(s2@),
            Err(e) => spec_resolve_summary(s@, table@) matches Err(m) && e@ == m,
        },
{
    let text = match resource_lookup(table, s.story_txt.as_str()) {
        Some(t) => t,
        None => {
            let key = s.story_txt;
            return Err(
                BuildError { story: Some(key.clone()), error: DecodeError::Resource { key } },
            );
        },
    };
    match parse_story_detail_text(text.as_str()) {
        Ok(d) => Ok(
            StorySummary {
                story_id: s.story_id,
                story_code: s.story_code,
                story_txt: s.story_txt,
                detail: Some(d),
            },
        ),
        Err(e) => Err(BuildError { story: Some(s.story_txt), error: e }),
    }
}

/// Resolving a list of stories in order, stopping at the first failure.
pub open spec fn spec_resolve_summaries(
    ss: Seq<SummaryModel>,
    table: Seq<(String, String)>,
) -> Result<Seq<SummaryModel>, BuildErrorModel>
    decreases ss.len(),
{
    if ss.len() == 0 {
        Ok(Seq::<SummaryModel>::empty())
    } else {
        match spec_resolve_summary(ss[0], table) {
            Err(e) => Err(e),
            Ok(m) => match spec_resolve_summaries(ss.drop_first(), table) {
                Err(e) => Err(e),
                Ok(rest) => Ok(seq![m] + rest),
            },
        }
    }
}

/// Resolves each story of a list in order, stopping at the first failure.
fn resolve_summaries(ss: Vec<StorySummary>, table: &Vec<(String, String)>) -> (r: Result<
    Vec<StorySummary>,
    BuildError,
>)
    ensures
        match r {
            Ok(ss2) => spec_resolve_summaries(summary_views(ss@), table@) == Ok::<
                _,
                BuildErrorModel,
            >(summary_views(ss2@)),
            Err(e) => spec_resolve_summaries(summary_views(ss@), table@) matches Err(m) && e@
                == m,
        },
{
    let ghost all = summary_views(ss@);
    let mut rest = ss;
    let mut out: Vec<StorySummary> = Vec::new();
    proof {
        assert(summary_views(rest@) =~= all.skip(0));
        assert(summary_views(out@) =~= Seq::<SummaryModel>::empty());
    }
    while rest.len() > 0
        invariant
            all == summary_views(ss@),
            rest@.len() <= all.len(),
            summary_views(rest@) == all.skip(all.len() - rest@.len()),
            summary_views(out@).len() == all.len() - rest@.len(),
            ({
                let full = spec_resolve_summaries(all, table@);
                let rem = spec_resolve_summaries(all.skip(all.len() - rest@.len()), table@);
                match rem {
                    Ok(models) => full == Ok::<_, BuildErrorModel>(summary_views(out@) + models),
                    Err(e) => full == Err::<Seq<SummaryModel>, _>(e),
                }
            }),
        decreases rest@.len(),
    {
        let ghost k = all.len() - rest@.len();
        let s = rest.remove(0);
        proof {
            assert(all.skip(k)[0] == all[k]);
            assert(s@ == all[k]);
            assert(forall|j: int|
                0 <= j < rest@.len() ==> (#[trigger] rest@[j])@ == all.skip(k)[j + 1]);
            assert(summary_views(rest@) =~= all.skip(k + 1));
            assert(all.skip(k).drop_first() =~= all.skip(k + 1));
        }
        match resolve_summary(s, table) {
            Err(e) => {
                return Err(e);
            },
            Ok(s2) => {
                proof {
                    let m = spec_resolve_summary(all[k], table@)->Ok_0;
                    if spec_resolve_summaries(all.skip(k + 1), table@) is Ok {
                        let more = spec_resolve_summaries(all.skip(k + 1), table@)->Ok_0;
                        assert(summary_views(out@.push(s2)) + more =~~= summary_views(out@) + (
                        seq![m] + more));
                    }
                }
                out.push(s2);
            },
        }
    }
    proof {
        assert(all.skip(all.len() as int) =~= Seq::<SummaryModel>::empty());
        assert(summary_views(out@) + Seq::<SummaryModel>::empty() =~~= summary_views(out@));
    }
    Ok(out)
}

/// Resolving every story of an activity, in order; the activity's own fields
/// are untouched.
pub open spec fn spec_resolve_activity(a: ActivityModel, table: Seq<(String, String)>) -> Result<
    ActivityModel,
    BuildErrorModel,
> {
    match spec_resolve_summaries(a.stories, table) {
        Err(e) => Err(e),
        Ok(ss) => Ok(
            ActivityModel {
                id: a.id,
                name: a.name,
                entry_type: a.entry_type,
                story_entry_pic_id: a.story_entry_pic_id,
                stories: ss,
            },
        ),
    }
}

/// Resolves every story of an activity, as [`spec_resolve_activity`]
/// describes.
pub fn resolve_activity(a: Activity, table: &Vec<(String, String)>) -> (r: Result<
    Activity,
    BuildError,
>)
    ensures
        match r {
            Ok(a2) => spec_resolve_activity(a@, table@) == Ok::<_, BuildErrorModel>(a2@),
            Err(e) => spec_resolve_activity(a@, table@) matches Err(m) && e@ == m,
        },
{
    match resolve_summaries(a.stories, table) {
        Err(e) => Err(e),
        Ok(stories) => Ok(
            Activity {
                id: a.id,
                name: a.name,
                entry_type: a.entry_type,
                story_entry_pic_id: a.story_entry_pic_id,
                stories,
            },
        ),
    }
}

/// Resolving a list of activities in order, stopping at the first failure.
pub open spec fn spec_resolve_activities(
    aa: Seq<ActivityModel>,
    table: Seq<(String, String)>,
) -> Result<Seq<ActivityModel>, BuildErrorModel>
    decreases aa.len(),
{
    if aa.len() == 0 {
        Ok(Seq::<ActivityModel>::empty())
    } else {
        match spec_resolve_activity(aa[0], table) {
            Err(e) => Err(e),
            Ok(m) => match spec_resolve_activities(aa.drop_first(), table) {
                Err(e) => Err(e),
                Ok(rest) => Ok(seq![m] + rest),
            },
        }
    }
}

/// Resolves each activity of a list in order, stopping at the first failure.
fn resolve_activities(aa: Vec<Activity>, table: &Vec<(String, String)>) -> (r: Result<
    Vec<Activity>,
    BuildError,
>)
    ensures
        match r {
            Ok(aa2) => spec_resolve_activities(activity_views(aa@), table@) == Ok::<
                _,
                BuildErrorModel,
            >(activity_views(aa2@)),
            Err(e) => spec_resolve_activities(activity_views(aa@), table@) matches Err(m) && e@
                == m,
        },
{
    let ghost all = activity_views(aa@);
    let mut rest = aa;
    let mut out: Vec<Activity> = Vec::new();
    proof {
        assert(activity_views(rest@) =~= all.skip(0));
        assert(activity_views(out@) =~= Seq::<ActivityModel>::empty());
    }
    while rest.len() > 0
        invariant
            all == activity_views(aa@),
            rest@.len() <= all.len(),
            activity_views(rest@) == all.skip(all.len() - rest@.len()),
            activity_views(out@).len() == all.len() - rest@.len(),
            ({
                let full = spec_resolve_activities(all, table@);
                let rem = spec_resolve_activities(all.skip(all.len() - rest@.len()), table@);
                match rem {
                    Ok(models) => full == Ok::<_, BuildErrorModel>(activity_views(out@) + models),
                    Err(e) => full == Err::<Seq<ActivityModel>, _>(e),
                }
            }),
        decreases rest@.len(),
    {
        let ghost k = all.len() - rest@.len();
        let a = rest.remove(0);
        proof {
            assert(all.skip(k)[0] == all[k]);
            assert(a@ == all[k]);
            assert(forall|j: int|
                0 <= j < rest@.len() ==> (#[trigger] rest@[j])@ == all.skip(k)[j + 1]);
            assert(activity_views(rest@) =~= all.skip(k + 1));
            assert(all.skip(k).drop_first() =~= all.skip(k + 1));
        }
        match resolve_activity(a, table) {
            Err(e) => {
                return Err(e);
            },
            Ok(a2) => {
                proof {
                    let m = spec_resolve_activity(all[k], table@)->Ok_0;
                    if spec_resolve_activities(all.skip(k + 1), table@) is Ok {
                        let more = spec_resolve_activities(all.skip(k + 1), table@)->Ok_0;
                        assert(activity_views(out@.push(a2)) + more =~~= activity_views(out@) + (
                        seq![m] + more));
                    }
                }
                out.push(a2);
            },
        }
    }
    proof {
        assert(all.skip(all.len() as int) =~= Seq::<ActivityModel>::empty());
        assert(activity_views(out@) + Seq::<ActivityModel>::empty() =~~= activity_views(out@));
    }
    Ok(out)
}

/// Resolving every activity of a group; the group's key is untouched.
pub open spec fn spec_resolve_group(g: GroupModel, table: Seq<(String, String)>) -> Result<
    GroupModel,
    BuildErrorModel,
> {
    match spec_resolve_activities(g.activities, table) {
        Err(e) => Err(e),
        Ok(aa) => Ok(GroupModel { key: g.key, activities: aa }),
    }
}

/// Resolving every group of a catalog, in order, stopping at the first
/// failure.
pub open spec fn spec_resolve_groups(gs: Seq<GroupModel>, table: Seq<(String, String)>) -> Result<
    Seq<GroupModel>,
    BuildErrorModel,
>
    decreases gs.len(),
{
    if gs.len() == 0 {
        Ok(Seq::<GroupModel>::empty())
    } else {
        match spec_resolve_group(gs[0], table) {
            Err(e) => Err(e),
            Ok(m) => match spec_resolve_groups(gs.drop_first(), table) {
                Err(e) => Err(e),
                Ok(rest) => Ok(seq![m] + rest),
            },
        }
    }
}

impl Catalog {
    /// Resolves every story's detail across every category and activity,
    /// from the given resource table, in catalog order, failing fast: the
    /// first unreadable or undecodable resource aborts the whole build, and
    /// no partially resolved catalog is handed out.
    pub fn resolve_details(self, table: &Vec<(String, String)>) -> (r: Result<Catalog, BuildError>)
        ensures
            match r {
                Ok(c) => spec_resolve_groups(self@.groups, table@) == Ok::<_, BuildErrorModel>(
                    c@.groups,
                ),
                Err(e) => spec_resolve_groups(self@.groups, table@) matches Err(m) && e@ == m,
            },
    {
        let ghost all = group_views(self.groups@);
        let mut rest = self.groups;
        let mut out: Vec<CategoryGroup> = Vec::new();
        proof {
            assert(group_views(rest@) =~= all.skip(0));
            assert(group_views(out@) =~= Seq::<GroupModel>::empty());
        }
        while rest.len() > 0
            invariant
                all == self@.groups,
                rest@.len() <= all.len(),
                group_views(rest@) == all.skip(all.len() - rest@.len()),
                group_views(out@).len() == all.len() - rest@.len(),
                ({
                    let full = spec_resolve_groups(all, table@);
                    let rem = spec_resolve_groups(all.skip(all.len() - rest@.len()), table@);
                    match rem {
                        Ok(models) => full == Ok::<_, BuildErrorModel>(group_views(out@) + models),
                        Err(e) => full == Err::<Seq<GroupModel>, _>(e),
                    }
                }),
            decreases rest@.len(),
        {
            let ghost k = all.len() - rest@.len();
            let g = rest.remove(0);
            proof {
                assert(all.skip(k)[0] == all[k]);
                assert(g@ == all[k]);
                assert(forall|j: int|
                    0 <= j < rest@.len() ==> (#[trigger] rest@[j])@ == all.skip(k)[j + 1]);
                assert(group_views(rest@) =~= all.skip(k + 1));
                assert(all.skip(k).drop_first() =~= all.skip(k + 1));
            }
            let key = g.key;
            match resolve_activities(g.activities, table) {
                Err(e) => {
                    return Err(e);
                },
                Ok(activities) => {
                    let g2 = CategoryGroup { key, activities };
                    proof {
                        let m = spec_resolve_group(all[k], table@)->Ok_0;
                        assert(g2@ == m);
                        if spec_resolve_groups(all.skip(k + 1), table@) is Ok {
                            let more = spec_resolve_groups(all.skip(k + 1), table@)->Ok_0;
                            assert(group_views(out@.push(g2)) + more =~~= group_views(out@) + (
                            seq![m] + more));
                        }
                    }
                    out.push(g2);
                },
            }
        }
        proof {
            assert(all.skip(all.len() as int) =~= Seq::<GroupModel>::empty());
            assert(group_views(out@) + Seq::<GroupModel>::empty() =~~= group_views(out@));
        }
        Ok(Catalog { groups: out })
    }
}

/// The whole build, from the primary resource's text and the table of
/// secondary resources to the fully resolved catalog: decode the activities,
/// group them by category, resolve every story's detail; the first failure
/// of any step aborts the build.
pub open spec fn spec_build_catalog(t: Seq<char>, table: Seq<(String, String)>) -> Result<
    CatalogModel,
    BuildErrorModel,
> {
    match spec_parse_primary(t) {
        Err(e) => Err(BuildErrorModel { story: None, error: e }),
        Ok(acts) => match spec_resolve_groups(spec_group_activities(acts), table) {
            Err(e) => Err(e),
            Ok(gs) => Ok(CatalogModel { groups: gs }),
        },
    }
}

/// Builds the fully resolved catalog from the primary resource's text and
/// the table of secondary resources, as [`spec_build_catalog`] describes.
pub fn build_catalog(text: &str, table: &Vec<(String, String)>) -> (r: Result<Catalog, BuildError>)
    ensures
        match r {
            Ok(c) => spec_build_catalog(text@, table@) == Ok::<_, BuildErrorModel>(c@),
            Err(e) => spec_build_catalog(text@, table@) matches Err(m) && e@ == m,
        },
{
    let activities = match parse_primary(text) {
        Ok(acts) => acts,
        Err(e) => {
            return Err(BuildError { story: None, error: e });
        },
    };
    let catalog = Catalog::from_activities(activities);
    catalog.resolve_details(table)
}

/// Decoding the primary resource from raw text.
pub open spec fn spec_parse_primary(t: Seq<char>) -> Result<Seq<ActivityModel>, ErrorModel> {
    match json_of(t) {
        None => Err(ErrorModel::Json),
        Some(v) => spec_load_activities(v),
    }
}

/// Parses the primary resource's raw text and decodes its activity records,
/// as [`spec_parse_primary`] describes.
pub fn parse_primary(text: &str) -> (r: Result<Vec<Activity>, DecodeError>)
    ensures
        match r {
            Ok(acts) => spec_parse_primary(text@) == Ok::<_, ErrorModel>(activity_views(acts@)),
            Err(e) => spec_parse_primary(text@) matches Err(m) && e@ == m,
        },
{
    match parse_json(text) {
        None => Err(DecodeError::Json),
        Some(v) => load_activities(&v),
    }
}

/// Every story of every activity of every category has its detail attached.
pub open spec fn spec_fully_resolved(c: CatalogModel) -> bool {
    forall|i: int, j: int, k: int|
        0 <= i < c.groups.len() && 0 <= j < c.groups[i].activities.len() && 0 <= k
            < c.groups[i].activities[j].stories.len() ==> (#[trigger] c.groups[i].activities[j].stories[k]).detail is Some
}

/// A successfully resolved story list keeps its stories in order, each with
/// its identifying fields untouched and its detail attached.
pub proof fn lemma_resolved_summaries(ss: Seq<SummaryModel>, table: Seq<(String, String)>)
    requires
        spec_resolve_summaries(ss, table) is Ok,
    ensures
        spec_resolve_summaries(ss, table)->Ok_0.len() == ss.len(),
        forall|k: int|
            0 <= k < ss.len() ==> {
                let s2 = #[trigger] spec_resolve_summaries(ss, table)->Ok_0[k];
                &&& s2.detail is Some
                &&& s2.story_id == ss[k].story_id
                &&& s2.story_code == ss[k].story_code
                &&& s2.story_txt == ss[k].story_txt
            },
    decreases ss.len(),
{
    if ss.len() > 0 {
        lemma_resolved_summaries(ss.drop_first(), table);
    }
}

/// A successfully resolved activity list keeps its activities in order, each
/// with its own fields and its story count untouched, and attaches a detail
/// to every story.
pub proof fn lemma_resolved_activities(aa: Seq<ActivityModel>, table: Seq<(String, String)>)
    requires
        spec_resolve_activities(aa, table) is Ok,
    ensures
        spec_resolve_activities(aa, table)->Ok_0.len() == aa.len(),
        forall|j: int|
            0 <= j < aa.len() ==> {
                let a2 = #[trigger] spec_resolve_activities(aa, table)->Ok_0[j];
                &&& a2.id == aa[j].id
                &&& a2.name == aa[j].name
                &&& a2.entry_type == aa[j].entry_type
                &&& a2.stories.len() == aa[j].stories.len()
            },
        forall|j: int, k: int|
            0 <= j < aa.len() && 0 <= k < spec_resolve_activities(aa, table)->Ok_0[j].stories.len()
                ==> (#[trigger] spec_resolve_activities(aa, table)->Ok_0[j].stories[k]).detail
                is Some,
    decreases aa.len(),
{
    if aa.len() > 0 {
        lemma_resolved_summaries(aa[0].stories, table);
        lemma_resolved_activities(aa.drop_first(), table);
    }
}

/// The detail-resolution step completes the catalog's state machine: a
/// catalog it hands out is fully resolved, no story skipped.
pub proof fn lemma_resolve_fully_resolves(gs: Seq<GroupModel>, table: Seq<(String, String)>)
    requires
        spec_resolve_groups(gs, table) is Ok,
    ensures
        spec_resolve_groups(gs, table)->Ok_0.len() == gs.len(),
        forall|i: int|
            0 <= i < gs.len() ==> (#[trigger] spec_resolve_groups(gs, table)->Ok_0[i]).key
                == gs[i].key,
        spec_fully_resolved(CatalogModel { groups: spec_resolve_groups(gs, table)->Ok_0 }),
    decreases gs.len(),
{
    if gs.len() > 0 {
        lemma_resolved_activities(gs[0].activities, table);
        lemma_resolve_fully_resolves(gs.drop_first(), table);
        let out = spec_resolve_groups(gs, table)->Ok_0;
        let rest = spec_resolve_groups(gs.drop_first(), table)->Ok_0;
        assert(forall|i: int| 1 <= i < out.len() ==> #[trigger] out[i] == rest[i - 1]);
    }
}

/// A catalog that the whole build hands out is fully resolved.
pub proof fn lemma_build_fully_resolved(t: Seq<char>, table: Seq<(String, String)>)
    requires
        spec_build_catalog(t, table) is Ok,
    ensures
        spec_fully_resolved(spec_build_catalog(t, table)->Ok_0),
{
    let acts = spec_parse_primary(t)->Ok_0;
    lemma_resolve_fully_resolves(spec_group_activities(acts), table);
}

/// Building twice from the same raw text and the same resource table gives
/// catalogs equal in every field: the build is a function of its inputs, so
/// decoding the same resources twice cannot disagree.
pub proof fn lemma_build_deterministic(
    t: Seq<char>,
    table: Seq<(String, String)>,
    c1: CatalogModel,
    c2: CatalogModel,
)
    requires
        spec_build_catalog(t, table) == Ok::<CatalogModel, BuildErrorModel>(c1),
        spec_build_catalog(t, table) == Ok::<CatalogModel, BuildErrorModel>(c2),
    ensures
        c1 == c2,
{
}

/// Decoding a raw activity-record array never names a missing resource:
/// every failure is a schema failure.
pub proof fn lemma_reviews_error_is_schema(items: Seq<JsonValue>)
    ensures
        spec_parse_reviews(items) matches Err(e) ==> e.is_schema(),
    decreases items.len(),
{
    if items.len() > 0 {
        crate::review::lemma_review_error_is_schema(items[0]);
        lemma_reviews_error_is_schema(items.drop_first());
    }
}

/// A required field missing anywhere in the primary resource aborts the
/// whole build, before any detail is resolved, with a schema failure and no
/// story attached to it.
pub proof fn lemma_bad_primary_aborts(t: Seq<char>, table: Seq<(String, String)>)
    ensures
        spec_parse_primary(t) matches Err(e) ==> e.is_schema() && spec_build_catalog(t, table)
            == Err::<CatalogModel, _>(BuildErrorModel { story: None, error: e }),
{
    match json_of(t) {
        Some(v) => match v {
            JsonValue::Obj(entries) => {
                lemma_reviews_error_is_schema(
                    entries@.map_values(|e: (String, JsonValue)| e.1),
                );
            },
            _ => {
            },
        },
        None => {
        },
    }
}

} // verus!
