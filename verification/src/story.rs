//! Decoding a full story: its metadata and its ordered script.
//!
//! The line sequence is the narrative/display order and is preserved exactly
//! as read: line `i` of the decoded story comes from element `i` of the raw
//! `storyList` array, with no reordering, insertion or loss.

use vstd::prelude::*;
use crate::error::{DecodeError, ErrorModel};
use crate::json::JsonValue;
use crate::line::{parse_script_line, spec_parse_line, LineModel, ScriptLine};
use crate::raw::{json_of, parse_json};

verus! {

/// The mathematical image of a [`StoryDetail`].
#[verifier::ext_equal]
pub struct DetailModel {
    pub story_code: Option<Seq<char>>,
    pub avg_tag: Seq<char>,
    pub story_name: Seq<char>,
    pub story_info: Seq<char>,
    pub lines: Seq<LineModel>,
}

/// A story's decoded detail: optional story code, tag, title, descriptive
/// blurb, and the ordered script lines.
#[derive(Debug, Clone, PartialEq, Eq)]
pub struct StoryDetail {
    pub story_code: Option<String>,
    pub avg_tag: String,
    pub story_name: String,
    pub story_info: String,
    pub lines: Vec<ScriptLine>,
}

/// The views of a list of script lines.
pub open spec fn line_views(v: Seq<ScriptLine>) -> Seq<LineModel> {
    v.map_values(|l: ScriptLine| l@)
}

impl View for StoryDetail {
    type V = DetailModel;

    open spec fn view(&self) -> DetailModel {
        DetailModel {
            story_code: match &self.story_code {
                Some(s) => Some(s@),
                None => None,
            },
            avg_tag: self.avg_tag@,
            story_name: self.story_name@,
            story_info: self.story_info@,
            lines: line_views(self.lines@),
        }
    }
}

/// Decoding a raw script-line array element by element, in order, stopping
/// at the first failure.
pub open spec fn spec_parse_lines(items: Seq<JsonValue>) -> Result<Seq<LineModel>, ErrorModel>
    decreases items.len(),
{
    if items.len() == 0 {
        Ok(Seq::<LineModel>::empty())
    } else {
        match spec_parse_line(items[0]) {
            Err(e) => Err(e),
            Ok(m) => match spec_parse_lines(items.drop_first()) {
                Err(e) => Err(e),
                Ok(rest) => Ok(seq![m] + rest),
            },
        }
    }
}

/// A successfully decoded line array keeps its order: the result has one
/// model per element, position for position.
pub proof fn lemma_lines_in_order(items: Seq<JsonValue>)
    requires
        spec_parse_lines(items) is Ok,
    ensures
        spec_parse_lines(items)->Ok_0.len() == items.len(),
        forall|i: int|
            0 <= i < items.len() ==> spec_parse_line(#[trigger] items[i]) is Ok
                && spec_parse_lines(items)->Ok_0[i] == spec_parse_line(items[i])->Ok_0,
    decreases items.len(),
{
    if items.len() > 0 {
        lemma_lines_in_order(items.drop_first());
        assert(forall|i: int|
            1 <= i < items.len() ==> items.drop_first()[i - 1] == #[trigger] items[i]);
    }
}

/// Round-trip ordering: a decoded story's line sequence matches the raw
/// `storyList` array position for position, whatever mix of recognized and
/// unrecognized tags it holds.
pub proof fn lemma_detail_preserves_order(v: JsonValue)
    requires
        spec_parse_detail(v) is Ok,
    ensures
        v.spec_get("storyList"@) matches Some(JsonValue::Arr(items)) && {
            let lines = spec_parse_detail(v)->Ok_0.lines;
            &&& lines.len() == items@.len()
            &&& forall|i: int|
                0 <= i < items@.len() ==> spec_parse_line(#[trigger] items@[i]) is Ok && lines[i]
                    == spec_parse_line(items@[i])->Ok_0
        },
{
    match v.spec_get("storyList"@) {
        Some(JsonValue::Arr(items)) => {
            lemma_lines_in_order(items@);
        },
        _ => {
            assert(false);
        },
    }
}

/// Decoding a raw script-line array never names a missing resource: every
/// failure is a schema failure.
pub proof fn lemma_lines_error_is_schema(items: Seq<JsonValue>)
    ensures
        spec_parse_lines(items) matches Err(e) ==> e.is_schema(),
    decreases items.len(),
{
    if items.len() > 0 {
        crate::line::lemma_line_error_is_schema(items[0]);
        lemma_lines_error_is_schema(items.drop_first());
    }
}

/// Decoding a story detail, from a raw record or from raw text, never names
/// a missing resource: every failure is a schema failure.
pub proof fn lemma_detail_error_is_schema(v: JsonValue, t: Seq<char>)
    ensures
        spec_parse_detail(v) matches Err(e) ==> e.is_schema(),
        spec_parse_detail_text(t) matches Err(e) ==> e.is_schema(),
{
    match v.spec_get("storyList"@) {
        Some(JsonValue::Arr(items)) => {
            lemma_lines_error_is_schema(items@);
        },
        _ => {
        },
    }
    match json_of(t) {
        Some(v2) => match v2.spec_get("storyList"@) {
            Some(JsonValue::Arr(items)) => {
                lemma_lines_error_is_schema(items@);
            },
            _ => {
            },
        },
        None => {
        },
    }
}

/// Decoding a story's metadata and script, as a function of the raw record
/// alone: `avgTag`, `storyName` and `storyInfo` are required strings,
/// `storyCode` is optional, and `storyList` must be an array of decodable
/// script-line records.
pub open spec fn spec_parse_detail(v: JsonValue) -> Result<DetailModel, ErrorModel> {
    if v.spec_get_opt_str("storyCode"@) is Err {
        Err(ErrorModel::Schema { field: "storyCode"@ })
    } else if v.spec_get_str("avgTag"@) is None {
        Err(ErrorModel::Schema { field: "avgTag"@ })
    } else if v.spec_get_str("storyName"@) is None {
        Err(ErrorModel::Schema { field: "storyName"@ })
    } else if v.spec_get_str("storyInfo"@) is None {
        Err(ErrorModel::Schema { field: "storyInfo"@ })
    } else {
        match v.spec_get("storyList"@) {
            Some(JsonValue::Arr(items)) => match spec_parse_lines(items@) {
                Err(e) => Err(e),
                Ok(lines) => Ok(
                    DetailModel {
                        story_code: v.spec_get_opt_str("storyCode"@)->Ok_0,
                        avg_tag: v.spec_get_str("avgTag"@)->Some_0,
                        story_name: v.spec_get_str("storyName"@)->Some_0,
                        story_info: v.spec_get_str("storyInfo"@)->Some_0,
                        lines,
                    },
                ),
            },
            _ => Err(ErrorModel::Schema { field: "storyList"@ }),
        }
    }
}

/// Decoding a story's detail from its raw resource text.
pub open spec fn spec_parse_detail_text(t: Seq<char>) -> Result<DetailModel, ErrorModel> {
    match json_of(t) {
        None => Err(ErrorModel::Json),
        Some(v) => spec_parse_detail(v),
    }
}

/// Parses a story's secondary resource text and decodes it, as
/// [`spec_parse_detail_text`] describes.
pub fn parse_story_detail_text(text: &str) -> (r: Result<StoryDetail, DecodeError>)
    ensures
        match r {
            Ok(d) => spec_parse_detail_text(text@) matches Ok(m) && d@ == m,
            Err(e) => spec_parse_detail_text(text@) matches Err(m) && e@ == m,
        },
{
    match parse_json(text) {
        None => Err(DecodeError::Json),
        Some(v) => parse_story_detail(&v),
    }
}

/// Decodes each element of a raw script-line array in order, stopping at the
/// first failure.
fn parse_lines(items: &Vec<JsonValue>) -> (r: Result<Vec<ScriptLine>, DecodeError>)
    ensures
        match r {
            Ok(lines) => spec_parse_lines(items@) == Ok::<_, ErrorModel>(line_views(lines@)),
            Err(e) => spec_parse_lines(items@) matches Err(m) && e@ == m,
        },
{
    let n = items.len();
    let mut out: Vec<ScriptLine> = Vec::new();
    let mut i: usize = 0;
    proof {
        assert(items@.skip(0) =~= items@);
        assert(line_views(out@) =~= Seq::<LineModel>::empty());
    }
    while i < n
        invariant
            n == items@.len(),
            i <= n,
            line_views(out@).len() == i,
            ({
                let full = spec_parse_lines(items@);
                let rest = spec_parse_lines(items@.skip(i as int));
                match rest {
                    Ok(models) => full == Ok::<_, ErrorModel>(line_views(out@) + models),
                    Err(e) => full == Err::<Seq<LineModel>, _>(e),
                }
            }),
        decreases n - i,
    {
        proof {
            assert(items@.skip(i as int)[0] == items@[i as int]);
            assert(items@.skip(i as int).drop_first() =~= items@.skip(i as int + 1));
        }
        match parse_script_line(&items[i]) {
            Err(e) => {
                return Err(e);
            },
            Ok(line) => {
                proof {
                    let m = spec_parse_line(items@[i as int])->Ok_0;
                    if spec_parse_lines(items@.skip(i as int + 1)) is Ok {
                        let rest = spec_parse_lines(items@.skip(i as int + 1))->Ok_0;
                        assert(line_views(out@.push(line)) + rest =~~= line_views(out@) + (seq![m]
                            + rest));
                    }
                }
                out.push(line);
            },
        }
        i += 1;
    }
    proof {
        assert(items@.skip(n as int) =~= Seq::<JsonValue>::empty());
        assert(line_views(out@) + Seq::<LineModel>::empty() =~~= line_views(out@));
    }
    Ok(out)
}

/// Decodes a full story record into a [`StoryDetail`], as
/// [`spec_parse_detail`] describes: metadata scalars plus the ordered script,
/// each line decoded by [`parse_script_line`].
pub fn parse_story_detail(v: &JsonValue) -> (r: Result<StoryDetail, DecodeError>)
    ensures
        match r {
            Ok(d) => spec_parse_detail(*v) matches Ok(m) && d@ == m,
            Err(e) => spec_parse_detail(*v) matches Err(m) && e@ == m,
        },
{
    let story_code = match v.get_opt_string("storyCode") {
        Ok(c) => c,
        Err(()) => {
            return Err(DecodeError::Schema { field: "storyCode".to_owned() });
        },
    };
    let avg_tag = match v.get_string("avgTag") {
        Some(s) => s,
        None => {
            return Err(DecodeError::Schema { field: "avgTag".to_owned() });
        },
    };
    let story_name = match v.get_string("storyName") {
        Some(s) => s,
        None => {
            return Err(DecodeError::Schema { field: "storyName".to_owned() });
        },
    };
    let story_info = match v.get_string("storyInfo") {
        Some(s) => s,
        None => {
            return Err(DecodeError::Schema { field: "storyInfo".to_owned() });
        },
    };
    let items = match v.get("storyList") {
        Some(list) => match list.as_arr() {
            Some(items) => items,
            None => {
                return Err(DecodeError::Schema { field: "storyList".to_owned() });
            },
        },
        None => {
            return Err(DecodeError::Schema { field: "storyList".to_owned() });
        },
    };
    let lines = match parse_lines(items) {
        Ok(lines) => lines,
        Err(e) => {
            return Err(e);
        },
    };
    Ok(StoryDetail { story_code, avg_tag, story_name, story_info, lines })
}

} // verus!
