//! Decoding one raw script-line record into its discriminated variant.
//!
//! A record is decoded in two phases: first the generic envelope (`id`,
//! `prop`, the opaque `attributes` blob, the optional `targetLine` blob and
//! the optional `endOfOpt` flag), then the attributes blob again, into the
//! variant-specific shape selected by the `prop` tag. The variant set is
//! closed: every unrecognized tag maps to [`ScriptLine::Other`], never to an
//! error, keeping the line's position in the story.

use vstd::prelude::*;
use crate::error::{DecodeError, ErrorModel};
use crate::json::{spec_lookup, JsonValue};
use crate::strutil::{seq_views, spec_split, split_char, str_eq};

verus! {

/// The mathematical image of a [`ScriptLine`].
#[verifier::ext_equal]
pub enum LineModel {
    Dialogue { id: int, speaker: Option<Seq<char>>, content: Seq<char> },
    Caption { id: int, text: Option<Seq<char>> },
    Background { id: int, image: Option<Seq<char>> },
    Image { id: int, image: Option<Seq<char>> },
    Decision { id: int, options: Seq<(Seq<char>, Seq<char>)> },
    Predicate { id: int, references: Seq<char>, end_of_opt: bool },
    Other { id: int },
}

/// One decoded script line. Every variant keeps the originating record's
/// integer id.
#[derive(Debug, Clone, PartialEq, Eq)]
pub enum ScriptLine {
    /// A spoken line: optional speaker name, spoken text.
    Dialogue { id: i64, speaker: Option<String>, content: String },
    /// A caption card; two source tags share this shape.
    Caption { id: i64, text: Option<String> },
    /// A change of backdrop.
    Background { id: i64, image: Option<String> },
    /// An inline illustration.
    Image { id: i64, image: Option<String> },
    /// A branching point: ordered (option label, target line id) pairs.
    Decision { id: i64, options: Vec<(String, String)> },
    /// A branch-control expression, with its end-of-branch flag.
    Predicate { id: i64, references: String, end_of_opt: bool },
    /// Any unrecognized tag, kept only for positional integrity.
    Other { id: i64 },
}

/// The views of a list of string pairs.
pub open spec fn pair_views(v: Seq<(String, String)>) -> Seq<(Seq<char>, Seq<char>)> {
    v.map_values(|p: (String, String)| (p.0@, p.1@))
}

impl View for ScriptLine {
    type V = LineModel;

    open spec fn view(&self) -> LineModel {
        match self {
            ScriptLine::Dialogue { id, speaker, content } => LineModel::Dialogue {
                id: *id as int,
                speaker: match speaker {
                    Some(s) => Some(s@),
                    None => None,
                },
                content: content@,
            },
            ScriptLine::Caption { id, text } => LineModel::Caption {
                id: *id as int,
                text: match text {
                    Some(s) => Some(s@),
                    None => None,
                },
            },
            ScriptLine::Background { id, image } => LineModel::Background {
                id: *id as int,
                image: match image {
                    Some(s) => Some(s@),
                    None => None,
                },
            },
            ScriptLine::Image { id, image } => LineModel::Image {
                id: *id as int,
                image: match image {
                    Some(s) => Some(s@),
                    None => None,
                },
            },
            ScriptLine::Decision { id, options } => LineModel::Decision {
                id: *id as int,
                options: pair_views(options@),
            },
            ScriptLine::Predicate { id, references, end_of_opt } => LineModel::Predicate {
                id: *id as int,
                references: references@,
                end_of_opt: *end_of_opt,
            },
            ScriptLine::Other { id } => LineModel::Other { id: *id as int },
        }
    }
}

impl ScriptLine {
    /// The originating record's line id, whatever the variant.
    pub open spec fn spec_id(self) -> int {
        match self@ {
            LineModel::Dialogue { id, .. } => id,
            LineModel::Caption { id, .. } => id,
            LineModel::Background { id, .. } => id,
            LineModel::Image { id, .. } => id,
            LineModel::Decision { id, .. } => id,
            LineModel::Predicate { id, .. } => id,
            LineModel::Other { id } => id,
        }
    }

    /// The originating record's line id, whatever the variant.
    pub fn id(&self) -> (r: i64)
        ensures
            r as int == self.spec_id(),
    {
        match self {
            ScriptLine::Dialogue { id, .. } => *id,
            ScriptLine::Caption { id, .. } => *id,
            ScriptLine::Background { id, .. } => *id,
            ScriptLine::Image { id, .. } => *id,
            ScriptLine::Decision { id, .. } => *id,
            ScriptLine::Predicate { id, .. } => *id,
            ScriptLine::Other { id } => *id,
        }
    }
}

/// Pairing option labels with target line ids positionally, truncating to
/// the shorter list: a label/target count mismatch silently drops the
/// trailing entries of the longer side.
pub open spec fn spec_zip(a: Seq<Seq<char>>, b: Seq<Seq<char>>) -> Seq<(Seq<char>, Seq<char>)> {
    Seq::new(if a.len() <= b.len() { a.len() } else { b.len() }, |i: int| (a[i], b[i]))
}

/// The values of the target-line mapping, in entry order, provided every one
/// of them is a plain string.
pub open spec fn spec_target_values(entries: Seq<(String, JsonValue)>) -> Option<Seq<Seq<char>>> {
    if forall|i: int| 0 <= i < entries.len() ==> (#[trigger] entries[i]).1 matches JsonValue::Str(
        _,
    ) {
        Some(Seq::new(entries.len(), |i: int| entries[i].1->Str_0@))
    } else {
        None
    }
}

/// The target line ids of a decision record: the `targetLine` field must be
/// present, be an object, and hold only string values; its keys are
/// irrelevant, only the order of its entries matters.
pub open spec fn spec_decision_targets(v: JsonValue) -> Option<Seq<Seq<char>>> {
    match v.spec_get("targetLine"@) {
        Some(JsonValue::Obj(entries)) => spec_target_values(entries@),
        _ => None,
    }
}

/// The option-label string of a decision record's attribute payload.
pub open spec fn spec_options_field(attrs: JsonValue) -> Option<Seq<char>> {
    attrs.spec_get_str("options"@)
}

/// Decoding one raw script-line record, as a function of the record alone.
///
/// The envelope phase requires an integer `id`, a string `prop` and an
/// `attributes` field of any shape, and checks the optional `endOfOpt` flag;
/// the second phase decodes `attributes` into the shape the `prop` tag
/// selects. A record tagged `Decision` additionally needs a `targetLine`
/// object whose values, in entry order, are zipped against its option
/// labels. Every unrecognized tag maps to `Other`.
pub open spec fn spec_parse_line(v: JsonValue) -> Result<LineModel, ErrorModel> {
    if v.spec_get_int("id"@) is None {
        Err(ErrorModel::Schema { field: "id"@ })
    } else if v.spec_get_str("prop"@) is None {
        Err(ErrorModel::Schema { field: "prop"@ })
    } else if v.spec_get("attributes"@) is None {
        Err(ErrorModel::Schema { field: "attributes"@ })
    } else if v.spec_get_opt_bool("endOfOpt"@) is Err {
        Err(ErrorModel::Schema { field: "endOfOpt"@ })
    } else {
        let id = v.spec_get_int("id"@)->Some_0;
        let prop = v.spec_get_str("prop"@)->Some_0;
        let attrs = v.spec_get("attributes"@)->Some_0;
        if prop == "Image"@ {
            match attrs.spec_get_opt_str("image"@) {
                Ok(image) => Ok(LineModel::Image { id, image }),
                Err(()) => Err(ErrorModel::LineAttributes { id }),
            }
        } else if prop == "Background"@ {
            match attrs.spec_get_opt_str("image"@) {
                Ok(image) => Ok(LineModel::Background { id, image }),
                Err(()) => Err(ErrorModel::LineAttributes { id }),
            }
        } else if prop == "name"@ {
            match (attrs.spec_get_str("content"@), attrs.spec_get_opt_str("name"@)) {
                (Some(content), Ok(speaker)) => Ok(
                    LineModel::Dialogue { id, speaker, content },
                ),
                _ => Err(ErrorModel::LineAttributes { id }),
            }
        } else if prop == "Sticker"@ || prop == "Subtitle"@ {
            match attrs.spec_get_opt_str("text"@) {
                Ok(text) => Ok(LineModel::Caption { id, text }),
                Err(()) => Err(ErrorModel::LineAttributes { id }),
            }
        } else if prop == "Decision"@ {
            match spec_decision_targets(v) {
                None => Err(ErrorModel::LineTargets { id }),
                Some(targets) => match spec_options_field(attrs) {
                    None => Err(ErrorModel::LineAttributes { id }),
                    Some(options) => Ok(
                        LineModel::Decision {
                            id,
                            options: spec_zip(spec_split(options, ';'), targets),
                        },
                    ),
                },
            }
        } else if prop == "Predicate"@ {
            match attrs.spec_get_str("references"@) {
                Some(references) => Ok(
                    LineModel::Predicate {
                        id,
                        references,
                        end_of_opt: match v.spec_get_opt_bool("endOfOpt"@)->Ok_0 {
                            Some(b) => b,
                            None => false,
                        },
                    },
                ),
                None => Err(ErrorModel::LineAttributes { id }),
            }
        } else {
            Ok(LineModel::Other { id })
        }
    }
}

/// An unrecognized tag never fails: any record whose envelope decodes and
/// whose `prop` is none of the recognized tags decodes to `Other`, with the
/// original line id preserved.
pub proof fn lemma_unknown_prop_is_other(v: JsonValue)
    requires
        v.spec_get_int("id"@) is Some,
        v.spec_get_str("prop"@) is Some,
        v.spec_get("attributes"@) is Some,
        v.spec_get_opt_bool("endOfOpt"@) is Ok,
        v.spec_get_str("prop"@)->Some_0 != "Image"@,
        v.spec_get_str("prop"@)->Some_0 != "Background"@,
        v.spec_get_str("prop"@)->Some_0 != "name"@,
        v.spec_get_str("prop"@)->Some_0 != "Sticker"@,
        v.spec_get_str("prop"@)->Some_0 != "Subtitle"@,
        v.spec_get_str("prop"@)->Some_0 != "Decision"@,
        v.spec_get_str("prop"@)->Some_0 != "Predicate"@,
    ensures
        spec_parse_line(v) == Ok::<LineModel, ErrorModel>(
            LineModel::Other { id: v.spec_get_int("id"@)->Some_0 },
        ),
{
}

/// The decision zip truncates to the shorter side: pair `i` holds label `i`
/// and target `i`, and the pairs end where the shorter list ends.
pub proof fn lemma_zip_truncates(a: Seq<Seq<char>>, b: Seq<Seq<char>>)
    ensures
        spec_zip(a, b).len() == if a.len() <= b.len() {
            a.len()
        } else {
            b.len()
        },
        forall|i: int| 0 <= i < spec_zip(a, b).len() ==> spec_zip(a, b)[i] == (a[i], b[i]),
{
}

/// A predicate line's end-of-branch flag defaults to `false` when the record
/// has no `endOfOpt` field, and is the field's value when it holds a boolean.
pub proof fn lemma_predicate_end_of_opt(v: JsonValue)
    requires
        spec_parse_line(v) matches Ok(m) && m is Predicate,
    ensures
        v.spec_get("endOfOpt"@) is None ==> spec_parse_line(v)->Ok_0->Predicate_end_of_opt
            == false,
        forall|b: bool|
            v.spec_get("endOfOpt"@) == Some(JsonValue::Bool(b))
                ==> spec_parse_line(v)->Ok_0->Predicate_end_of_opt == b,
{
}

/// Decoding a raw script-line record never names a missing resource: every
/// failure is a schema failure.
pub proof fn lemma_line_error_is_schema(v: JsonValue)
    ensures
        spec_parse_line(v) matches Err(e) ==> e.is_schema(),
{
}

/// Clones the values of a target-line object's entries, in entry order;
/// `None` as soon as one of them is not a plain string.
fn extract_targets(entries: &Vec<(String, JsonValue)>) -> (r: Option<Vec<String>>)
    ensures
        match r {
            Some(ts) => spec_target_values(entries@) == Some(seq_views(ts@)),
            None => spec_target_values(entries@) is None,
        },
{
    let n = entries.len();
    let mut out: Vec<String> = Vec::new();
    let mut i: usize = 0;
    while i < n
        invariant
            n == entries@.len(),
            i <= n,
            out@.len() == i,
            forall|j: int|
                0 <= j < i ==> (#[trigger] entries@[j]).1 matches JsonValue::Str(_),
            forall|j: int| 0 <= j < i ==> out@[j]@ == entries@[j].1->Str_0@,
        decreases n - i,
    {
        match &entries[i].1 {
            JsonValue::Str(s) => {
                out.push(s.clone());
            },
            _ => {
                return None;
            },
        }
        i += 1;
    }
    proof {
        assert(seq_views(out@) =~~= Seq::new(
            entries@.len(),
            |j: int| entries@[j].1->Str_0@,
        ));
    }
    Some(out)
}

/// Pairs option labels with targets positionally, truncating to the shorter
/// list.
fn zip_pairs(labels: Vec<String>, targets: Vec<String>) -> (r: Vec<(String, String)>)
    ensures
        pair_views(r@) == spec_zip(seq_views(labels@), seq_views(targets@)),
{
    let n = if labels.len() <= targets.len() {
        labels.len()
    } else {
        targets.len()
    };
    let mut out: Vec<(String, String)> = Vec::new();
    let mut i: usize = 0;
    while i < n
        invariant
            n <= labels@.len(),
            n <= targets@.len(),
            n == spec_zip(seq_views(labels@), seq_views(targets@)).len(),
            i <= n,
            out@.len() == i,
            forall|j: int| 0 <= j < i ==> out@[j].0@ == labels@[j]@ && out@[j].1@ == targets@[j]@,
        decreases n - i,
    {
        out.push((labels[i].clone(), targets[i].clone()));
        i += 1;
    }
    proof {
        assert(pair_views(out@) =~~= spec_zip(seq_views(labels@), seq_views(targets@)));
    }
    out
}

/// Decodes one raw script-line record into exactly one [`ScriptLine`]
/// variant, as [`spec_parse_line`] describes.
pub fn parse_script_line(v: &JsonValue) -> (r: Result<ScriptLine, DecodeError>)
    ensures
        match r {
            Ok(line) => spec_parse_line(*v) matches Ok(m) && line@ == m,
            Err(e) => spec_parse_line(*v) matches Err(m) && e@ == m,
        },
{
    let id = match v.get_i64("id") {
        Some(i) => i,
        None => {
            return Err(DecodeError::Schema { field: "id".to_owned() });
        },
    };
    let prop = match v.get_string("prop") {
        Some(p) => p,
        None => {
            return Err(DecodeError::Schema { field: "prop".to_owned() });
        },
    };
    let attrs = match v.get("attributes") {
        Some(a) => a,
        None => {
            return Err(DecodeError::Schema { field: "attributes".to_owned() });
        },
    };
    let end_of_opt = match v.get_opt_bool("endOfOpt") {
        Ok(b) => b,
        Err(()) => {
            return Err(DecodeError::Schema { field: "endOfOpt".to_owned() });
        },
    };
    if str_eq(prop.as_str(), "Image") {
        match attrs.get_opt_string("image") {
            Ok(image) => Ok(ScriptLine::Image { id, image }),
            Err(()) => Err(DecodeError::LineAttributes { id }),
        }
    } else if str_eq(prop.as_str(), "Background") {
        match attrs.get_opt_string("image") {
            Ok(image) => Ok(ScriptLine::Background { id, image }),
            Err(()) => Err(DecodeError::LineAttributes { id }),
        }
    } else if str_eq(prop.as_str(), "name") {
        let content = match attrs.get_string("content") {
            Some(c) => c,
            None => {
                return Err(DecodeError::LineAttributes { id });
            },
        };
        match attrs.get_opt_string("name") {
            Ok(speaker) => Ok(ScriptLine::Dialogue { id, speaker, content }),
            Err(()) => Err(DecodeError::LineAttributes { id }),
        }
    } else if str_eq(prop.as_str(), "Sticker") || str_eq(prop.as_str(), "Subtitle") {
        match attrs.get_opt_string("text") {
            Ok(text) => Ok(ScriptLine::Caption { id, text }),
            Err(()) => Err(DecodeError::LineAttributes { id }),
        }
    } else if str_eq(prop.as_str(), "Decision") {
        let targets = match v.get("targetLine") {
            Some(t) => match t.as_obj() {
                Some(entries) => match extract_targets(entries) {
                    Some(ts) => ts,
                    None => {
                        return Err(DecodeError::LineTargets { id });
                    },
                },
                None => {
                    return Err(DecodeError::LineTargets { id });
                },
            },
            None => {
                return Err(DecodeError::LineTargets { id });
            },
        };
        let options = match attrs.get_string("options") {
            Some(o) => o,
            None => {
                return Err(DecodeError::LineAttributes { id });
            },
        };
        let labels = split_char(options.as_str(), ';');
        let pairs = zip_pairs(labels, targets);
        Ok(ScriptLine::Decision { id, options: pairs })
    } else if str_eq(prop.as_str(), "Predicate") {
        match attrs.get_string("references") {
            Some(references) => Ok(
                ScriptLine::Predicate {
                    id,
                    references,
                    end_of_opt: match end_of_opt {
                        Some(b) => b,
                        None => false,
                    },
                },
            ),
            None => Err(DecodeError::LineAttributes { id }),
        }
    } else {
        Ok(ScriptLine::Other { id })
    }
}

} // verus!
