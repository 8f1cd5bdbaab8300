use vstd::prelude::*;
use vstd::string::*;

use crate::catalog::{first_ci_match, list, lowercase_text, resolve_spec, Catalog, TaskSpec};
use crate::json::{field, fields_view, json_items, Json, JsonV};
use crate::text::{debug_str, debug_text, push_str, trimmed};
use crate::tools::{task_schema_json, task_summary_json, ToolError, ToolErrorKind};

verus! {

broadcast use vstd::string::group_string_axioms;

// ---------------------------------------------------------------------------
// Resources.

/// A resource the server can read.
pub enum ResourceRoute {
    /// The catalog summary.
    Catalog,
    /// One task type's schema, as named after the catalog prefix.
    TaskSchema(String),
    /// The session status.
    Status,
}

/// The prefix of the per-task schema resources.
pub open spec fn schema_prefix() -> Seq<char> {
    "arkd://catalog/"@
}

/// Whether `uri` names one task type's schema.
pub open spec fn names_schema(uri: Seq<char>) -> bool {
    uri.len() >= 15 && uri.take(15) == schema_prefix()
}

/// The error for a resource that does not exist.
pub open spec fn unknown_resource_text(uri: Seq<char>) -> Seq<char> {
    "unknown resource "@ + debug_text(uri)
}

/// The resource a URI names: the catalog, a task type's schema, or the status;
/// anything else is not found.
pub fn route_resource(uri: &str) -> (r: Result<ResourceRoute, ToolError>)
    ensures
        uri@ == "arkd://catalog"@ ==> r matches Ok(ResourceRoute::Catalog),
        uri@ != "arkd://catalog"@ && names_schema(uri@) ==> (r matches Ok(
            ResourceRoute::TaskSchema(t),
        ) && t@ == uri@.skip(15)),
        uri@ != "arkd://catalog"@ && !names_schema(uri@) && uri@ == "arkd://status"@ ==> r matches Ok(
            ResourceRoute::Status,
        ),
        uri@ != "arkd://catalog"@ && !names_schema(uri@) && uri@ != "arkd://status"@ ==> (r matches Err(
            e,
        ) && e.kind == ToolErrorKind::NotFound && e.message@ == unknown_resource_text(uri@)),
{
    if crate::text::str_eq(uri, "arkd://catalog") {
        return Ok(ResourceRoute::Catalog);
    }
    let cs = crate::text::str_chars(uri);
    let n = cs.len();
    proof {
        reveal_strlit("arkd://catalog/");
    }
    if n >= 15 && cs[0] == 'a' && cs[1] == 'r' && cs[2] == 'k' && cs[3] == 'd' && cs[4] == ':'
        && cs[5] == '/' && cs[6] == '/' && cs[7] == 'c' && cs[8] == 'a' && cs[9] == 't' && cs[10]
        == 'a' && cs[11] == 'l' && cs[12] == 'o' && cs[13] == 'g' && cs[14] == '/' {
        let mut rest: Vec<char> = Vec::new();
        let mut i: usize = 15;
        while i < n
            invariant
                n == cs@.len(),
                15 <= i <= n,
                rest@ == cs@.subrange(15, i as int),
            decreases n - i,
        {
            rest.push(cs[i]);
            i = i + 1;
        }
        proof {
            assert(cs@.take(15) =~= schema_prefix());
            assert(rest@ =~= uri@.skip(15));
        }
        return Ok(ResourceRoute::TaskSchema(crate::text::string_from_chars(&rest)));
    }
    proof {
        if names_schema(uri@) {
            let t = uri@.take(15);
            assert(t[0] == 'a' && t[1] == 'r' && t[2] == 'k' && t[3] == 'd' && t[4] == ':');
            assert(t[5] == '/' && t[6] == '/' && t[7] == 'c' && t[8] == 'a' && t[9] == 't');
            assert(t[10] == 'a' && t[11] == 'l' && t[12] == 'o' && t[13] == 'g' && t[14] == '/');
        }
    }
    if crate::text::str_eq(uri, "arkd://status") {
        return Ok(ResourceRoute::Status);
    }
    let mut m = String::from_str("unknown resource ");
    let q = debug_str(uri);
    m.append(q.as_str());
    Err(ToolError { kind: ToolErrorKind::NotFound, message: m })
}

/// The catalog resource: every task type's summary.
pub open spec fn catalog_resource_json(specs: Seq<TaskSpec>) -> JsonV {
    JsonV::Object(
        seq![
            ("task_types"@, JsonV::Array(
                Seq::new(
                    specs.len(),
                    |i: int|
                        JsonV::Object(
                            seq![
                                ("task_type"@, JsonV::Str(specs[i].task_type@)),
                                ("summary"@, JsonV::Str(specs[i].summary@)),
                                ("required"@, JsonV::Str(crate::catalog::required_text(specs[i].schema@))),
                            ],
                        ),
                ),
            )),
        ],
    )
}

/// The body of the catalog resource; see `catalog_resource_json`.
pub fn catalog_resource(cat: &Catalog) -> (r: Json)
    ensures
        r@ == catalog_resource_json(cat.specs()),
{
    let summaries = list(cat);
    let mut items: Vec<Json> = Vec::new();
    let mut i: usize = 0;
    while i < summaries.len()
        invariant
            i <= summaries@.len(),
            summaries@.len() == cat.specs().len(),
            forall|k: int|
                0 <= k < summaries@.len() ==> (#[trigger] summaries@[k]).task_type@ == cat.specs()[k].task_type@
                    && summaries@[k].summary@ == cat.specs()[k].summary@ && summaries@[k].required@
                    == crate::catalog::required_text(cat.specs()[k].schema@),
            items@.len() == i,
            forall|k: int|
                0 <= k < i ==> (#[trigger] items@[k])@ == JsonV::Object(
                    seq![
                        ("task_type"@, JsonV::Str(cat.specs()[k].task_type@)),
                        ("summary"@, JsonV::Str(cat.specs()[k].summary@)),
                        ("required"@, JsonV::Str(crate::catalog::required_text(cat.specs()[k].schema@))),
                    ],
                ),
        decreases summaries.len() - i,
    {
        items.push(task_summary_json(&summaries[i]));
        i = i + 1;
    }
    let mut f: Vec<(String, Json)> = Vec::new();
    f.push(field("task_types", Json::array(items)));
    proof {
        if let JsonV::Object(want) = catalog_resource_json(cat.specs()) {
            if let JsonV::Array(w) = want[0].1 {
                assert(json_items(items@) =~= w);
            }
            assert(fields_view(f@) =~= want);
        }
    }
    Json::object(f)
}

/// The body of a task type's schema resource: the schema, summary, notes and example of
/// the type the name means; a name the catalog does not know is the caller's mistake.
pub fn schema_resource<F: Fn(&str) -> Vec<String>>(cat: &Catalog, task_type: &str, suggest: &F) -> (r:
    Result<Json, ToolError>)
    requires
        forall|t: &str| suggest.requires((t,)),
    ensures
        match first_ci_match(cat.specs(), lowercase_text(trimmed(task_type@))) {
            Some(i) => r matches Ok(j) && j@ == JsonV::Object(
                seq![
                    ("task_type"@, JsonV::Str(cat.specs()[i].task_type@)),
                    ("summary"@, JsonV::Str(cat.specs()[i].summary@)),
                    ("notes"@, JsonV::Str(cat.specs()[i].notes@)),
                    ("schema"@, cat.specs()[i].schema@),
                    ("example"@, cat.specs()[i].example@),
                ],
            ),
            None => r matches Err(e) && e.kind == ToolErrorKind::InvalidParams,
        },
{
    match resolve_spec(cat, task_type, suggest) {
        Ok(spec) => Ok(task_schema_json(spec)),
        Err(e) => Err(ToolError { kind: ToolErrorKind::InvalidParams, message: e.message() }),
    }
}

// ---------------------------------------------------------------------------
// Prompts.

/// The description of the daily routine prompt.
pub open spec fn daily_prompt_description() -> Seq<char> {
    "Queue and run a standard daily session, then report what happened."@
}

/// The description of the diagnosis prompt.
pub open spec fn diagnose_prompt_description() -> Seq<char> {
    "Work out why the current run is failing or stalled."@
}

/// The daily routine prompt, farming `stage` (the last stage played when empty).
pub open spec fn daily_prompt_text(stage: Seq<char>) -> Seq<char> {
    "Run today's Arknights dailies with MAA, farming "@ + (if stage.len() == 0 {
        "the last stage played"@
    } else {
        stage
    }) + ".\n\n1. Call status. If no device is connected, call device_connect.\n2. Call maa_daily"@
        + (if stage.len() == 0 {
        Seq::empty()
    } else {
        " with stage='"@ + stage + "'"@
    })
        + " then maa_start.\n3. Call maa_wait with until='all_done' and a generous timeout, then check maa_events for the chains that completed or errored.\n4. Report which task chains completed and which errored. For any error, call screen_capture and say what the screen shows.\n\nDo not spend originite prime or sanity potions unless I ask."@
}

/// The diagnosis prompt.
pub open spec fn diagnose_prompt_text() -> Seq<char> {
    "The MAA run looks stuck. Diagnose it:\n\n1. status -- is the core loaded, is a device connected, is a run in progress, and what is last_error?\n2. maa_queue -- which task is 'running', and which reached 'error'?\n3. maa_events with significant_only=false and include_payload=true, scoped to the failing task's sequence range.\n4. screen_capture -- what is actually on screen?\n5. battle_state -- if a Copilot task ran, what does the battle report say?\n\nThen tell me the cause and the smallest fix. Do not stop or restart the run without asking."@
}

/// A prompt by name: its description and text. `stage` is the daily routine's stage
/// argument (empty when not given); an unknown name is the caller's mistake.
pub fn prompt(name: &str, stage: &str) -> (r: Result<(String, String), ToolError>)
    ensures
        name@ == "daily_routine"@ ==> (r matches Ok((d, t)) && d@ == daily_prompt_description()
            && t@ == daily_prompt_text(stage@)),
        name@ != "daily_routine"@ && name@ == "diagnose"@ ==> (r matches Ok((d, t)) && d@
            == diagnose_prompt_description() && t@ == diagnose_prompt_text()),
        name@ != "daily_routine"@ && name@ != "diagnose"@ ==> (r matches Err(e) && e.kind
            == ToolErrorKind::InvalidParams && e.message@ == "unknown prompt "@ + debug_text(
            name@,
        )),
{
    if crate::text::str_eq(name, "daily_routine") {
        let empty = stage.unicode_len() == 0;
        let mut t = String::from_str("Run today's Arknights dailies with MAA, farming ");
        if empty {
            push_str(&mut t, "the last stage played");
        } else {
            push_str(&mut t, stage);
        }
        push_str(
            &mut t,
            ".\n\n1. Call status. If no device is connected, call device_connect.\n2. Call maa_daily",
        );
        if !empty {
            push_str(&mut t, " with stage='");
            push_str(&mut t, stage);
            push_str(&mut t, "'");
        }
        push_str(
            &mut t,
            " then maa_start.\n3. Call maa_wait with until='all_done' and a generous timeout, then check maa_events for the chains that completed or errored.\n4. Report which task chains completed and which errored. For any error, call screen_capture and say what the screen shows.\n\nDo not spend originite prime or sanity potions unless I ask.",
        );
        proof {
            if empty {
                assert(t@ =~= daily_prompt_text(stage@));
            } else {
                assert(t@ =~= daily_prompt_text(stage@));
            }
        }
        Ok(
            (
                String::from_str(
                    "Queue and run a standard daily session, then report what happened.",
                ),
                t,
            ),
        )
    } else if crate::text::str_eq(name, "diagnose") {
        Ok(
            (
                String::from_str("Work out why the current run is failing or stalled."),
                String::from_str(
                    "The MAA run looks stuck. Diagnose it:\n\n1. status -- is the core loaded, is a device connected, is a run in progress, and what is last_error?\n2. maa_queue -- which task is 'running', and which reached 'error'?\n3. maa_events with significant_only=false and include_payload=true, scoped to the failing task's sequence range.\n4. screen_capture -- what is actually on screen?\n5. battle_state -- if a Copilot task ran, what does the battle report say?\n\nThen tell me the cause and the smallest fix. Do not stop or restart the run without asking.",
                ),
            ),
        )
    } else {
        let mut m = String::from_str("unknown prompt ");
        let q = debug_str(name);
        m.append(q.as_str());
        Err(ToolError { kind: ToolErrorKind::InvalidParams, message: m })
    }
}

} // verus!
