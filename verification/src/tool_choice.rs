//! The `tool_choice` setting: its textual form in the environment, and which
//! function calls a given choice lets the agent loop run.

use vstd::prelude::*;

use crate::json::{get_str, json_get, lemma_items_view, Json, JsonView};
use crate::text::{chars_of, concat2, owned, slice_eq_str, spec_trim, str_eq, string_from_chars, trim_range};

verus! {

/// What `serde_json::from_str::<serde_json::Value>` gives for a text: the
/// value, or the error's display text.
pub uninterp spec fn serde_json_from_str(text: Seq<char>) -> Result<JsonView, Seq<char>>;

/// Parses JSON text with `serde_json::from_str`.
///
/// Trusted: the result is the value serde_json reads from the text, or its
/// error message; nothing is claimed about which texts are valid JSON.
#[verifier::external_body]
pub(crate) fn parse_json_text(text: &str) -> (r: Result<Json, String>)
    ensures
        match r {
            Ok(j) => serde_json_from_str(text@) == Ok::<JsonView, Seq<char>>(j@),
            Err(e) => serde_json_from_str(text@) == Err::<JsonView, Seq<char>>(e@),
        },
{
    match serde_json::from_str::<serde_json::Value>(text) {
        Ok(v) => Ok(json_from_serde(v)),
        Err(err) => Err(err.to_string()),
    }
}

/// `serde_json::Value`, carried through opaquely.
#[verifier::external_type_specification]
#[verifier::external_body]
pub struct ExSerdeJsonValue(serde_json::Value);

/// `serde_json::Number`, carried through opaquely.
#[verifier::external_type_specification]
#[verifier::external_body]
pub struct ExSerdeJsonNumber(serde_json::Number);

/// Converts a `serde_json::Value` into the library's `Json`, one node for one node.
#[verifier::external_body]
fn json_from_serde(v: serde_json::Value) -> Json {
    match v {
        serde_json::Value::Null => Json::Null,
        serde_json::Value::Bool(b) => Json::Bool(b),
        serde_json::Value::Number(n) => Json::Number(number_from_serde(&n)),
        serde_json::Value::String(s) => Json::Str(s),
        serde_json::Value::Array(a) => Json::Array(a.into_iter().map(json_from_serde).collect()),
        serde_json::Value::Object(m) => Json::Object(m.into_iter().map(member_from_serde).collect()),
    }
}

/// Converts one member of a `serde_json` object.
#[verifier::external_body]
fn member_from_serde(entry: (String, serde_json::Value)) -> crate::json::JsonMember {
    crate::json::JsonMember { key: entry.0, value: json_from_serde(entry.1) }
}

/// Converts a `serde_json::Number`: an unsigned integer, else a signed one,
/// else its decimal text.
#[verifier::external_body]
fn number_from_serde(n: &serde_json::Number) -> crate::json::JsonNumber {
    match (n.as_u64(), n.as_i64()) {
        (Some(u), _) => crate::json::JsonNumber::PosInt(u),
        (None, Some(i)) => crate::json::JsonNumber::NegInt(i),
        _ => crate::json::JsonNumber::Decimal(n.to_string()),
    }
}

/// A `tool_choice` as configured through the environment.
#[derive(Debug)]
pub enum ToolChoiceEnv {
    Auto,
    NoTools,
    Required,
    Function(String),
    /// A JSON `tool_choice` document that passed the parameter rules.
    Document(Json),
    /// A JSON `tool_choice` document as read from the text, not yet checked
    /// against the parameter rules: `validate_tool_choice` decides on it.
    Unvalidated(Json),
}

/// The choice named by a configured value, or the error text.
pub open spec fn spec_tool_choice_env(value: Seq<char>) -> Result<ToolChoiceEnvView, Seq<char>> {
    let raw = spec_trim(value);
    if raw.len() == 0 || raw == "auto"@ {
        Ok(ToolChoiceEnvView::Auto)
    } else if raw == "none"@ {
        Ok(ToolChoiceEnvView::NoTools)
    } else if raw == "required"@ {
        Ok(ToolChoiceEnvView::Required)
    } else if "function:"@.len() <= raw.len() && raw.subrange(0, 9) == "function:"@ {
        let name = spec_trim(raw.subrange(9, raw.len() as int));
        if name.len() == 0 {
            Err("function name missing (expected function:<name>)"@)
        } else {
            Ok(ToolChoiceEnvView::Function(name))
        }
    } else {
        let is_prefixed = 5 <= raw.len() && raw.subrange(0, 5) == "json:"@;
        let is_json = is_prefixed || raw[0] == '{' || raw[0] == '[' || raw[0] == '"';
        let doc = if is_prefixed {
            spec_trim(raw.subrange(5, raw.len() as int))
        } else {
            raw
        };
        if is_json {
            match serde_json_from_str(doc) {
                Ok(j) => Ok(ToolChoiceEnvView::Unvalidated(j)),
                Err(e) => Err("invalid json tool_choice: "@ + e),
            }
        } else {
            Err(
                "unsupported value (expected auto|none|required|function:<name>|json:<tool_choice_json>)"@,
            )
        }
    }
}

pub ghost enum ToolChoiceEnvView {
    Auto,
    NoTools,
    Required,
    Function(Seq<char>),
    Document(JsonView),
    Unvalidated(JsonView),
}

impl View for ToolChoiceEnv {
    type V = ToolChoiceEnvView;

    open spec fn view(&self) -> ToolChoiceEnvView {
        match self {
            ToolChoiceEnv::Auto => ToolChoiceEnvView::Auto,
            ToolChoiceEnv::NoTools => ToolChoiceEnvView::NoTools,
            ToolChoiceEnv::Required => ToolChoiceEnvView::Required,
            ToolChoiceEnv::Function(n) => ToolChoiceEnvView::Function(n@),
            ToolChoiceEnv::Document(j) => ToolChoiceEnvView::Document(j@),
            ToolChoiceEnv::Unvalidated(j) => ToolChoiceEnvView::Unvalidated(j@),
        }
    }
}

/// Reads `RIP_OPENRESPONSES_TOOL_CHOICE`: `auto`, `none`, `required`,
/// `function:<name>`, or a JSON document (with or without a `json:` prefix).
/// A document comes back unvalidated: whether it is accepted is decided by
/// `validate_tool_choice` on the errors the parameter rules report for it.
pub fn parse_tool_choice_env(value: &str) -> (r: Result<ToolChoiceEnv, String>)
    ensures
        match spec_tool_choice_env(value@) {
            Ok(c) => r matches Ok(x) && x@ == c,
            Err(e) => r matches Err(m) && m@ == e,
        },
{
    let chars = chars_of(value);
    let (a, b) = trim_range(&chars, 0, chars.len());
    assert(chars@.subrange(0, chars@.len() as int) =~= chars@);
    let ghost raw = chars@.subrange(a as int, b as int);
    if a == b || slice_eq_str(&chars, a, b, "auto") {
        return Ok(ToolChoiceEnv::Auto);
    }
    if slice_eq_str(&chars, a, b, "none") {
        return Ok(ToolChoiceEnv::NoTools);
    }
    if slice_eq_str(&chars, a, b, "required") {
        return Ok(ToolChoiceEnv::Required);
    }
    if b - a >= 9 && slice_eq_str(&chars, a, a + 9, "function:") {
        proof {
            reveal_strlit("function:");
            assert(raw.subrange(0, 9) =~= chars@.subrange(a as int, a + 9));
        }
        let (na, nb) = trim_range(&chars, a + 9, b);
        assert(raw.subrange(9, raw.len() as int) =~= chars@.subrange(a + 9, b as int));
        if na == nb {
            return Err(owned("function name missing (expected function:<name>)"));
        }
        return Ok(ToolChoiceEnv::Function(string_from_chars(&chars, na, nb)));
    }
    proof {
        reveal_strlit("function:");
        if raw.len() >= 9 {
            assert(raw.subrange(0, 9) =~= chars@.subrange(a as int, a + 9));
        }
    }
    let prefixed = b - a >= 5 && slice_eq_str(&chars, a, a + 5, "json:");
    proof {
        reveal_strlit("json:");
        if raw.len() >= 5 {
            assert(raw.subrange(0, 5) =~= chars@.subrange(a as int, a + 5));
        }
        assert(raw[0] == chars@[a as int]);
    }
    let first = chars[a];
    let is_json = prefixed || first == '{' || first == '[' || first == '"';
    if !is_json {
        return Err(
            owned(
                "unsupported value (expected auto|none|required|function:<name>|json:<tool_choice_json>)",
            ),
        );
    }
    let doc = if prefixed {
        let (da, db) = trim_range(&chars, a + 5, b);
        assert(raw.subrange(5, raw.len() as int) =~= chars@.subrange(a + 5, b as int));
        string_from_chars(&chars, da, db)
    } else {
        string_from_chars(&chars, a, b)
    };
    match parse_json_text(doc.as_str()) {
        Ok(j) => Ok(ToolChoiceEnv::Unvalidated(j)),
        Err(e) => Err(concat2("invalid json tool_choice: ", e.as_str())),
    }
}

/// Texts joined with a separator between each two.
pub open spec fn joined(parts: Seq<Seq<char>>, sep: Seq<char>) -> Seq<char>
    decreases parts.len(),
{
    if parts.len() == 0 {
        Seq::empty()
    } else if parts.len() == 1 {
        parts[0]
    } else {
        joined(parts.drop_last(), sep) + sep + parts.last()
    }
}

/// The decision on a read tool choice, given the errors the tool_choice
/// parameter rules report for its document: a document with errors is
/// rejected with `invalid tool_choice: ` and the errors joined by `; `; one
/// without errors is accepted; every other choice stands as it is.
pub open spec fn spec_validate_tool_choice(choice: ToolChoiceEnvView, param_errors: Seq<Seq<char>>) -> Result<
    ToolChoiceEnvView,
    Seq<char>,
> {
    match choice {
        ToolChoiceEnvView::Unvalidated(j) => if param_errors.len() > 0 {
            Err("invalid tool_choice: "@ + joined(param_errors, "; "@))
        } else {
            Ok(ToolChoiceEnvView::Document(j))
        },
        _ => Ok(choice),
    }
}

pub fn validate_tool_choice(choice: ToolChoiceEnv, param_errors: &Vec<String>) -> (r: Result<ToolChoiceEnv, String>)
    ensures
        match spec_validate_tool_choice(choice@, param_errors@.map_values(|e: String| e@)) {
            Ok(c) => r matches Ok(x) && x@ == c,
            Err(e) => r matches Err(m) && m@ == e,
        },
{
    let ghost errs = param_errors@.map_values(|e: String| e@);
    match choice {
        ToolChoiceEnv::Unvalidated(j) => {
            if param_errors.len() == 0 {
                return Ok(ToolChoiceEnv::Document(j));
            }
            let mut text = param_errors[0].clone();
            let mut i: usize = 1;
            assert(errs.subrange(0, 1) =~= seq![errs[0]]);
            while i < param_errors.len()
                invariant
                    1 <= i <= param_errors@.len(),
                    errs == param_errors@.map_values(|e: String| e@),
                    text@ == joined(errs.subrange(0, i as int), "; "@),
                decreases param_errors@.len() - i,
            {
                assert(errs.subrange(0, i + 1).drop_last() =~= errs.subrange(0, i as int));
                let a = concat2(text.as_str(), "; ");
                text = concat2(a.as_str(), param_errors[i].as_str());
                i = i + 1;
            }
            assert(errs.subrange(0, param_errors@.len() as int) =~= errs);
            Err(concat2("invalid tool_choice: ", text.as_str()))
        },
        other => Ok(other),
    }
}

/// Which function calls a `tool_choice` lets the agent loop run.
#[derive(Debug)]
pub enum ToolChoiceEnforcement {
    AllFunctions,
    NoTools,
    OnlyFunctions(Vec<String>),
}

pub ghost enum EnforcementView {
    AllFunctions,
    NoTools,
    OnlyFunctions(Set<Seq<char>>),
}

/// The names held by a list of names, as a set.
pub open spec fn name_set(names: Seq<String>) -> Set<Seq<char>> {
    Set::new(|n: Seq<char>| exists|i: int| 0 <= i < names.len() && (#[trigger] names[i])@ == n)
}

impl View for ToolChoiceEnforcement {
    type V = EnforcementView;

    open spec fn view(&self) -> EnforcementView {
        match self {
            ToolChoiceEnforcement::AllFunctions => EnforcementView::AllFunctions,
            ToolChoiceEnforcement::NoTools => EnforcementView::NoTools,
            ToolChoiceEnforcement::OnlyFunctions(names) => EnforcementView::OnlyFunctions(
                name_set(names@),
            ),
        }
    }
}

/// The function an entry of an `allowed_tools` list names, if any.
pub open spec fn allowed_entry_name(tool: JsonView) -> Option<Seq<char>> {
    if tool is Object && get_str(tool, "type"@) == Some("function"@) {
        match get_str(tool, "name"@) {
            Some(n) => if n.len() > 0 {
                Some(n)
            } else {
                None
            },
            None => None,
        }
    } else {
        None
    }
}

/// Whether an entry of an `allowed_tools` list names the function `name`.
pub open spec fn allowed_function_name(tool: JsonView, name: Seq<char>) -> bool {
    allowed_entry_name(tool) == Some(name)
}

fn entry_name(tool: &Json) -> (r: Option<String>)
    ensures
        match r {
            Some(n) => allowed_entry_name(tool@) == Some(n@),
            None => allowed_entry_name(tool@) is None,
        },
{
    match tool {
        Json::Object(_) => {
            if opt_str_is(tool.get_str("type"), "function") {
                if let Some(name) = tool.get_str("name") {
                    if name.unicode_len() > 0 {
                        return Some(owned(name));
                    }
                }
            }
            None
        },
        _ => None,
    }
}

/// The function names listed by the `tools` member of an `allowed_tools` choice.
pub open spec fn allowed_tools_names(choice: JsonView) -> Set<Seq<char>> {
    match json_get(choice, "tools"@) {
        Some(JsonView::Array(tools)) => Set::new(
            |n: Seq<char>|
                exists|i: int| 0 <= i < tools.len() && allowed_function_name(#[trigger] tools[i], n),
        ),
        _ => Set::empty(),
    }
}

/// The enforcement a `tool_choice` value stands for.
pub open spec fn spec_enforcement(value: JsonView) -> EnforcementView {
    match value {
        JsonView::Str(s) => if s == "none"@ {
            EnforcementView::NoTools
        } else {
            EnforcementView::AllFunctions
        },
        JsonView::Object(_) => {
            let kind = get_str(value, "type"@);
            if kind == Some("function"@) {
                match get_str(value, "name"@) {
                    Some(n) => if n.len() > 0 {
                        EnforcementView::OnlyFunctions(Set::empty().insert(n))
                    } else {
                        EnforcementView::OnlyFunctions(Set::empty())
                    },
                    None => EnforcementView::OnlyFunctions(Set::empty()),
                }
            } else if kind == Some("allowed_tools"@) {
                if get_str(value, "mode"@) == Some("none"@) {
                    EnforcementView::NoTools
                } else {
                    EnforcementView::OnlyFunctions(allowed_tools_names(value))
                }
            } else {
                EnforcementView::AllFunctions
            }
        },
        _ => EnforcementView::AllFunctions,
    }
}

/// Whether an enforcement lets a function of this name run.
pub open spec fn spec_allows(e: EnforcementView, name: Seq<char>) -> bool {
    match e {
        EnforcementView::AllFunctions => true,
        EnforcementView::NoTools => false,
        EnforcementView::OnlyFunctions(s) => s.contains(name),
    }
}

fn opt_str_is(o: Option<&str>, lit: &str) -> (r: bool)
    ensures
        r == match o {
            Some(s) => s@ == lit@,
            None => false,
        },
{
    match o {
        Some(s) => str_eq(s, lit),
        None => false,
    }
}

impl ToolChoiceEnforcement {
    pub fn from_value(value: &Json) -> (r: ToolChoiceEnforcement)
        ensures
            r@ == spec_enforcement(value@),
    {
        match value {
            Json::Str(s) => {
                if str_eq(s.as_str(), "none") {
                    ToolChoiceEnforcement::NoTools
                } else {
                    ToolChoiceEnforcement::AllFunctions
                }
            },
            Json::Object(_) => {
                let kind = value.get_str("type");
                if opt_str_is(kind, "function") {
                    let mut allowed: Vec<String> = Vec::new();
                    let ghost before = allowed@;
                    if let Some(name) = value.get_str("name") {
                        if name.unicode_len() > 0 {
                            allowed.push(owned(name));
                            proof {
                                let n = name@;
                                assert(allowed@[0]@ == n);
                                assert(name_set(allowed@) =~= Set::empty().insert(n));
                            }
                            return ToolChoiceEnforcement::OnlyFunctions(allowed);
                        }
                    }
                    assert(name_set(allowed@) =~= Set::empty());
                    ToolChoiceEnforcement::OnlyFunctions(allowed)
                } else if opt_str_is(kind, "allowed_tools") {
                    if opt_str_is(value.get_str("mode"), "none") {
                        return ToolChoiceEnforcement::NoTools;
                    }
                    let mut allowed: Vec<String> = Vec::new();
                    match value.get("tools") {
                        Some(Json::Array(tools)) => {
                            proof {
                                lemma_items_view(tools@);
                            }
                            let ghost tv = crate::json::items_view(tools@);
                            let mut i: usize = 0;
                            while i < tools.len()
                                invariant
                                    json_get(value@, "tools"@) == Some(JsonView::Array(tv)),
                                    tv.len() == tools@.len(),
                                    forall|k: int| 0 <= k < tools@.len() ==> #[trigger] tv[k] == tools@[k]@,
                                    i <= tools@.len(),
                                    forall|n: Seq<char>| name_set(allowed@).contains(n) <==> exists|k: int|
                                        0 <= k < i && allowed_function_name(#[trigger] tv[k], n),
                                decreases tools@.len() - i,
                            {
                                let tool = &tools[i];
                                let ghost t = tv[i as int];
                                assert(t == tool@);
                                let ghost before = allowed@;
                                let found = entry_name(tool);
                                let added = found.is_some();
                                if let Some(n) = found {
                                    allowed.push(n);
                                }
                                proof {
                                    assert forall|n: Seq<char>| name_set(allowed@).contains(n) <==> exists|k: int|
                                        0 <= k < i + 1 && allowed_function_name(#[trigger] tv[k], n) by {
                                        if name_set(allowed@).contains(n) {
                                            let j = choose|j: int| 0 <= j < allowed@.len() && (#[trigger] allowed@[j])@ == n;
                                            if j < before.len() {
                                                assert(before[j] == allowed@[j]);
                                                assert(name_set(before).contains(n));
                                            } else {
                                                assert(allowed_function_name(tv[i as int], n));
                                            }
                                        }
                                        if exists|k: int| 0 <= k < i + 1 && allowed_function_name(#[trigger] tv[k], n) {
                                            let k = choose|k: int| 0 <= k < i + 1 && allowed_function_name(#[trigger] tv[k], n);
                                            if k < i {
                                                assert(name_set(before).contains(n));
                                                let j = choose|j: int| 0 <= j < before.len() && (#[trigger] before[j])@ == n;
                                                assert(allowed@[j] == before[j]);
                                            } else {
                                                assert(allowed@[allowed@.len() - 1]@ == n);
                                            }
                                        }
                                    }
                                }
                                i = i + 1;
                            }
                            proof {
                                assert(name_set(allowed@) =~= allowed_tools_names(value@));
                            }
                        },
                        _ => {
                            assert(name_set(allowed@) =~= Set::empty());
                        },
                    }
                    ToolChoiceEnforcement::OnlyFunctions(allowed)
                } else {
                    ToolChoiceEnforcement::AllFunctions
                }
            },
            _ => ToolChoiceEnforcement::AllFunctions,
        }
    }

    pub fn allows_function(&self, name: &str) -> (r: bool)
        ensures
            r == spec_allows(self@, name@),
    {
        match self {
            ToolChoiceEnforcement::AllFunctions => true,
            ToolChoiceEnforcement::NoTools => false,
            ToolChoiceEnforcement::OnlyFunctions(allowed) => {
                let mut i: usize = 0;
                while i < allowed.len()
                    invariant
                        self@ == EnforcementView::OnlyFunctions(name_set(allowed@)),
                        i <= allowed@.len(),
                        forall|k: int| 0 <= k < i ==> (#[trigger] allowed@[k])@ != name@,
                    decreases allowed@.len() - i,
                {
                    if str_eq(allowed[i].as_str(), name) {
                        assert(name_set(allowed@).contains(name@));
                        return true;
                    }
                    i = i + 1;
                }
                false
            },
        }
    }
}

/// A `"none"` tool choice runs no function, and a choice naming one function
/// runs that function and no other.
pub proof fn lemma_enforcement_none_and_single(value: JsonView, name: Seq<char>, other: Seq<char>)
    ensures
        value == JsonView::Str("none"@) ==> !spec_allows(spec_enforcement(value), name),
        (value is Object && get_str(value, "type"@) == Some("function"@) && get_str(value, "name"@)
            == Some(name) && name.len() > 0) ==> {
            &&& spec_allows(spec_enforcement(value), name)
            &&& (other != name ==> !spec_allows(spec_enforcement(value), other))
        },
{
    reveal_strlit("function");
    reveal_strlit("allowed_tools");
}

/// An `allowed_tools` choice whose mode is not `none` lets a function run
/// exactly when some entry of its `tools` list, at any position, is a
/// `function` entry with that (non-empty) name; with mode `none` no function
/// runs.
pub proof fn lemma_allowed_tools_admit_every_listed_function(value: JsonView, tools: Seq<JsonView>, name: Seq<char>)
    requires
        value is Object,
        get_str(value, "type"@) == Some("allowed_tools"@),
        json_get(value, "tools"@) == Some(JsonView::Array(tools)),
    ensures
        get_str(value, "mode"@) != Some("none"@) ==> (spec_allows(spec_enforcement(value), name) <==> exists|i: int|
            0 <= i < tools.len() && (#[trigger] tools[i]) is Object && get_str(tools[i], "type"@) == Some(
                "function"@,
            ) && get_str(tools[i], "name"@) == Some(name) && name.len() > 0),
        get_str(value, "mode"@) == Some("none"@) ==> !spec_allows(spec_enforcement(value), name),
{
    reveal_strlit("allowed_tools");
    reveal_strlit("function");
    assert("allowed_tools"@.len() != "function"@.len());
}

} // verus!
