//! The JSON a request carries for its options: the reasoning object, the
//! hosted web search tool with its approximate location, and the function
//! tools the server offers.

use vstd::prelude::*;

use crate::json::{items_view, lemma_items_view, lemma_members_view, members_view, Json, JsonMember, JsonNumber, JsonView, NumberView, ObjectBuilder};
use crate::provider::{
    context_size_name, effort_name, normalize_location, summary_name, LocationView, OpenResponsesApproximateLocation,
    OpenResponsesReasoningConfig, OpenResponsesWebSearchConfig, ReasoningEffort, ReasoningSummary,
    SearchContextSize, WebSearchView,
};

verus! {

/// The member `key: value` when the text is there.
pub open spec fn text_member(key: Seq<char>, o: Option<Seq<char>>) -> Seq<(Seq<char>, JsonView)> {
    match o {
        Some(v) => seq![(key, JsonView::Str(v))],
        None => Seq::empty(),
    }
}

/// The `user_location` object of a location: `type: approximate` and each
/// field left after normalising; nothing when no field is left.
pub open spec fn location_value_view(l: LocationView) -> Option<JsonView> {
    match normalize_location(l) {
        Some(n) => Some(
            JsonView::Object(
                seq![("type"@, JsonView::Str("approximate"@))] + text_member("country"@, n.country) + text_member(
                    "region"@,
                    n.region,
                ) + text_member("city"@, n.city) + text_member("timezone"@, n.timezone),
            ),
        ),
        None => None,
    }
}

fn push_text_member(o: &mut ObjectBuilder, key: &str, value: &Option<String>)
    ensures
        final(o).spec_members() == old(o).spec_members() + text_member(key@, crate::provider::opt_chars(*value)),
{
    let ghost before = o.spec_members();
    match value {
        Some(v) => o.insert(key, Json::string(v.as_str())),
        None => {},
    }
    assert(o.spec_members() =~= before + text_member(key@, crate::provider::opt_chars(*value)));
}

impl OpenResponsesApproximateLocation {
    /// The location as the `user_location` of a web search tool.
    pub fn to_value(&self) -> (r: Option<Json>)
        ensures
            match r {
                Some(j) => location_value_view(self@) == Some(j@),
                None => location_value_view(self@) is None,
            },
    {
        let normalized = match self.copied().normalized() {
            Some(n) => n,
            None => return None,
        };
        let mut o = ObjectBuilder::new();
        o.insert("type", Json::string("approximate"));
        push_text_member(&mut o, "country", &normalized.country);
        push_text_member(&mut o, "region", &normalized.region);
        push_text_member(&mut o, "city", &normalized.city);
        push_text_member(&mut o, "timezone", &normalized.timezone);
        Some(o.build())
    }
}

pub fn effort_wire_name(e: ReasoningEffort) -> (r: &'static str)
    ensures
        r@ == effort_name(e),
{
    match e {
        ReasoningEffort::NoEffort => "none",
        ReasoningEffort::Minimal => "minimal",
        ReasoningEffort::Low => "low",
        ReasoningEffort::Medium => "medium",
        ReasoningEffort::High => "high",
        ReasoningEffort::Xhigh => "xhigh",
    }
}

pub fn summary_wire_name(s: ReasoningSummary) -> (r: &'static str)
    ensures
        r@ == summary_name(s),
{
    match s {
        ReasoningSummary::Concise => "concise",
        ReasoningSummary::Detailed => "detailed",
        ReasoningSummary::Auto => "auto",
    }
}

pub fn context_size_wire_name(s: SearchContextSize) -> (r: &'static str)
    ensures
        r@ == context_size_name(s),
{
    match s {
        SearchContextSize::Low => "low",
        SearchContextSize::Medium => "medium",
        SearchContextSize::High => "high",
    }
}

/// The `reasoning` object of a request: the effort and summary that are set;
/// nothing when neither is.
pub open spec fn reasoning_value_view(c: OpenResponsesReasoningConfig) -> Option<JsonView> {
    if c.effort is None && c.summary is None {
        None
    } else {
        Some(
            JsonView::Object(
                text_member(
                    "effort"@,
                    match c.effort {
                        Some(e) => Some(effort_name(e)),
                        None => None,
                    },
                ) + text_member(
                    "summary"@,
                    match c.summary {
                        Some(s) => Some(summary_name(s)),
                        None => None,
                    },
                ),
            ),
        )
    }
}

impl OpenResponsesReasoningConfig {
    pub fn to_value(&self) -> (r: Option<Json>)
        ensures
            match r {
                Some(j) => reasoning_value_view(*self) == Some(j@),
                None => reasoning_value_view(*self) is None,
            },
    {
        if self.effort.is_none() && self.summary.is_none() {
            return None;
        }
        let mut o = ObjectBuilder::new();
        let ghost s0 = o.spec_members();
        match self.effort {
            Some(e) => o.insert("effort", Json::string(effort_wire_name(e))),
            None => {},
        }
        let ghost s1 = o.spec_members();
        assert(s1 =~= s0 + text_member(
            "effort"@,
            match self.effort {
                Some(e) => Some(effort_name(e)),
                None => None,
            },
        ));
        match self.summary {
            Some(s) => o.insert("summary", Json::string(summary_wire_name(s))),
            None => {},
        }
        assert(o.spec_members() =~= s1 + text_member(
            "summary"@,
            match self.summary {
                Some(s) => Some(summary_name(s)),
                None => None,
            },
        ));
        Some(o.build())
    }
}

/// The hosted web search tool: its type, then the context size, external
/// access and location that are set.
pub open spec fn web_search_tool_view(w: WebSearchView) -> JsonView {
    let loc = match w.user_location {
        Some(l) => location_value_view(l),
        None => None,
    };
    JsonView::Object(
        seq![("type"@, JsonView::Str("web_search"@))] + match w.search_context_size {
            Some(s) => seq![("search_context_size"@, JsonView::Str(context_size_name(s)))],
            None => Seq::empty(),
        } + match w.external_web_access {
            Some(b) => seq![("external_web_access"@, JsonView::Bool(b))],
            None => Seq::empty(),
        } + match loc {
            Some(v) => seq![("user_location"@, v)],
            None => Seq::empty(),
        },
    )
}

/// The web search tool of a request. Always present.
pub fn web_search_tool_value(web_search: &OpenResponsesWebSearchConfig) -> (r: Option<Json>)
    ensures
        r matches Some(j) && j@ == web_search_tool_view(web_search@),
{
    let mut o = ObjectBuilder::new();
    o.insert("type", Json::string("web_search"));
    let ghost s0 = o.spec_members();
    match web_search.search_context_size {
        Some(s) => o.insert("search_context_size", Json::string(context_size_wire_name(s))),
        None => {},
    }
    let ghost s1 = o.spec_members();
    match web_search.external_web_access {
        Some(b) => o.insert("external_web_access", Json::Bool(b)),
        None => {},
    }
    let ghost s2 = o.spec_members();
    let loc = match &web_search.user_location {
        Some(l) => l.to_value(),
        None => None,
    };
    match loc {
        Some(v) => o.insert("user_location", v),
        None => {},
    }
    assert(o.spec_members() =~= web_search_tool_view(web_search@)->Object_0);
    Some(o.build())
}

/// A function tool: its name, description and parameter schema, not strict.
pub open spec fn function_tool_view(name: Seq<char>, description: Seq<char>, parameters: JsonView) -> JsonView {
    JsonView::Object(
        seq![
            ("type"@, JsonView::Str("function"@)),
            ("name"@, JsonView::Str(name)),
            ("description"@, JsonView::Str(description)),
            ("parameters"@, parameters),
            ("strict"@, JsonView::Bool(false)),
        ],
    )
}

pub fn function_tool(name: &str, description: &str, parameters: Json) -> (r: Json)
    ensures
        r@ == function_tool_view(name@, description@, parameters@),
{
    let mut o = ObjectBuilder::new();
    o.insert("type", Json::string("function"));
    o.insert("name", Json::string(name));
    o.insert("description", Json::string(description));
    o.insert("parameters", parameters);
    o.insert("strict", Json::Bool(false));
    assert(o.spec_members() =~= function_tool_view(name@, description@, parameters@)->Object_0);
    o.build()
}

/// The names of the function tools the server offers, in order.
pub open spec fn builtin_tool_names() -> Seq<Seq<char>> {
    seq!["read"@, "write"@, "apply_patch"@, "ls"@, "grep"@, "artifact_fetch"@, "bash"@, "shell"@]
}

/// The descriptions of the function tools, in the same order.
pub open spec fn builtin_tool_descriptions() -> Seq<Seq<char>> {
    seq![
        "Read a file from the workspace (optionally with line ranges)."@,
        "Write a file in the workspace (atomic by default)."@,
        "Apply a patch to the workspace using the Codex apply_patch envelope."@,
        "List files under a path in the workspace (supports globs, recursion, and excludes)."@,
        "Search text in workspace files (supports regex and globs)."@,
        "Fetch a stored artifact by id (sha256). Tool outputs may reference artifacts when output is too large to inline."@,
        "Run a shell command (bash -c) with optional cwd and env (paths are workspace-relative)."@,
        "Alias of bash (bash -c)."@,
    ]
}

/// `{"type": kind}`.
pub open spec fn typed_view(kind: Seq<char>) -> JsonView {
    JsonView::Object(seq![("type"@, JsonView::Str(kind))])
}

/// An integer of at least `minimum`.
pub open spec fn integer_view(minimum: u64) -> JsonView {
    JsonView::Object(
        seq![("type"@, JsonView::Str("integer"@)), ("minimum"@, JsonView::Number(NumberView::PosInt(minimum)))],
    )
}

/// A list of strings.
pub open spec fn string_list_view() -> JsonView {
    JsonView::Object(seq![("type"@, JsonView::Str("array"@)), ("items"@, typed_view("string"@))])
}

/// An object of string values.
pub open spec fn string_map_view() -> JsonView {
    JsonView::Object(seq![("type"@, JsonView::Str("object"@)), ("additionalProperties"@, typed_view("string"@))])
}

pub open spec fn names_view(names: Seq<Seq<char>>) -> Seq<JsonView> {
    names.map_values(|n: Seq<char>| JsonView::Str(n))
}

/// `{"type": "object", "properties": .., "required": .., "additionalProperties": false}`,
/// without `required` when no property is required.
pub open spec fn object_schema_view(properties: Seq<(Seq<char>, JsonView)>, required: Seq<Seq<char>>) -> JsonView {
    let head = seq![("type"@, JsonView::Str("object"@)), ("properties"@, JsonView::Object(properties))];
    let with_required = if required.len() > 0 {
        head.push(("required"@, JsonView::Array(names_view(required))))
    } else {
        head
    };
    JsonView::Object(with_required.push(("additionalProperties"@, JsonView::Bool(false))))
}

/// The parameters of `read`.
pub open spec fn read_parameters() -> JsonView {
    object_schema_view(
        seq![
            ("path"@, typed_view("string"@)),
            ("start_line"@, integer_view(1)),
            ("end_line"@, integer_view(1)),
            ("max_bytes"@, integer_view(1)),
        ],
        seq!["path"@],
    )
}

/// The parameters of `write`.
pub open spec fn write_parameters() -> JsonView {
    object_schema_view(
        seq![
            ("path"@, typed_view("string"@)),
            ("content"@, typed_view("string"@)),
            ("append"@, typed_view("boolean"@)),
            ("create"@, typed_view("boolean"@)),
            ("atomic"@, typed_view("boolean"@)),
        ],
        seq!["path"@, "content"@],
    )
}

/// The parameters of `apply_patch`.
pub open spec fn apply_patch_parameters() -> JsonView {
    object_schema_view(seq![("patch"@, typed_view("string"@))], seq!["patch"@])
}

/// The parameters of `ls`.
pub open spec fn ls_parameters() -> JsonView {
    object_schema_view(
        seq![
            ("path"@, typed_view("string"@)),
            ("recursive"@, typed_view("boolean"@)),
            ("max_depth"@, integer_view(1)),
            ("include"@, string_list_view()),
            ("exclude"@, string_list_view()),
            ("include_hidden"@, typed_view("boolean"@)),
            ("follow_symlinks"@, typed_view("boolean"@)),
        ],
        Seq::empty(),
    )
}

/// The parameters of `grep`.
pub open spec fn grep_parameters() -> JsonView {
    object_schema_view(
        seq![
            ("pattern"@, typed_view("string"@)),
            ("path"@, typed_view("string"@)),
            ("regex"@, typed_view("boolean"@)),
            ("case_sensitive"@, typed_view("boolean"@)),
            ("include"@, string_list_view()),
            ("exclude"@, string_list_view()),
            ("max_results"@, integer_view(1)),
            ("max_bytes"@, integer_view(1)),
            ("max_depth"@, integer_view(1)),
            ("include_hidden"@, typed_view("boolean"@)),
            ("follow_symlinks"@, typed_view("boolean"@)),
        ],
        seq!["pattern"@],
    )
}

/// The parameters of `artifact_fetch`.
pub open spec fn artifact_fetch_parameters() -> JsonView {
    object_schema_view(
        seq![("id"@, typed_view("string"@)), ("offset_bytes"@, integer_view(0)), ("max_bytes"@, integer_view(1))],
        seq!["id"@],
    )
}

/// The parameters of `bash` and of its alias `shell`.
pub open spec fn shell_parameters() -> JsonView {
    object_schema_view(
        seq![
            ("command"@, typed_view("string"@)),
            ("cwd"@, typed_view("string"@)),
            ("env"@, string_map_view()),
            ("max_bytes"@, integer_view(1)),
        ],
        seq!["command"@],
    )
}

/// The parameter schemas of the function tools, in the same order.
pub open spec fn builtin_tool_parameters() -> Seq<JsonView> {
    seq![
        read_parameters(),
        write_parameters(),
        apply_patch_parameters(),
        ls_parameters(),
        grep_parameters(),
        artifact_fetch_parameters(),
        shell_parameters(),
        shell_parameters(),
    ]
}

/// `tool` is the `i`-th built-in function tool: its name, description and
/// parameter schema, not strict.
pub open spec fn is_builtin_tool(tool: JsonView, i: int) -> bool {
    tool == function_tool_view(builtin_tool_names()[i], builtin_tool_descriptions()[i], builtin_tool_parameters()[i])
}

fn typed(kind: &str) -> (r: Json)
    ensures
        r@ == typed_view(kind@),
{
    let mut o = ObjectBuilder::new();
    o.insert("type", Json::string(kind));
    assert(o.spec_members() =~= typed_view(kind@)->Object_0);
    o.build()
}

fn integer_from(minimum: u64) -> (r: Json)
    ensures
        r@ == integer_view(minimum),
{
    let mut o = ObjectBuilder::new();
    o.insert("type", Json::string("integer"));
    o.insert("minimum", Json::Number(JsonNumber::PosInt(minimum)));
    assert(o.spec_members() =~= integer_view(minimum)->Object_0);
    o.build()
}

fn string_list() -> (r: Json)
    ensures
        r@ == string_list_view(),
{
    let mut o = ObjectBuilder::new();
    o.insert("type", Json::string("array"));
    o.insert("items", typed("string"));
    assert(o.spec_members() =~= string_list_view()->Object_0);
    o.build()
}

fn string_map() -> (r: Json)
    ensures
        r@ == string_map_view(),
{
    let mut o = ObjectBuilder::new();
    o.insert("type", Json::string("object"));
    o.insert("additionalProperties", typed("string"));
    assert(o.spec_members() =~= string_map_view()->Object_0);
    o.build()
}

fn prop(name: &str, schema: Json) -> (r: JsonMember)
    ensures
        r.key@ == name@,
        r.value@ == schema@,
{
    JsonMember { key: crate::text::owned(name), value: schema }
}

/// The object schema of these properties, with these required.
fn object_schema(properties: Vec<JsonMember>, required: Vec<&str>) -> (r: Json)
    ensures
        r@ == object_schema_view(members_view(properties@), required@.map_values(|n: &str| n@)),
{
    let ghost req = required@.map_values(|n: &str| n@);
    let mut names: Vec<Json> = Vec::new();
    let mut i: usize = 0;
    while i < required.len()
        invariant
            i <= required@.len(),
            req == required@.map_values(|n: &str| n@),
            names@.len() == i,
            forall|k: int| 0 <= k < i ==> #[trigger] names@[k]@ == JsonView::Str(req[k]),
        decreases required@.len() - i,
    {
        names.push(Json::string(required[i]));
        i = i + 1;
    }
    proof {
        lemma_items_view(names@);
        assert(req.len() == names@.len());
        assert forall|k: int| 0 <= k < names@.len() implies #[trigger] items_view(names@)[k] == names_view(req)[k] by {
            assert(names@[k]@ == JsonView::Str(req[k]));
        }
        assert(items_view(names@) =~= names_view(req));
    }
    let mut o = ObjectBuilder::new();
    o.insert("type", Json::string("object"));
    let ghost pv = members_view(properties@);
    o.insert("properties", Json::Object(properties));
    if required.len() > 0 {
        o.insert("required", Json::Array(names));
    }
    o.insert("additionalProperties", Json::Bool(false));
    assert(o.spec_members() =~= object_schema_view(pv, req)->Object_0);
    o.build()
}

/// The function tools the server offers: each named and described as in
/// `builtin_tool_names` and `builtin_tool_descriptions`, with the parameter
/// schema of `builtin_tool_parameters`, and not strict.
pub fn builtin_function_tools() -> (r: Vec<Json>)
    ensures
        r@.len() == 8,
        forall|i: int| 0 <= i < 8 ==> is_builtin_tool(#[trigger] r@[i]@, i),
{
    let mut tools: Vec<Json> = Vec::new();

    let mut props: Vec<JsonMember> = Vec::new();
    props.push(prop("path", typed("string")));
    props.push(prop("start_line", integer_from(1)));
    props.push(prop("end_line", integer_from(1)));
    props.push(prop("max_bytes", integer_from(1)));
    let mut required: Vec<&str> = Vec::new();
    required.push("path");
    proof {
        lemma_members_view(props@);
        assert(members_view(props@) =~= seq![("path"@, typed_view("string"@)), ("start_line"@, integer_view(1)), ("end_line"@, integer_view(1)), ("max_bytes"@, integer_view(1))]);
        assert(required@.map_values(|n: &str| n@) =~= seq!["path"@]);
    }
    let tool = function_tool("read", "Read a file from the workspace (optionally with line ranges).", object_schema(props, required));
    assert(is_builtin_tool(tool@, 0));
    tools.push(tool);

    let mut props: Vec<JsonMember> = Vec::new();
    props.push(prop("path", typed("string")));
    props.push(prop("content", typed("string")));
    props.push(prop("append", typed("boolean")));
    props.push(prop("create", typed("boolean")));
    props.push(prop("atomic", typed("boolean")));
    let mut required: Vec<&str> = Vec::new();
    required.push("path");
    required.push("content");
    proof {
        lemma_members_view(props@);
        assert(members_view(props@) =~= seq![("path"@, typed_view("string"@)), ("content"@, typed_view("string"@)), ("append"@, typed_view("boolean"@)), ("create"@, typed_view("boolean"@)), ("atomic"@, typed_view("boolean"@))]);
        assert(required@.map_values(|n: &str| n@) =~= seq!["path"@, "content"@]);
    }
    let tool = function_tool("write", "Write a file in the workspace (atomic by default).", object_schema(props, required));
    assert(is_builtin_tool(tool@, 1));
    tools.push(tool);

    let mut props: Vec<JsonMember> = Vec::new();
    props.push(prop("patch", typed("string")));
    let mut required: Vec<&str> = Vec::new();
    required.push("patch");
    proof {
        lemma_members_view(props@);
        assert(members_view(props@) =~= seq![("patch"@, typed_view("string"@))]);
        assert(required@.map_values(|n: &str| n@) =~= seq!["patch"@]);
    }
    let tool = function_tool("apply_patch", "Apply a patch to the workspace using the Codex apply_patch envelope.", object_schema(props, required));
    assert(is_builtin_tool(tool@, 2));
    tools.push(tool);

    let mut props: Vec<JsonMember> = Vec::new();
    props.push(prop("path", typed("string")));
    props.push(prop("recursive", typed("boolean")));
    props.push(prop("max_depth", integer_from(1)));
    props.push(prop("include", string_list()));
    props.push(prop("exclude", string_list()));
    props.push(prop("include_hidden", typed("boolean")));
    props.push(prop("follow_symlinks", typed("boolean")));
    let mut required: Vec<&str> = Vec::new();
    proof {
        lemma_members_view(props@);
        assert(members_view(props@) =~= seq![("path"@, typed_view("string"@)), ("recursive"@, typed_view("boolean"@)), ("max_depth"@, integer_view(1)), ("include"@, string_list_view()), ("exclude"@, string_list_view()), ("include_hidden"@, typed_view("boolean"@)), ("follow_symlinks"@, typed_view("boolean"@))]);
        assert(required@.map_values(|n: &str| n@) =~= Seq::<Seq<char>>::empty());
    }
    let tool = function_tool("ls", "List files under a path in the workspace (supports globs, recursion, and excludes).", object_schema(props, required));
    assert(is_builtin_tool(tool@, 3));
    tools.push(tool);

    let mut props: Vec<JsonMember> = Vec::new();
    props.push(prop("pattern", typed("string")));
    props.push(prop("path", typed("string")));
    props.push(prop("regex", typed("boolean")));
    props.push(prop("case_sensitive", typed("boolean")));
    props.push(prop("include", string_list()));
    props.push(prop("exclude", string_list()));
    props.push(prop("max_results", integer_from(1)));
    props.push(prop("max_bytes", integer_from(1)));
    props.push(prop("max_depth", integer_from(1)));
    props.push(prop("include_hidden", typed("boolean")));
    props.push(prop("follow_symlinks", typed("boolean")));
    let mut required: Vec<&str> = Vec::new();
    required.push("pattern");
    proof {
        lemma_members_view(props@);
        assert(members_view(props@) =~= seq![("pattern"@, typed_view("string"@)), ("path"@, typed_view("string"@)), ("regex"@, typed_view("boolean"@)), ("case_sensitive"@, typed_view("boolean"@)), ("include"@, string_list_view()), ("exclude"@, string_list_view()), ("max_results"@, integer_view(1)), ("max_bytes"@, integer_view(1)), ("max_depth"@, integer_view(1)), ("include_hidden"@, typed_view("boolean"@)), ("follow_symlinks"@, typed_view("boolean"@))]);
        assert(required@.map_values(|n: &str| n@) =~= seq!["pattern"@]);
    }
    let tool = function_tool("grep", "Search text in workspace files (supports regex and globs).", object_schema(props, required));
    assert(is_builtin_tool(tool@, 4));
    tools.push(tool);

    let mut props: Vec<JsonMember> = Vec::new();
    props.push(prop("id", typed("string")));
    props.push(prop("offset_bytes", integer_from(0)));
    props.push(prop("max_bytes", integer_from(1)));
    let mut required: Vec<&str> = Vec::new();
    required.push("id");
    proof {
        lemma_members_view(props@);
        assert(members_view(props@) =~= seq![("id"@, typed_view("string"@)), ("offset_bytes"@, integer_view(0)), ("max_bytes"@, integer_view(1))]);
        assert(required@.map_values(|n: &str| n@) =~= seq!["id"@]);
    }
    let tool = function_tool("artifact_fetch", "Fetch a stored artifact by id (sha256). Tool outputs may reference artifacts when output is too large to inline.", object_schema(props, required));
    assert(is_builtin_tool(tool@, 5));
    tools.push(tool);

    let mut props: Vec<JsonMember> = Vec::new();
    props.push(prop("command", typed("string")));
    props.push(prop("cwd", typed("string")));
    props.push(prop("env", string_map()));
    props.push(prop("max_bytes", integer_from(1)));
    let mut required: Vec<&str> = Vec::new();
    required.push("command");
    proof {
        lemma_members_view(props@);
        assert(members_view(props@) =~= seq![("command"@, typed_view("string"@)), ("cwd"@, typed_view("string"@)), ("env"@, string_map_view()), ("max_bytes"@, integer_view(1))]);
        assert(required@.map_values(|n: &str| n@) =~= seq!["command"@]);
    }
    let tool = function_tool("bash", "Run a shell command (bash -c) with optional cwd and env (paths are workspace-relative).", object_schema(props, required));
    assert(is_builtin_tool(tool@, 6));
    tools.push(tool);

    let mut props: Vec<JsonMember> = Vec::new();
    props.push(prop("command", typed("string")));
    props.push(prop("cwd", typed("string")));
    props.push(prop("env", string_map()));
    props.push(prop("max_bytes", integer_from(1)));
    let mut required: Vec<&str> = Vec::new();
    required.push("command");
    proof {
        lemma_members_view(props@);
        assert(members_view(props@) =~= seq![("command"@, typed_view("string"@)), ("cwd"@, typed_view("string"@)), ("env"@, string_map_view()), ("max_bytes"@, integer_view(1))]);
        assert(required@.map_values(|n: &str| n@) =~= seq!["command"@]);
    }
    let tool = function_tool("shell", "Alias of bash (bash -c).", object_schema(props, required));
    assert(is_builtin_tool(tool@, 7));
    tools.push(tool);

    proof {
        assert forall|i: int| 0 <= i < 8 implies is_builtin_tool(#[trigger] tools@[i]@, i) by {
            assert(i == 0 || i == 1 || i == 2 || i == 3 || i == 4 || i == 5 || i == 6 || i == 7);
        }
    }
    tools
}

} // verus!
