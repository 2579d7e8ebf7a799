use vstd::prelude::*;

use crate::models::opt_str_chars;
use crate::store::StoreError;
use crate::text::{str_equal, trim, trim_seq};

verus! {

/// The version of the Model Context Protocol that the server speaks.
pub const PROTOCOL_VERSION: &'static str = "2024-11-05";

/// The name under which the server introduces itself.
pub const SERVER_NAME: &'static str = "expenses";

/// The JSON-RPC error code of a method the server does not have.
pub const METHOD_NOT_FOUND: i64 = -32601;

/// The JSON type of every tool's input.
pub const INPUT_SCHEMA_TYPE: &'static str = "object";

/// One input of a tool.
#[derive(Debug, Clone)]
pub struct ToolProperty {
    pub name: &'static str,
    pub kind: &'static str,
    pub description: Option<&'static str>,
}

/// A tool the server offers: its name, what it does, and its inputs.
#[derive(Debug, Clone)]
pub struct ToolSpec {
    pub name: &'static str,
    pub description: &'static str,
    pub schema_type: &'static str,
    pub required: Vec<&'static str>,
    pub properties: Vec<ToolProperty>,
}

/// An input of a tool, as plain values.
pub struct PropertyModel {
    pub name: Seq<char>,
    pub kind: Seq<char>,
    pub description: Option<Seq<char>>,
}

/// A tool, as plain values.
pub struct ToolModel {
    pub name: Seq<char>,
    pub description: Seq<char>,
    pub schema_type: Seq<char>,
    pub required: Seq<Seq<char>>,
    pub properties: Seq<PropertyModel>,
}

impl View for ToolProperty {
    type V = PropertyModel;

    open spec fn view(&self) -> PropertyModel {
        PropertyModel { name: self.name@, kind: self.kind@, description: opt_str_chars(self.description) }
    }
}

impl View for ToolSpec {
    type V = ToolModel;

    open spec fn view(&self) -> ToolModel {
        ToolModel {
            name: self.name@,
            description: self.description@,
            schema_type: self.schema_type@,
            required: names_of(self.required@),
            properties: self.properties@.map_values(|p: ToolProperty| p@),
        }
    }
}

pub const LIST_DESCRIPTION: &'static str = "List recorded expenses, newest first. Use this before claiming a record exists or answering a date/category spend question. Filters are optional and results are bounded. This is read-only and never changes the ledger.";

pub const SUMMARY_DESCRIPTION: &'static str = "Summarize recorded expenses for a date/category filter. Returns record count, totals grouped by currency, and category totals. It never converts currencies or gives financial advice; when currencies differ, do not add their totals.";

pub const ADD_DESCRIPTION: &'static str = "Record one expense after the user has supplied or confirmed the date, merchant, positive amount in integer minor units, currency, and category. Preserve the user's wording, never invent a missing value, and report the returned record after the write.";

pub const UPDATE_DESCRIPTION: &'static str = "Correct fields on one recorded expense by id. Send only the fields that changed, then use the returned record as the source of truth. Do not silently reinterpret a currency or date.";

pub const DELETE_DESCRIPTION: &'static str = "Permanently delete one recorded expense by id. Only call this after the user explicitly asks to remove that record; report the sidecar result and never claim deletion if it failed.";

pub const FROM_DESCRIPTION: &'static str = "Inclusive YYYY-MM-DD start date.";

pub const TO_DESCRIPTION: &'static str = "Inclusive YYYY-MM-DD end date.";

pub const CURRENCY_DESCRIPTION: &'static str = "Three-letter currency code.";

pub const LIMIT_DESCRIPTION: &'static str = "Maximum rows, up to 500.";

pub const SPENT_ON_DESCRIPTION: &'static str = "Exact YYYY-MM-DD date.";

pub const AMOUNT_DESCRIPTION: &'static str = "Positive integer minor units; do not send a floating-point amount.";

pub const PATCH_DESCRIPTION: &'static str = "Partial expense fields using the add shape.";

/// The names of the tools, in the order in which they are listed.
pub open spec fn tool_names() -> Seq<Seq<char>> {
    seq!["list"@, "summary"@, "add"@, "update"@, "delete"@]
}

pub open spec fn names_of(v: Seq<&'static str>) -> Seq<Seq<char>> {
    v.map_values(|x: &'static str| x@)
}

/// An input with a name, a JSON type and perhaps a description.
pub open spec fn input(name: Seq<char>, kind: Seq<char>, description: Option<Seq<char>>) -> PropertyModel {
    PropertyModel { name, kind, description }
}

/// The date, category and currency filters, described or not.
pub open spec fn filter_inputs(described: bool) -> Seq<PropertyModel> {
    if described {
        seq![
            input("from"@, "string"@, Some(FROM_DESCRIPTION@)),
            input("to"@, "string"@, Some(TO_DESCRIPTION@)),
            input("category"@, "string"@, None),
            input("currency"@, "string"@, Some(CURRENCY_DESCRIPTION@)),
        ]
    } else {
        seq![
            input("from"@, "string"@, None),
            input("to"@, "string"@, None),
            input("category"@, "string"@, None),
            input("currency"@, "string"@, None),
        ]
    }
}

/// The tools of the server, in order, each as the listing gives it.
pub open spec fn tool_table() -> Seq<ToolModel> {
    seq![
        ToolModel {
            name: "list"@,
            description: LIST_DESCRIPTION@,
            schema_type: INPUT_SCHEMA_TYPE@,
            required: seq![],
            properties: filter_inputs(true).push(input("limit"@, "integer"@, Some(LIMIT_DESCRIPTION@))),
        },
        ToolModel {
            name: "summary"@,
            description: SUMMARY_DESCRIPTION@,
            schema_type: INPUT_SCHEMA_TYPE@,
            required: seq![],
            properties: filter_inputs(false),
        },
        ToolModel {
            name: "add"@,
            description: ADD_DESCRIPTION@,
            schema_type: INPUT_SCHEMA_TYPE@,
            required: seq!["spentOn"@, "merchant"@, "amountMinor"@, "currency"@, "category"@],
            properties: seq![
                input("spentOn"@, "string"@, Some(SPENT_ON_DESCRIPTION@)),
                input("merchant"@, "string"@, None),
                input("amountMinor"@, "integer"@, Some(AMOUNT_DESCRIPTION@)),
                input("currency"@, "string"@, None),
                input("category"@, "string"@, None),
                input("account"@, "string"@, None),
                input("note"@, "string"@, None),
            ],
        },
        ToolModel {
            name: "update"@,
            description: UPDATE_DESCRIPTION@,
            schema_type: INPUT_SCHEMA_TYPE@,
            required: seq!["id"@, "patch"@],
            properties: seq![
                input("id"@, "string"@, None),
                input("patch"@, "object"@, Some(PATCH_DESCRIPTION@)),
            ],
        },
        ToolModel {
            name: "delete"@,
            description: DELETE_DESCRIPTION@,
            schema_type: INPUT_SCHEMA_TYPE@,
            required: seq!["id"@],
            properties: seq![input("id"@, "string"@, None)],
        },
    ]
}

fn property(name: &'static str, kind: &'static str, description: Option<&'static str>) -> (r:
    ToolProperty)
    ensures
        r@ == input(name@, kind@, opt_str_chars(description)),
{
    ToolProperty { name, kind, description }
}

fn filter_properties(described: bool) -> (r: Vec<ToolProperty>)
    ensures
        r@.map_values(|p: ToolProperty| p@) == filter_inputs(described),
{
    let mut v: Vec<ToolProperty> = Vec::new();
    if described {
        v.push(property("from", "string", Some(FROM_DESCRIPTION)));
        v.push(property("to", "string", Some(TO_DESCRIPTION)));
        v.push(property("category", "string", None));
        v.push(property("currency", "string", Some(CURRENCY_DESCRIPTION)));
    } else {
        v.push(property("from", "string", None));
        v.push(property("to", "string", None));
        v.push(property("category", "string", None));
        v.push(property("currency", "string", None));
    }
    assert(v@.map_values(|p: ToolProperty| p@) =~= filter_inputs(described));
    v
}

/// The tools of the server: `list`, `summary`, `add`, `update` and `delete`, each
/// with its description, an object as input, its required inputs and its inputs with
/// their JSON types and descriptions. Each description is longer than forty
/// characters and no name holds a dot.
pub fn tools() -> (r: Vec<ToolSpec>)
    ensures
        r@.map_values(|t: ToolSpec| t@) == tool_table(),
        r@.map_values(|t: ToolSpec| t.name@) == tool_names(),
        forall|i: int| 0 <= i < r@.len() ==> (#[trigger] r@[i]).description@.len() > 40,
        forall|i: int, k: int|
            0 <= i < r@.len() && 0 <= k < r@[i].name@.len() ==> #[trigger] r@[i].name@[k] != '.',
{
    let mut list_props = filter_properties(true);
    let ghost before = list_props@;
    list_props.push(property("limit", "integer", Some(LIMIT_DESCRIPTION)));
    assert(list_props@.map_values(|p: ToolProperty| p@) =~= before.map_values(
        |p: ToolProperty| p@,
    ).push(input("limit"@, "integer"@, Some(LIMIT_DESCRIPTION@))));
    let list = ToolSpec {
        name: "list",
        description: LIST_DESCRIPTION,
        schema_type: INPUT_SCHEMA_TYPE,
        required: Vec::new(),
        properties: list_props,
    };
    let summary = ToolSpec {
        name: "summary",
        description: SUMMARY_DESCRIPTION,
        schema_type: INPUT_SCHEMA_TYPE,
        required: Vec::new(),
        properties: filter_properties(false),
    };
    let mut add_required: Vec<&'static str> = Vec::new();
    add_required.push("spentOn");
    add_required.push("merchant");
    add_required.push("amountMinor");
    add_required.push("currency");
    add_required.push("category");
    let mut add_props: Vec<ToolProperty> = Vec::new();
    add_props.push(property("spentOn", "string", Some(SPENT_ON_DESCRIPTION)));
    add_props.push(property("merchant", "string", None));
    add_props.push(property("amountMinor", "integer", Some(AMOUNT_DESCRIPTION)));
    add_props.push(property("currency", "string", None));
    add_props.push(property("category", "string", None));
    add_props.push(property("account", "string", None));
    add_props.push(property("note", "string", None));
    let add = ToolSpec {
        name: "add",
        description: ADD_DESCRIPTION,
        schema_type: INPUT_SCHEMA_TYPE,
        required: add_required,
        properties: add_props,
    };
    let mut update_required: Vec<&'static str> = Vec::new();
    update_required.push("id");
    update_required.push("patch");
    let mut update_props: Vec<ToolProperty> = Vec::new();
    update_props.push(property("id", "string", None));
    update_props.push(property("patch", "object", Some(PATCH_DESCRIPTION)));
    let update = ToolSpec {
        name: "update",
        description: UPDATE_DESCRIPTION,
        schema_type: INPUT_SCHEMA_TYPE,
        required: update_required,
        properties: update_props,
    };
    let mut delete_required: Vec<&'static str> = Vec::new();
    delete_required.push("id");
    let mut delete_props: Vec<ToolProperty> = Vec::new();
    delete_props.push(property("id", "string", None));
    let delete = ToolSpec {
        name: "delete",
        description: DELETE_DESCRIPTION,
        schema_type: INPUT_SCHEMA_TYPE,
        required: delete_required,
        properties: delete_props,
    };
    let mut v: Vec<ToolSpec> = Vec::new();
    v.push(list);
    v.push(summary);
    v.push(add);
    v.push(update);
    v.push(delete);
    proof {
        reveal_strlit("list");
        reveal_strlit("summary");
        reveal_strlit("add");
        reveal_strlit("update");
        reveal_strlit("delete");
        reveal_strlit("List recorded expenses, newest first. Use this before claiming a record exists or answering a date/category spend question. Filters are optional and results are bounded. This is read-only and never changes the ledger.");
        reveal_strlit("Summarize recorded expenses for a date/category filter. Returns record count, totals grouped by currency, and category totals. It never converts currencies or gives financial advice; when currencies differ, do not add their totals.");
        reveal_strlit("Record one expense after the user has supplied or confirmed the date, merchant, positive amount in integer minor units, currency, and category. Preserve the user's wording, never invent a missing value, and report the returned record after the write.");
        reveal_strlit("Correct fields on one recorded expense by id. Send only the fields that changed, then use the returned record as the source of truth. Do not silently reinterpret a currency or date.");
        reveal_strlit("Permanently delete one recorded expense by id. Only call this after the user explicitly asks to remove that record; report the sidecar result and never claim deletion if it failed.");
        assert(v@.map_values(|t: ToolSpec| t.name@) =~= tool_names());
        assert(v@[0]@.required =~= seq![]);
        assert(v@[1]@.required =~= seq![]);
        assert(v@[2]@.required =~= seq!["spentOn"@, "merchant"@, "amountMinor"@, "currency"@, "category"@]);
        assert(v@[3]@.required =~= seq!["id"@, "patch"@]);
        assert(v@[4]@.required =~= seq!["id"@]);
        assert(v@[2]@.properties =~= tool_table()[2].properties);
        assert(v@[3]@.properties =~= tool_table()[3].properties);
        assert(v@[4]@.properties =~= tool_table()[4].properties);
        assert(v@.map_values(|t: ToolSpec| t@) =~= tool_table());
    }
    v
}


/// The JSON-RPC methods of the server.
#[derive(Debug, Clone, Copy, PartialEq, Eq)]
pub enum RpcMethod {
    Initialize,
    Ping,
    ToolsList,
    ToolsCall,
    Unknown,
}

pub open spec fn method_kind(m: Seq<char>) -> RpcMethod {
    if m == "initialize"@ {
        RpcMethod::Initialize
    } else if m == "ping"@ {
        RpcMethod::Ping
    } else if m == "tools/list"@ {
        RpcMethod::ToolsList
    } else if m == "tools/call"@ {
        RpcMethod::ToolsCall
    } else {
        RpcMethod::Unknown
    }
}

/// Which method a request names.
pub fn classify_method(method: &str) -> (r: RpcMethod)
    ensures
        r == method_kind(method@),
{
    if str_equal(method, "initialize") {
        RpcMethod::Initialize
    } else if str_equal(method, "ping") {
        RpcMethod::Ping
    } else if str_equal(method, "tools/list") {
        RpcMethod::ToolsList
    } else if str_equal(method, "tools/call") {
        RpcMethod::ToolsCall
    } else {
        RpcMethod::Unknown
    }
}

/// The tools of the server.
#[derive(Debug, Clone, Copy, PartialEq, Eq)]
pub enum ToolName {
    List,
    Summary,
    Add,
    Update,
    Delete,
}

pub open spec fn tool_kind(n: Seq<char>) -> Option<ToolName> {
    if n == "list"@ {
        Some(ToolName::List)
    } else if n == "summary"@ {
        Some(ToolName::Summary)
    } else if n == "add"@ {
        Some(ToolName::Add)
    } else if n == "update"@ {
        Some(ToolName::Update)
    } else if n == "delete"@ {
        Some(ToolName::Delete)
    } else {
        None
    }
}

/// Which tool a call names, if it names one of them.
pub fn classify_tool(name: &str) -> (r: Option<ToolName>)
    ensures
        r == tool_kind(name@),
{
    if str_equal(name, "list") {
        Some(ToolName::List)
    } else if str_equal(name, "summary") {
        Some(ToolName::Summary)
    } else if str_equal(name, "add") {
        Some(ToolName::Add)
    } else if str_equal(name, "update") {
        Some(ToolName::Update)
    } else if str_equal(name, "delete") {
        Some(ToolName::Delete)
    } else {
        None
    }
}

/// `prefix` followed by `name` in single quotes.
pub fn quoted(prefix: &str, name: &str) -> (r: String)
    ensures
        r@ == prefix@ + "'"@ + name@ + "'"@,
{
    String::from_str(prefix).concat("'").concat(name).concat("'")
}

/// The error message of a request for a method the server does not have.
pub fn unknown_method_message(method: &str) -> (r: String)
    ensures
        r@ == "unknown method "@ + "'"@ + method@ + "'"@,
{
    quoted("unknown method ", method)
}

/// The text of a line of input that holds a request: the line trimmed, or `None` for
/// a blank line, which is skipped.
pub fn frame_text(line: &str) -> (r: Option<&str>)
    ensures
        r is None <==> trim_seq(line@).len() == 0,
        r matches Some(t) ==> t@ == trim_seq(line@),
{
    let t = trim(line);
    if t.unicode_len() == 0 {
        None
    } else {
        Some(t)
    }
}

/// Why a tool call failed.
#[derive(Debug)]
pub enum McpError {
    IdRequired,
    PatchRequired,
    InvalidAddInput,
    InvalidUpdateInput,
    InvalidFilters,
    UnknownTool(String),
    Store(StoreError),
}

impl McpError {
    /// The message of the failure, as the tool result reports it.
    pub fn message(&self) -> (r: String)
        ensures
            self is IdRequired ==> r@ == "id is required"@,
            self is PatchRequired ==> r@ == "patch is required"@,
            self is InvalidAddInput ==> r@ == "invalid add input"@,
            self is InvalidUpdateInput ==> r@ == "invalid update input"@,
            self is InvalidFilters ==> r@ == "invalid expense filters"@,
            self matches McpError::UnknownTool(n) ==> r@ == "unknown tool "@ + "'"@ + n@ + "'"@,
            self matches McpError::Store(e) ==> (e.known_message() matches Some(m) ==> r@ == m),
    {
        match self {
            McpError::IdRequired => String::from_str("id is required"),
            McpError::PatchRequired => String::from_str("patch is required"),
            McpError::InvalidAddInput => String::from_str("invalid add input"),
            McpError::InvalidUpdateInput => String::from_str("invalid update input"),
            McpError::InvalidFilters => String::from_str("invalid expense filters"),
            McpError::UnknownTool(n) => quoted("unknown tool ", n.as_str()),
            McpError::Store(e) => e.message(),
        }
    }
}

/// The id argument of `update` and `delete`: present and not blank, else the call
/// fails with `IdRequired`. The id is used as given.
pub fn required_id(id: Option<&str>) -> (r: Result<&str, McpError>)
    ensures
        r is Ok <==> (id matches Some(v) && trim_seq(v@).len() > 0),
        r matches Ok(v) ==> opt_str_chars(id) == Some(v@),
        r matches Err(e) ==> e is IdRequired,
{
    match id {
        Some(v) => {
            if trim(v).unicode_len() > 0 {
                Ok(v)
            } else {
                Err(McpError::IdRequired)
            }
        },
        None => Err(McpError::IdRequired),
    }
}

/// Which tool a call names, or `UnknownTool` with the name.
pub fn tool_for(name: &str) -> (r: Result<ToolName, McpError>)
    ensures
        tool_kind(name@) matches Some(t) ==> r == Ok::<ToolName, McpError>(t),
        tool_kind(name@) is None ==> (r matches Err(McpError::UnknownTool(n)) && n@ == name@),
{
    match classify_tool(name) {
        Some(t) => Ok(t),
        None => Err(McpError::UnknownTool(name.to_owned())),
    }
}

} // verus!
