//! The MCP server: which tools it lists, and what it makes of a call.

use vstd::prelude::*;

use crate::auth::AllegroAuth;
use crate::config::{api_base, api_base_url};
use crate::dispatcher::{
    follows, plan_request, request_of, tells_status, Attempts, DispatchAction, Outcome, RequestPlan,
};
use crate::json::{clone_members, members_view, object_view, Json, JsonView};
use crate::resilience::{report_names_the_status, DispatchError, Resilience};
use crate::text::{contains_text, decimal, opt_view, str_eq, utf8_len};
use crate::time::Duration;
use crate::tool_registry::builder::{
    ids, is_tool, is_tool_list, operations, tool_ids_are_unique,
};
use crate::tool_registry::{
    first_named, named_tool_is_found, tool_views, ToolDef, ToolRegistry, ToolView,
};

verus! {

broadcast use vstd::string::group_string_axioms;

/// The error code for a tool that does not exist.
pub const METHOD_NOT_FOUND: i32 = -32601;

/// The name that the server goes by.
pub const SERVER_NAME: &'static str = "allegro-mcp";

/// The version of the server.
pub const SERVER_VERSION: &'static str = "0.1.0";

/// What the server tells its clients about itself.
pub const INSTRUCTIONS: &'static str =
    "Allegro REST API MCP server. Tools are generated from the official Allegro OpenAPI schema. Use sandbox=true for the sandbox environment.";

/// The name and version of the server.
#[derive(Debug)]
pub struct Implementation {
    pub name: String,
    pub version: String,
}

/// What the server can do.
#[derive(Debug)]
pub struct Capabilities {
    pub tools: bool,
}

/// What the server says about itself.
#[derive(Debug)]
pub struct ServerInfo {
    pub server_info: Implementation,
    pub capabilities: Capabilities,
    pub instructions: Option<String>,
}

/// A hint on what a tool does.
#[derive(Debug, Clone, Copy, PartialEq, Eq, Structural)]
pub struct ToolAnnotations {
    /// Whether the tool changes nothing.
    pub read_only_hint: Option<bool>,
}

/// A tool as it is listed.
#[derive(Debug)]
pub struct ToolListing {
    pub name: String,
    pub description: Option<String>,
    /// The members of the JSON schema of the arguments.
    pub input_schema: Vec<(String, Json)>,
    pub annotations: Option<ToolAnnotations>,
}

/// What a listed tool is.
pub struct ListingView {
    pub name: Seq<char>,
    pub description: Option<Seq<char>>,
    pub input_schema: Seq<(Seq<char>, JsonView)>,
    pub annotations: Option<ToolAnnotations>,
}

impl View for ToolListing {
    type V = ListingView;

    open spec fn view(&self) -> ListingView {
        ListingView {
            name: self.name@,
            description: opt_view(self.description),
            input_schema: members_view(self.input_schema@),
            annotations: self.annotations,
        }
    }
}

/// What listed tools are.
pub open spec fn listing_views(tools: Seq<ToolListing>) -> Seq<ListingView> {
    tools.map_values(|t: ToolListing| t@)
}

/// How a tool is listed: read-only when its method is `get` or `head`. A schema
/// that is no object is listed as an empty one.
pub open spec fn listing_of(tool: ToolView) -> ListingView {
    ListingView {
        name: tool.name,
        description: Some(tool.description),
        input_schema: match tool.input_schema {
            JsonView::Object(ms) => ms,
            _ => Seq::empty(),
        },
        annotations: Some(
            ToolAnnotations { read_only_hint: Some(tool.method == "get"@ || tool.method == "head"@) },
        ),
    }
}

/// Lists a tool.
pub fn tool_def_to_rmcp(def: &ToolDef) -> (r: ToolListing)
    ensures
        r@ == listing_of(def@),
{
    broadcast use object_view;

    let input_schema: Vec<(String, Json)> = match &def.input_schema {
        Json::Object(ms) => {
            assert(Json::Object(*ms)@ == def.input_schema@);
            clone_members(ms)
        },
        _ => Vec::new(),
    };
    assert(members_view(input_schema@) =~= listing_of(def@).input_schema);
    let read_only: bool = str_eq(def.method.as_str(), "get") || str_eq(
        def.method.as_str(),
        "head",
    );
    ToolListing {
        name: def.name.clone(),
        description: Some(def.description.clone()),
        input_schema,
        annotations: Some(ToolAnnotations { read_only_hint: Some(read_only) }),
    }
}

/// The answer to a call that the protocol itself refuses.
#[derive(Debug)]
pub struct RpcError {
    pub code: i32,
    pub message: String,
}

/// The answer to a call that was made: its text, and whether it went wrong.
#[derive(Debug)]
pub struct CallResult {
    pub text: String,
    pub is_error: bool,
}

/// Whether `r` is the answer to a call that came to `outcome`.
pub open spec fn is_call_result(outcome: Result<String, DispatchError>, r: CallResult) -> bool {
    match outcome {
        Ok(body) => !r.is_error && r.text@ == body@,
        Err(e) => r.is_error && r.text@ == e.report_text(),
    }
}

/// Whether `r` is what a call of the tool `name` begins with.
pub open spec fn is_call_plan(
    tools: Seq<ToolView>,
    base: Seq<char>,
    name: Seq<char>,
    args: Seq<(Seq<char>, JsonView)>,
    r: Result<Result<RequestPlan, String>, RpcError>,
) -> bool {
    match first_named(tools, name, 0) {
        None => r matches Err(e) && e.code == METHOD_NOT_FOUND && e.message@ == "unknown tool: "@
            + name,
        Some(i) => r matches Ok(planned) && match request_of(base, tools[i], args) {
            Some(q) => planned matches Ok(plan) && plan@ == q,
            None => planned matches Err(e) && e@ == "unsupported HTTP method: "@ + tools[i].method,
        },
    }
}

/// The tools, the token manager and where calls go.
pub struct AllegroServer {
    registry: ToolRegistry,
    auth: AllegroAuth,
    sandbox: bool,
    api_base_url: Option<String>,
    resilience: Resilience,
}

impl AllegroServer {
    /// The tools.
    pub closed spec fn tools(self) -> Seq<ToolView> {
        self.registry@
    }

    /// The token manager.
    pub closed spec fn token_manager(self) -> AllegroAuth {
        self.auth
    }

    /// Whether calls go to the sandbox.
    pub closed spec fn is_sandbox(self) -> bool {
        self.sandbox
    }

    /// The base URL that was set in place of that of the environment.
    pub closed spec fn base_override(self) -> Option<Seq<char>> {
        opt_view(self.api_base_url)
    }

    /// The retries and the rate budget.
    pub closed spec fn guard(self) -> Resilience {
        self.resilience
    }

    /// The base URL of the API.
    pub open spec fn base(self) -> Seq<char> {
        match self.base_override() {
            Some(b) => b,
            None => api_base(self.is_sandbox()),
        }
    }

    /// A server for the given tools.
    pub fn new(registry: ToolRegistry, auth: AllegroAuth, sandbox: bool) -> (r: AllegroServer)
        ensures
            r.tools() == registry@,
            r.token_manager() == auth,
            r.is_sandbox() == sandbox,
            r.base_override() is None,
            r.guard().wf(),
            r.guard().budget is None,
            r.guard().backoff.is_production(),
    {
        AllegroServer {
            registry,
            auth,
            sandbox,
            api_base_url: None,
            resilience: Resilience::unguarded(),
        }
    }

    /// The server with another base URL of the API.
    pub fn with_api_base_url(self, api_base_url: String) -> (r: AllegroServer)
        ensures
            r.tools() == self.tools(),
            r.token_manager() == self.token_manager(),
            r.is_sandbox() == self.is_sandbox(),
            r.base_override() == Some(api_base_url@),
            r.guard() == self.guard(),
    {
        AllegroServer { api_base_url: Some(api_base_url), ..self }
    }

    /// The server with other retries and another rate budget.
    pub fn with_resilience(self, resilience: Resilience) -> (r: AllegroServer)
        ensures
            r.tools() == self.tools(),
            r.token_manager() == self.token_manager(),
            r.is_sandbox() == self.is_sandbox(),
            r.base_override() == self.base_override(),
            r.guard() == resilience,
    {
        AllegroServer { resilience, ..self }
    }

    /// The token manager.
    pub fn auth(&mut self) -> (r: &mut AllegroAuth)
        ensures
            *r == old(self).token_manager(),
            final(self).token_manager() == *final(r),
            final(self).tools() == old(self).tools(),
            final(self).is_sandbox() == old(self).is_sandbox(),
            final(self).base_override() == old(self).base_override(),
            final(self).guard() == old(self).guard(),
    {
        &mut self.auth
    }

    /// The retries and the rate budget.
    pub fn resilience(&mut self) -> (r: &mut Resilience)
        ensures
            *r == old(self).guard(),
            final(self).guard() == *final(r),
            final(self).tools() == old(self).tools(),
            final(self).is_sandbox() == old(self).is_sandbox(),
            final(self).base_override() == old(self).base_override(),
            final(self).token_manager() == old(self).token_manager(),
    {
        &mut self.resilience
    }

    /// What the server says about itself.
    pub fn get_info(&self) -> (r: ServerInfo)
        ensures
            r.server_info.name@ == SERVER_NAME@,
            r.server_info.version@ == SERVER_VERSION@,
            r.capabilities.tools,
            opt_view(r.instructions) == Some(INSTRUCTIONS@),
    {
        ServerInfo {
            server_info: Implementation {
                name: SERVER_NAME.to_owned(),
                version: SERVER_VERSION.to_owned(),
            },
            capabilities: Capabilities { tools: true },
            instructions: Some(INSTRUCTIONS.to_owned()),
        }
    }

    /// Lists the tools, in order.
    pub fn list_tools(&self) -> (r: Vec<ToolListing>)
        ensures
            listing_views(r@) == self.tools().map_values(|t: ToolView| listing_of(t)),
    {
        let tools: &Vec<ToolDef> = self.registry.list_tools();
        let ghost all = self.tools();
        let mut out: Vec<ToolListing> = Vec::new();
        let mut i: usize = 0;
        while i < tools.len()
            invariant
                i <= tools@.len(),
                all == tool_views(tools@),
                out@.len() == i,
                forall|k: int| 0 <= k < i ==> (#[trigger] out@[k])@ == listing_of(all[k]),
            decreases tools@.len() - i,
        {
            out.push(tool_def_to_rmcp(&tools[i]));
            i += 1;
        }
        assert(listing_views(out@) =~= all.map_values(|t: ToolView| listing_of(t)));
        out
    }

    /// Begins a call: finds the tool by its name and shapes the request. A name
    /// that no tool has is refused. The inner error is that of a request that
    /// cannot be shaped; it ends the call once a token was had.
    pub fn begin_call(&self, name: &str, arguments: Option<Vec<(String, Json)>>) -> (r: Result<
        Result<RequestPlan, String>,
        RpcError,
    >)
        ensures
            is_call_plan(
                self.tools(),
                self.base(),
                name@,
                match arguments {
                    Some(a) => members_view(a@),
                    None => Seq::empty(),
                },
                r,
            ),
    {
        let tool: &ToolDef = match self.registry.get_tool_by_name(name) {
            Some(t) => t,
            None => return Err(
                RpcError {
                    code: METHOD_NOT_FOUND,
                    message: "unknown tool: ".to_owned().concat(name),
                },
            ),
        };
        let base: &str = match &self.api_base_url {
            Some(b) => b.as_str(),
            None => api_base_url(self.sandbox),
        };
        let args: Vec<(String, Json)> = match arguments {
            Some(a) => a,
            None => {
                let none: Vec<(String, Json)> = Vec::new();
                assert(members_view(none@) =~= Seq::<(Seq<char>, JsonView)>::empty());
                none
            },
        };
        Ok(plan_request(base, tool, args))
    }

    /// Ends a call: the body of the response, or the report on what went wrong.
    pub fn finish_call(outcome: Result<String, DispatchError>) -> (r: CallResult)
        ensures
            is_call_result(outcome, r),
    {
        match outcome {
            Ok(body) => CallResult { text: body, is_error: false },
            Err(e) => CallResult { text: e.report(), is_error: true },
        }
    }
}

/// Every tool of a document can be called by the name it is listed under, and
/// the call goes to that tool.
pub proof fn listed_tools_can_be_called(doc: JsonView, tools: Seq<ToolView>, i: int)
    requires
        is_tool_list(doc, operations(doc), tools),
        0 <= i < tools.len(),
    ensures
        first_named(tools, listing_of(tools[i]).name, 0) == Some(i),
{
    let ops = operations(doc);
    assert forall|j: int, k: int| 0 <= j < k < tools.len() implies (#[trigger] tools[j]).name
        != (#[trigger] tools[k]).name by {
        assert(is_tool(doc, ops[j], ids(tools, j), tools[j]));
        assert(is_tool(doc, ops[k], ids(tools, k), tools[k]));
        tool_ids_are_unique(doc, ops, tools, j, k);
    }
    first_named_reaches(tools, i, 0);
}

proof fn first_named_reaches(tools: Seq<ToolView>, i: int, from: int)
    requires
        0 <= from <= i < tools.len(),
        forall|j: int, k: int| 0 <= j < k < tools.len() ==> (#[trigger] tools[j]).name != (#[trigger] tools[k]).name,
    ensures
        first_named(tools, tools[i].name, from) == Some(i),
    decreases i - from,
{
    if from < i {
        assert(tools[from].name != tools[i].name);
        first_named_reaches(tools, i, from + 1);
    }
}

/// The MCP client learns of every error response: a call that ends on a status from
/// 400 to 599 is answered as an error, with a text that names the status, and one
/// that ends on any other status is answered with the body and is no error.
pub proof fn clients_learn_of_errors(
    before: Attempts,
    method: Seq<char>,
    status: u16,
    retry_after: Option<Duration>,
    trace_id: Option<String>,
    text: String,
    after: Attempts,
    outcome: Result<String, DispatchError>,
    r: CallResult,
)
    requires
        follows(
            before,
            method,
            Outcome::Answer { status, retry_after, trace_id, body: Ok(text) },
            after,
            DispatchAction::Finish(outcome),
        ),
        is_call_result(outcome, r),
    ensures
        r.is_error <==> 400 <= status < 600,
        r.is_error ==> contains_text(r.text@, "HTTP "@ + decimal(status as nat)),
        !r.is_error && utf8_len(text@) <= 100 * 1024 ==> r.text@ == text@,
{
    if let Err(e) = outcome {
        assert(tells_status(e, status));
        report_names_the_status(e, status);
    }
}

/// A call that cannot be made is answered as an error.
pub proof fn failures_are_errors(e: DispatchError, r: CallResult)
    requires
        is_call_result(Err(e), r),
    ensures
        r.is_error,
        r.text@ == e.report_text(),
{
}

/// A call of a tool that is listed goes to that tool, with the arguments that were
/// given; a name that no tool has is refused with the code for unknown methods.
pub proof fn calls_go_to_the_named_tool(
    tools: Seq<ToolView>,
    base: Seq<char>,
    name: Seq<char>,
    args: Seq<(Seq<char>, JsonView)>,
    r: Result<Result<RequestPlan, String>, RpcError>,
    i: int,
)
    requires
        is_call_plan(tools, base, name, args, r),
    ensures
        (forall|k: int| 0 <= k < tools.len() ==> (#[trigger] tools[k]).name != name) ==> (r
            matches Err(e) && e.code == -32601),
        0 <= i < tools.len() && tools[i].name == name && (forall|k: int|
            0 <= k < i ==> (#[trigger] tools[k]).name != name) ==> (r matches Ok(planned)
            && match planned {
            Ok(plan) => request_of(base, tools[i], args) == Some(plan@),
            Err(_) => request_of(base, tools[i], args) is None,
        }),
{
    named_tool_is_found(tools, name, 0);
    if 0 <= i < tools.len() && tools[i].name == name && forall|k: int|
        0 <= k < i ==> (#[trigger] tools[k]).name != name {
        let found = first_named(tools, name, 0)->0;
        assert(found == i) by {
            if found < i {
                assert(tools[found].name != name);
            }
        }
    }
}

/// A tool is listed under its own name, with its description and with the members
/// of its input schema, and as read-only exactly when its method is `get` or
/// `head`: then calling it changes nothing.
pub proof fn tools_are_listed_as_they_are(tool: ToolView)
    requires
        tool.input_schema is Object,
    ensures
        listing_of(tool).name == tool.name,
        listing_of(tool).description == Some(tool.description),
        JsonView::Object(listing_of(tool).input_schema) == tool.input_schema,
        tool.method == "get"@ || tool.method == "head"@ ==> listing_of(tool).annotations == Some(
            ToolAnnotations { read_only_hint: Some(true) },
        ),
        tool.method == "post"@ || tool.method == "put"@ || tool.method == "patch"@ || tool.method
            == "delete"@ ==> listing_of(tool).annotations == Some(
            ToolAnnotations { read_only_hint: Some(false) },
        ),
{
    reveal_strlit("get");
    reveal_strlit("head");
    reveal_strlit("post");
    reveal_strlit("put");
    reveal_strlit("patch");
    reveal_strlit("delete");
    assert("get"@[0] == 'g' && "head"@[0] == 'h' && "post"@[0] == 'p' && "put"@[0] == 'p'
        && "patch"@[0] == 'p' && "delete"@[0] == 'd');
}

/// Calls go to the API of the environment, unless another base URL was set.
pub proof fn calls_go_to_the_environment(server: AllegroServer)
    ensures
        server.base_override() matches Some(b) ==> server.base() == b,
        server.base_override() is None && server.is_sandbox() ==> server.base()
            == "https://api.allegrosandbox.pl"@,
        server.base_override() is None && !server.is_sandbox() ==> server.base()
            == "https://api.allegro.pl"@,
{
}

} // verus!
