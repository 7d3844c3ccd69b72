//! The tools that are made from the operations of an OpenAPI document.

pub mod builder;
pub mod ref_resolver;
pub mod schema_builder;

use vstd::prelude::*;

use self::builder::{build_tools, is_tool_list, operations};
use crate::auth::clone_opt;
use crate::json::{Json, JsonView};
use crate::schema::parse::OpenApi;
use crate::text::{opt_view, str_eq};

verus! {

broadcast use vstd::string::group_string_axioms;

/// A tool made from one operation.
#[derive(Debug, PartialEq, Eq)]
pub struct ToolDef {
    pub id: String,
    pub name: String,
    pub description: String,
    /// The JSON schema of the arguments.
    pub input_schema: Json,
    /// The HTTP method, in small letters.
    pub method: String,
    /// The path, with `{name}` for each path parameter.
    pub path: String,
    /// The versioned media type that the operation names.
    pub accept_media_type: Option<String>,
}

/// What a tool is.
pub struct ToolView {
    pub id: Seq<char>,
    pub name: Seq<char>,
    pub description: Seq<char>,
    pub input_schema: JsonView,
    pub method: Seq<char>,
    pub path: Seq<char>,
    pub accept_media_type: Option<Seq<char>>,
}

impl View for ToolDef {
    type V = ToolView;

    open spec fn view(&self) -> ToolView {
        ToolView {
            id: self.id@,
            name: self.name@,
            description: self.description@,
            input_schema: self.input_schema@,
            method: self.method@,
            path: self.path@,
            accept_media_type: opt_view(self.accept_media_type),
        }
    }
}

impl Clone for ToolDef {
    fn clone(&self) -> (r: ToolDef)
        ensures
            r@ == self@,
    {
        ToolDef {
            id: self.id.clone(),
            name: self.name.clone(),
            description: self.description.clone(),
            input_schema: self.input_schema.clone(),
            method: self.method.clone(),
            path: self.path.clone(),
            accept_media_type: clone_opt(&self.accept_media_type),
        }
    }
}

/// What the tools of a list are.
pub open spec fn tool_views(tools: Seq<ToolDef>) -> Seq<ToolView> {
    tools.map_values(|t: ToolDef| t@)
}

/// What can go wrong while tools are made.
#[derive(Debug)]
pub enum ToolRegistryError {
    Json(String),
    Build(String),
}

impl ToolRegistryError {
    /// The message shown for the error.
    pub open spec fn text(self) -> Seq<char> {
        match self {
            ToolRegistryError::Json(e) => "JSON serialization error: "@ + e@,
            ToolRegistryError::Build(e) => "Schema build error: "@ + e@,
        }
    }

    /// The message shown for the error.
    pub fn message(&self) -> (r: String)
        ensures
            r@ == self.text(),
    {
        match self {
            ToolRegistryError::Json(e) => "JSON serialization error: ".to_owned().concat(
                e.as_str(),
            ),
            ToolRegistryError::Build(e) => "Schema build error: ".to_owned().concat(e.as_str()),
        }
    }
}

/// The tools of a document.
#[derive(Debug)]
pub struct ToolRegistry {
    tools: Vec<ToolDef>,
}

impl View for ToolRegistry {
    type V = Seq<ToolView>;

    closed spec fn view(&self) -> Seq<ToolView> {
        tool_views(self.tools@)
    }
}

/// The first position of a tool of that name.
pub open spec fn first_named(tools: Seq<ToolView>, name: Seq<char>, from: int) -> Option<int>
    decreases tools.len() - from,
{
    if from < 0 || from >= tools.len() {
        None
    } else if tools[from].name == name {
        Some(from)
    } else {
        first_named(tools, name, from + 1)
    }
}

/// The first position of a tool of that id.
pub open spec fn first_with_id(tools: Seq<ToolView>, id: Seq<char>, from: int) -> Option<int>
    decreases tools.len() - from,
{
    if from < 0 || from >= tools.len() {
        None
    } else if tools[from].id == id {
        Some(from)
    } else {
        first_with_id(tools, id, from + 1)
    }
}

/// The tools that are marked, in order.
pub open spec fn selected(tools: Seq<ToolView>, marks: Seq<bool>) -> Seq<ToolView>
    decreases tools.len(),
{
    if tools.len() == 0 {
        Seq::empty()
    } else if marks[tools.len() - 1] {
        selected(tools.drop_last(), marks).push(tools.last())
    } else {
        selected(tools.drop_last(), marks)
    }
}

/// What the tools of a list of references are.
pub open spec fn tool_ref_views<'a>(tools: Seq<&'a ToolDef>) -> Seq<ToolView> {
    tools.map_values(|t: &'a ToolDef| t@)
}

impl ToolRegistry {
    /// Makes the tools of a document.
    pub fn from_openapi(api: &OpenApi) -> (r: Result<ToolRegistry, ToolRegistryError>)
        ensures
            r matches Ok(registry) && is_tool_list(api@, operations(api@), registry@),
    {
        match build_tools(api) {
            Ok(tools) => Ok(ToolRegistry { tools }),
            Err(e) => Err(e),
        }
    }

    /// All tools.
    pub fn list_tools(&self) -> (r: &Vec<ToolDef>)
        ensures
            tool_views(r@) == self@,
    {
        &self.tools
    }

    /// The first tool with this id.
    pub fn get_tool(&self, id: &str) -> (r: Option<&ToolDef>)
        ensures
            match (r, first_with_id(self@, id@, 0)) {
                (Some(t), Some(i)) => t@ == self@[i],
                (None, None) => true,
                _ => false,
            },
    {
        let mut i: usize = 0;
        while i < self.tools.len()
            invariant
                i <= self.tools@.len(),
                first_with_id(self@, id@, 0) == first_with_id(self@, id@, i as int),
            decreases self.tools@.len() - i,
        {
            if str_eq(self.tools[i].id.as_str(), id) {
                return Some(&self.tools[i]);
            }
            i += 1;
        }
        None
    }

    /// The first tool with this name.
    pub fn get_tool_by_name(&self, name: &str) -> (r: Option<&ToolDef>)
        ensures
            match (r, first_named(self@, name@, 0)) {
                (Some(t), Some(i)) => t@ == self@[i],
                (None, None) => true,
                _ => false,
            },
    {
        let mut i: usize = 0;
        while i < self.tools.len()
            invariant
                i <= self.tools@.len(),
                first_named(self@, name@, 0) == first_named(self@, name@, i as int),
            decreases self.tools@.len() - i,
        {
            if str_eq(self.tools[i].name.as_str(), name) {
                return Some(&self.tools[i]);
            }
            i += 1;
        }
        None
    }

    /// The tools for which the predicate holds, in order.
    pub fn filter_tools<F: Fn(&ToolDef) -> bool>(&self, predicate: F) -> (r: Vec<&ToolDef>)
        requires
            forall|t: &ToolDef| call_requires(predicate, (t,)),
        ensures
            exists|tools: Seq<ToolDef>, marks: Seq<bool>|
                #![trigger selected(tool_views(tools), marks)]
                {
                    &&& tool_views(tools) == self@
                    &&& marks.len() == tools.len()
                    &&& forall|i: int|
                        0 <= i < tools.len() ==> call_ensures(
                            predicate,
                            (&tools[i],),
                            #[trigger] marks[i],
                        )
                    &&& tool_ref_views(r@) == selected(tool_views(tools), marks)
                },
    {
        let ghost all = tool_views(self.tools@);
        let ghost mut marks: Seq<bool> = Seq::empty();
        let mut out: Vec<&ToolDef> = Vec::new();
        let mut i: usize = 0;
        assert(tool_ref_views(out@) =~= Seq::<ToolView>::empty());
        assert(all.take(0) =~= Seq::<ToolView>::empty());
        while i < self.tools.len()
            invariant
                all == tool_views(self.tools@),
                i <= self.tools@.len(),
                forall|t: &ToolDef| call_requires(predicate, (t,)),
                marks.len() == i,
                forall|k: int|
                    0 <= k < i ==> call_ensures(
                        predicate,
                        (&self.tools@[k],),
                        #[trigger] marks[k],
                    ),
                tool_ref_views(out@) == selected(all.take(i as int), marks),
            decreases self.tools@.len() - i,
        {
            let keep: bool = predicate(&self.tools[i]);
            let ghost before = marks;
            proof {
                marks = marks.push(keep);
                selected_prefix(all.take(i as int), before, marks);
                assert(all.take(i as int + 1).drop_last() =~= all.take(i as int));
                assert(all.take(i as int + 1).last() == self.tools@[i as int]@);
            }
            if keep {
                let ghost kept = tool_ref_views(out@);
                out.push(&self.tools[i]);
                assert(tool_ref_views(out@) =~= kept.push(self.tools@[i as int]@));
            }
            i += 1;
        }
        assert(all.take(all.len() as int) =~= all);
        assert(tool_ref_views(out@) == selected(tool_views(self.tools@), marks));
        out
    }

    /// How many tools there are.
    pub fn len(&self) -> (r: usize)
        ensures
            r == self@.len(),
    {
        self.tools.len()
    }

    /// Whether there are no tools.
    pub fn is_empty(&self) -> (r: bool)
        ensures
            r == (self@.len() == 0),
    {
        self.tools.len() == 0
    }
}

proof fn selected_prefix(tools: Seq<ToolView>, a: Seq<bool>, b: Seq<bool>)
    requires
        tools.len() <= a.len(),
        tools.len() <= b.len(),
        forall|i: int| 0 <= i < tools.len() ==> a[i] == #[trigger] b[i],
    ensures
        selected(tools, a) == selected(tools, b),
    decreases tools.len(),
{
    if tools.len() > 0 {
        selected_prefix(tools.drop_last(), a, b);
    }
}

// ── Laws ────────────────────────────────────────────────────────────────────

/// A tool is found by its name: the first one that has it, and one is found
/// whenever there is one.
pub proof fn named_tool_is_found(tools: Seq<ToolView>, name: Seq<char>, from: int)
    requires
        0 <= from,
    ensures
        match first_named(tools, name, from) {
            Some(i) => from <= i < tools.len() && tools[i].name == name && forall|k: int|
                from <= k < i ==> (#[trigger] tools[k]).name != name,
            None => forall|k: int| from <= k < tools.len() ==> (#[trigger] tools[k]).name != name,
        },
    decreases tools.len() - from,
{
    if from < tools.len() && tools[from].name != name {
        named_tool_is_found(tools, name, from + 1);
    }
}

/// A tool is found by its id: the first one that has it, and one is found
/// whenever there is one.
pub proof fn tool_with_id_is_found(tools: Seq<ToolView>, id: Seq<char>, from: int)
    requires
        0 <= from,
    ensures
        match first_with_id(tools, id, from) {
            Some(i) => from <= i < tools.len() && tools[i].id == id && forall|k: int|
                from <= k < i ==> (#[trigger] tools[k]).id != id,
            None => forall|k: int| from <= k < tools.len() ==> (#[trigger] tools[k]).id != id,
        },
    decreases tools.len() - from,
{
    if from < tools.len() && tools[from].id != id {
        tool_with_id_is_found(tools, id, from + 1);
    }
}

/// How many of the first `n` marks are set.
pub open spec fn marked(marks: Seq<bool>, n: int) -> nat
    decreases n,
{
    if n <= 0 {
        0
    } else {
        marked(marks, n - 1) + if marks[n - 1] {
            1nat
        } else {
            0nat
        }
    }
}

/// Every tool that is marked stands in the selection, behind as many others as are
/// marked before it; nothing else stands there.
pub proof fn marked_tools_are_selected(tools: Seq<ToolView>, marks: Seq<bool>, i: int)
    requires
        marks.len() == tools.len(),
        0 <= i < tools.len(),
    ensures
        selected(tools, marks).len() == marked(marks, tools.len() as int),
        marks[i] ==> marked(marks, i) < selected(tools, marks).len() && selected(
            tools,
            marks,
        )[marked(marks, i) as int] == tools[i],
{
    selection_counts(tools, marks, tools.len() as int);
    assert(tools.take(tools.len() as int) =~= tools);
    if marks[i] {
        selection_holds(tools, marks, tools.len() as int, i);
    }
}

proof fn selection_counts(tools: Seq<ToolView>, marks: Seq<bool>, n: int)
    requires
        0 <= n <= tools.len(),
    ensures
        selected(tools.take(n), marks).len() == marked(marks, n),
    decreases n,
{
    if n > 0 {
        selection_counts(tools, marks, n - 1);
        assert(tools.take(n).drop_last() =~= tools.take(n - 1));
    }
}

proof fn selection_holds(tools: Seq<ToolView>, marks: Seq<bool>, n: int, i: int)
    requires
        0 <= i < n <= tools.len(),
        marks[i],
    ensures
        marked(marks, i) < selected(tools.take(n), marks).len(),
        selected(tools.take(n), marks)[marked(marks, i) as int] == tools[i],
    decreases n,
{
    assert(tools.take(n).drop_last() =~= tools.take(n - 1));
    selection_counts(tools, marks, n - 1);
    selection_counts(tools, marks, n);
    if i < n - 1 {
        selection_holds(tools, marks, n - 1, i);
    } else {
        assert(tools.take(n).last() == tools[i]);
    }
}

} // verus!
