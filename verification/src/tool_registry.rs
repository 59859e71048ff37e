//! The tool registry: owns the known tool definitions (built in at
//! construction, discovered from definition files afterwards) and routes
//! an execution request to the strategy its definition names.

use vstd::prelude::*;
use crate::definition::{ToolDefinition, ImplementationType, spec_loads, spec_built_from,
    definition_core_of_json};
use crate::executors::{build_rpc_request, expand_tilde, rpc_request_body};
use crate::messages::{Tool, FunctionDefinition};
use crate::text::str_eq;
use crate::tools::ToolParams;

verus! {

/// The names of the tools compiled into the program, in the order their
/// definitions are registered.
pub open spec fn builtin_tool_names() -> Seq<Seq<char>> {
    seq!["read"@, "glob"@, "write"@, "edit"@, "grep"@, "bash"@, "todo"@]
}

/// Owns the set of known tool definitions and the names of the in-process
/// implementations, and resolves a tool name to the way it is executed.
pub struct ToolRegistry {
    builtin_names: Vec<String>,
    entries: Vec<(String, ToolDefinition)>,
    user_tools_dir: Option<String>,
}

/// How one resolved tool call is to be executed.
#[derive(Debug)]
pub enum ExecutionPlan {
    /// Run the in-process implementation registered under this name.
    Builtin { name: String },
    /// Spawn this file (tilde already expanded) and speak the subprocess
    /// contract with it.
    Script { path: String, raw_path: String, timeout_ms: Option<u64> },
    /// Post this request body to this endpoint.
    Remote { url: String, request_body: String, timeout_ms: Option<u64> },
}

/// Why a dispatch request could not be routed.
#[derive(Debug)]
pub enum DispatchError {
    /// No cached definition under this name: the recoverable "not found"
    /// condition.
    DefinitionNotFound { name: String },
    /// A builtin-tagged definition without a registered implementation:
    /// an internal inconsistency, distinct from "not found".
    BuiltinMissing { name: String },
    /// A script definition without a script path.
    ScriptPathMissing,
    /// A remote definition without an endpoint.
    ServerUrlMissing,
}

/// "Tool definition not found: <name>"
pub open spec fn not_found_msg(name: Seq<char>) -> Seq<char> {
    "Tool definition not found: "@ + name
}

/// "Builtin tool not found: <name>"
pub open spec fn builtin_missing_msg(name: Seq<char>) -> Seq<char> {
    "Builtin tool not found: "@ + name
}

impl DispatchError {
    /// The message text of this error.
    pub fn message(&self) -> (r: String)
        ensures
            self matches DispatchError::DefinitionNotFound { name } ==> r@ == not_found_msg(
                name@,
            ),
            self matches DispatchError::BuiltinMissing { name } ==> r@ == builtin_missing_msg(
                name@,
            ),
            self is ScriptPathMissing ==> r@ == "Script tool missing script_path"@,
            self is ServerUrlMissing ==> r@ == "MCP tool missing server_url"@,
    {
        match self {
            DispatchError::DefinitionNotFound { name } => {
                let mut m = String::from_str("Tool definition not found: ");
                m.append(name.as_str());
                m
            },
            DispatchError::BuiltinMissing { name } => {
                let mut m = String::from_str("Builtin tool not found: ");
                m.append(name.as_str());
                m
            },
            DispatchError::ScriptPathMissing => String::from_str("Script tool missing script_path"),
            DispatchError::ServerUrlMissing => String::from_str("MCP tool missing server_url"),
        }
    }
}

/// The schema of one advertised tool, as the model sees it.
pub open spec fn spec_llm_tool(def: ToolDefinition, t: Tool) -> bool {
    &&& t.tool_type@ == "function"@
    &&& t.function.name@ == def.name@
    &&& t.function.description@ == def.description@
    &&& t.function.parameters@ == def.parameters@
}

impl ToolRegistry {
    /// The definitions held, as (key, definition) pairs in insertion order.
    pub closed spec fn entry_list(self) -> Seq<(Seq<char>, ToolDefinition)> {
        Seq::new(self.entries@.len(), |i: int| (self.entries@[i].0@, self.entries@[i].1))
    }

    /// A definition is cached under this name.
    pub closed spec fn spec_has(self, name: Seq<char>) -> bool {
        exists|i: int|
            0 <= i < self.entry_list().len() && (#[trigger] self.entry_list()[i]).0 == name
    }

    /// Position of the definition cached under this name.
    pub closed spec fn spec_index(self, name: Seq<char>) -> int {
        choose|i: int|
            0 <= i < self.entry_list().len() && (#[trigger] self.entry_list()[i]).0 == name
    }

    /// The definition cached under this name.
    pub closed spec fn spec_def_of(self, name: Seq<char>) -> ToolDefinition {
        self.entry_list()[self.spec_index(name)].1
    }

    /// The names of the registered in-process implementations.
    pub closed spec fn builtins_list(self) -> Seq<Seq<char>> {
        Seq::new(self.builtin_names@.len(), |i: int| self.builtin_names@[i]@)
    }

    /// An in-process implementation is registered under this name.
    pub closed spec fn spec_has_builtin(self, name: Seq<char>) -> bool {
        exists|i: int|
            0 <= i < self.builtins_list().len() && #[trigger] self.builtins_list()[i] == name
    }

    /// The definitions directory, if a user tools directory is set.
    pub closed spec fn spec_user_tools_dir(self) -> Option<Seq<char>> {
        match self.user_tools_dir {
            Some(d) => Some(d@),
            None => None,
        }
    }

    /// Keys are unique and every cached definition is valid.
    pub closed spec fn wf(self) -> bool {
        &&& forall|i: int, j: int|
            0 <= i < j < self.entry_list().len() ==> (#[trigger] self.entry_list()[i]).0 != (
            #[trigger] self.entry_list()[j]).0
        &&& forall|i: int|
            0 <= i < self.entry_list().len() ==> (#[trigger] self.entry_list()[i]).1.valid()
    }

    /// Build the registry with every builtin tool pre-registered: its
    /// in-process implementation name and its definition.
    pub fn new() -> (r: ToolRegistry)
        ensures
            r.wf(),
            r.spec_user_tools_dir() is None,
            r.entry_list().len() == 7,
            forall|i: int|
                0 <= i < 7 ==> (#[trigger] r.entry_list()[i]).0 == builtin_tool_names()[i],
            forall|i: int|
                0 <= i < 7 ==> (#[trigger] r.entry_list()[i]).1.implementation_type is Builtin,
            forall|n: Seq<char>| r.spec_has(n) <==> builtin_tool_names().contains(n),
            forall|n: Seq<char>| r.spec_has_builtin(n) <==> builtin_tool_names().contains(n),
    {
        let mut builtin_names: Vec<String> = Vec::new();
        builtin_names.push(String::from_str("read"));
        builtin_names.push(String::from_str("glob"));
        builtin_names.push(String::from_str("write"));
        builtin_names.push(String::from_str("edit"));
        builtin_names.push(String::from_str("grep"));
        builtin_names.push(String::from_str("bash"));
        builtin_names.push(String::from_str("todo"));
        let mut entries: Vec<(String, ToolDefinition)> = Vec::new();
        let d0 = read_definition();
        entries.push((String::from_str("read"), d0));
        let d1 = glob_definition();
        entries.push((String::from_str("glob"), d1));
        let d2 = write_definition();
        entries.push((String::from_str("write"), d2));
        let d3 = edit_definition();
        entries.push((String::from_str("edit"), d3));
        let d4 = grep_definition();
        entries.push((String::from_str("grep"), d4));
        let d5 = bash_definition();
        entries.push((String::from_str("bash"), d5));
        let d6 = todo_definition();
        entries.push((String::from_str("todo"), d6));
        let r = ToolRegistry { builtin_names, entries, user_tools_dir: None };
        proof {
            reveal_strlit("read");
            reveal_strlit("glob");
            reveal_strlit("write");
            reveal_strlit("edit");
            reveal_strlit("grep");
            reveal_strlit("bash");
            reveal_strlit("todo");
            assert(r.entry_list().len() == 7);
            assert forall|i: int| 0 <= i < 7 implies (#[trigger] r.entry_list()[i]).0
                == builtin_tool_names()[i] by {
                assert(r.entry_list()[i] == (r.entries@[i].0@, r.entries@[i].1));
            }
            assert("read"@[0] == 'r' && "glob"@[0] == 'g' && "write"@[0] == 'w' && "edit"@[0]
                == 'e' && "grep"@[0] == 'g' && "bash"@[0] == 'b' && "todo"@[0] == 't');
            assert("glob"@[1] == 'l' && "grep"@[1] == 'r');
            assert forall|i: int, j: int|
                0 <= i < j < r.entry_list().len() implies (#[trigger] r.entry_list()[i]).0 != (
            #[trigger] r.entry_list()[j]).0 by {
                assert(r.entry_list()[i].0 == builtin_tool_names()[i]);
                assert(r.entry_list()[j].0 == builtin_tool_names()[j]);
            }
            assert forall|i: int| 0 <= i < r.entry_list().len() implies (
            #[trigger] r.entry_list()[i]).1.valid() by {
                assert(r.entry_list()[i].1 == r.entries@[i].1);
            }
            assert(r.wf());
            assert forall|n: Seq<char>| r.spec_has(n) implies builtin_tool_names().contains(n) by {
                let i = choose|i: int|
                    0 <= i < r.entry_list().len() && (#[trigger] r.entry_list()[i]).0 == n;
                assert(builtin_tool_names()[i] == n);
            }
            assert forall|n: Seq<char>| builtin_tool_names().contains(n) implies r.spec_has(n) by {
                let i = choose|i: int|
                    0 <= i < builtin_tool_names().len() && builtin_tool_names()[i] == n;
                assert(r.entry_list()[i].0 == n);
            }
            assert forall|n: Seq<char>| r.spec_has_builtin(n) implies builtin_tool_names().contains(
                n,
            ) by {
                let i = choose|i: int|
                    0 <= i < r.builtins_list().len() && #[trigger] r.builtins_list()[i] == n;
                assert(r.builtins_list()[i] == r.builtin_names@[i]@);
                assert(builtin_tool_names()[i] == n);
            }
            assert forall|n: Seq<char>| builtin_tool_names().contains(n) implies r.spec_has_builtin(
                n,
            ) by {
                let i = choose|i: int|
                    0 <= i < builtin_tool_names().len() && builtin_tool_names()[i] == n;
                assert(r.builtins_list()[i] == r.builtin_names@[i]@);
                assert(r.builtins_list()[i] == n);
            }
        }
        r
    }

    /// Point the registry at the per-user tools directory.
    pub fn set_user_tools_dir(&mut self, dir: String)
        requires
            old(self).wf(),
        ensures
            final(self).wf(),
            final(self).spec_user_tools_dir() == Some(dir@),
            final(self).entry_list() == old(self).entry_list(),
            final(self).builtins_list() == old(self).builtins_list(),
    {
        self.user_tools_dir = Some(dir);
        proof {
            assert(self.entry_list() =~= old(self).entry_list());
            assert(self.builtins_list() =~= old(self).builtins_list());
        }
    }

    /// The cached definition under `name`, if one is present. Resolution
    /// never reaches the filesystem itself; a miss names the definition
    /// file that would satisfy it.
    pub fn get_tool_definition(&self, name: &str) -> (r: Option<&ToolDefinition>)
        requires
            self.wf(),
        ensures
            r is Some <==> self.spec_has(name@),
            r matches Some(d) ==> *d == self.spec_def_of(name@),
    {
        let mut k: usize = 0;
        let n = self.entries.len();
        while k < n
            invariant
                k <= n,
                n == self.entries@.len(),
                self.wf(),
                forall|j: int| 0 <= j < k ==> (#[trigger] self.entry_list()[j]).0 != name@,
            decreases n - k,
        {
            if str_eq(self.entries[k].0.as_str(), name) {
                proof {
                    assert(self.entry_list()[k as int].0 == name@);
                    let i = self.spec_index(name@);
                    assert(0 <= i < self.entry_list().len() && self.entry_list()[i].0 == name@);
                    if i != k as int {
                        assert(false);
                    }
                }
                return Some(&self.entries[k].1);
            }
            k += 1;
        }
        proof {
            if self.spec_has(name@) {
                let i = self.spec_index(name@);
                assert(0 <= i < self.entry_list().len() && self.entry_list()[i].0 == name@);
            }
        }
        None
    }

    /// The path of the definition file that would define `name`, when a
    /// user tools directory is set.
    pub fn definition_path(&self, name: &str) -> (r: Option<String>)
        ensures
            match self.spec_user_tools_dir() {
                Some(d) => r matches Some(p) && p@ == crate::definition::spec_join_path(
                    crate::definition::spec_join_path(d, "definitions"@),
                    name@ + ".json"@,
                ),
                None => r is None,
            },
    {
        match &self.user_tools_dir {
            None => None,
            Some(d) => {
                let defs_dir = crate::definition::join_path(d.as_str(), "definitions");
                let mut file = String::from_str(name);
                file.append(".json");
                Some(crate::definition::join_path(defs_dir.as_str(), file.as_str()))
            },
        }
    }

    /// Cache `def` under `key`, replacing a definition already there.
    fn insert_def(&mut self, key: String, def: ToolDefinition)
        requires
            old(self).wf(),
            def.valid(),
        ensures
            final(self).wf(),
            final(self).spec_has(key@),
            final(self).spec_def_of(key@) == def,
            forall|n: Seq<char>|
                n != key@ ==> (final(self).spec_has(n) <==> old(self).spec_has(n)),
            forall|n: Seq<char>|
                n != key@ && old(self).spec_has(n) ==> final(self).spec_def_of(n) == old(self).spec_def_of(n),
            final(self).builtins_list() == old(self).builtins_list(),
            final(self).spec_user_tools_dir() == old(self).spec_user_tools_dir(),
    {
        let ghost gkey = key@;
        let ghost gdef = def;
        let n = self.entries.len();
        let mut k: usize = 0;
        while k < n
            invariant
                k <= n,
                n == self.entries@.len(),
                old(self).wf(),
                *self == *old(self),
                key@ == gkey,
                def == gdef,
                gdef.valid(),
                forall|j: int| 0 <= j < k ==> (#[trigger] self.entry_list()[j]).0 != gkey,
            decreases n - k,
        {
            if str_eq(self.entries[k].0.as_str(), key.as_str()) {
                let ghost pre = *self;
                self.entries[k] = (key, def);
                proof {
                    assert(self.entry_list()[k as int].0 == pre.entry_list()[k as int].0);
                    assert forall|j: int|
                        0 <= j < self.entry_list().len() && j != k implies #[trigger] self.entry_list()[j]
                        == pre.entry_list()[j] by {}
                    assert forall|i: int|
                        0 <= i < self.entry_list().len() implies (#[trigger] self.entry_list()[i]).0
                        == pre.entry_list()[i].0 by {}
                    assert forall|i: int, j: int|
                        0 <= i < j < self.entry_list().len() implies (
                    #[trigger] self.entry_list()[i]).0 != (#[trigger] self.entry_list()[j]).0 by {
                        assert(self.entry_list()[i].0 == pre.entry_list()[i].0);
                        assert(self.entry_list()[j].0 == pre.entry_list()[j].0);
                    }
                    assert forall|i: int|
                        0 <= i < self.entry_list().len() implies (
                    #[trigger] self.entry_list()[i]).1.valid() by {
                        if i != k {
                            assert(self.entry_list()[i] == pre.entry_list()[i]);
                            assert(pre.entry_list()[i].1.valid());
                        } else {
                            assert(self.entry_list()[i].1 == gdef);
                            assert(gdef.valid());
                        }
                        assert(self.entry_list()[i].1.valid());
                    }
                    assert(self.wf());
                    lemma_lookup_unique(*self, k as int);
                    assert(self.entry_list()[k as int].0 == gkey);
                    assert(self.entry_list()[k as int].1 == gdef);
                    assert forall|nm: Seq<char>| nm != gkey implies (self.spec_has(nm)
                        <==> pre.spec_has(nm)) by {
                        lemma_has_frame(pre, *self, k as int, nm);
                    }
                    assert forall|nm: Seq<char>| nm != gkey && pre.spec_has(nm) implies
                        self.spec_def_of(nm) == pre.spec_def_of(nm) by {
                        lemma_def_frame(pre, *self, k as int, nm);
                    }
                    assert(self.builtins_list() =~= pre.builtins_list());
                }
                return ;
            }
            k += 1;
        }
        let ghost pre = *self;
        self.entries.push((key, def));
        proof {
            let m = self.entry_list().len() as int;
            assert forall|j: int| 0 <= j < m - 1 implies #[trigger] self.entry_list()[j]
                == pre.entry_list()[j] by {}
            assert(self.entry_list()[m - 1].0 == gkey);
            assert(self.entry_list()[m - 1].1 == gdef);
            assert forall|i: int, j: int|
                0 <= i < j < self.entry_list().len() implies (#[trigger] self.entry_list()[i]).0
                != (#[trigger] self.entry_list()[j]).0 by {
                if j < m - 1 {
                    assert(self.entry_list()[i] == pre.entry_list()[i]);
                    assert(self.entry_list()[j] == pre.entry_list()[j]);
                } else {
                    assert(self.entry_list()[i] == pre.entry_list()[i]);
                    assert(pre.entry_list()[i].0 != gkey);
                }
            }
            assert forall|i: int|
                0 <= i < self.entry_list().len() implies (
            #[trigger] self.entry_list()[i]).1.valid() by {
                if i < m - 1 {
                    assert(self.entry_list()[i] == pre.entry_list()[i]);
                }
            }
            assert(self.wf());
            lemma_lookup_unique(*self, m - 1);
            assert forall|nm: Seq<char>| nm != gkey implies (self.spec_has(nm)
                <==> pre.spec_has(nm)) by {
                lemma_has_frame(pre, *self, m - 1, nm);
            }
            assert forall|nm: Seq<char>| nm != gkey && pre.spec_has(nm) implies self.spec_def_of(
                nm,
            ) == pre.spec_def_of(nm) by {
                lemma_def_frame(pre, *self, m - 1, nm);
            }
            assert(self.builtins_list() =~= pre.builtins_list());
        }
    }

    /// Whether an in-process implementation is registered under `name`.
    fn has_builtin(&self, name: &str) -> (b: bool)
        ensures
            b == self.spec_has_builtin(name@),
    {
        let n = self.builtin_names.len();
        let mut k: usize = 0;
        while k < n
            invariant
                k <= n,
                n == self.builtin_names@.len(),
                forall|j: int| 0 <= j < k ==> #[trigger] self.builtins_list()[j] != name@,
            decreases n - k,
        {
            if str_eq(self.builtin_names[k].as_str(), name) {
                proof {
                    assert(self.builtins_list()[k as int] == name@);
                }
                return true;
            }
            k += 1;
        }
        proof {
            if self.spec_has_builtin(name@) {
                let i = choose|i: int|
                    0 <= i < self.builtins_list().len() && #[trigger] self.builtins_list()[i]
                        == name@;
            }
        }
        false
    }

    /// Load the definition file at `path` with text `content` and cache
    /// the result under `name`. A load failure leaves the registry as it
    /// was.
    pub fn install_definition(&mut self, name: &str, path: &str, content: &str) -> (r: Result<
        (),
        String,
    >)
        requires
            old(self).wf(),
        ensures
            final(self).wf(),
            r is Ok <==> spec_loads(path@, content@),
            r is Ok ==> final(self).spec_has(name@) && spec_built_from(
                path@,
                content@,
                final(self).spec_def_of(name@),
            ),
            r is Ok ==> forall|n: Seq<char>|
                n != name@ ==> (final(self).spec_has(n) <==> old(self).spec_has(n)),
            r is Ok ==> forall|n: Seq<char>|
                n != name@ && old(self).spec_has(n) ==> final(self).spec_def_of(n) == old(self).spec_def_of(n),
            r matches Err(e) ==> crate::definition::spec_load_err(path@, content@, e@)
                && *final(self) == *old(self),
            final(self).builtins_list() == old(self).builtins_list(),
            final(self).spec_user_tools_dir() == old(self).spec_user_tools_dir(),
    {
        match ToolDefinition::from_text(path, content) {
            Ok(def) => {
                self.insert_def(String::from_str(name), def);
                Ok(())
            },
            Err(e) => Err(e),
        }
    }

    /// Advertise every cached definition, in the order held.
    pub fn get_tool_definitions(&self) -> (r: Vec<Tool>)
        ensures
            r@.len() == self.entry_list().len(),
            forall|i: int|
                0 <= i < r@.len() ==> spec_llm_tool(self.entry_list()[i].1, #[trigger] r@[i]),
    {
        let n = self.entries.len();
        let mut out: Vec<Tool> = Vec::new();
        let mut k: usize = 0;
        while k < n
            invariant
                k <= n,
                n == self.entries@.len(),
                out@.len() == k,
                forall|i: int|
                    0 <= i < k ==> spec_llm_tool(self.entry_list()[i].1, #[trigger] out@[i]),
            decreases n - k,
        {
            let t = definition_to_llm_tool(&self.entries[k].1);
            out.push(t);
            k += 1;
        }
        out
    }

    /// Advertise only the bootstrapping core (the read and pattern-match
    /// tools), for a first prompt from which the model can discover the
    /// rest.
    pub fn get_core_tool_definitions(&self) -> (r: Vec<Tool>)
        requires
            self.wf(),
        ensures
            self.spec_has("read"@) && self.spec_has("glob"@) ==> r@.len() == 2 && spec_llm_tool(
                self.spec_def_of("read"@),
                r@[0],
            ) && spec_llm_tool(self.spec_def_of("glob"@), r@[1]),
            self.spec_has("read"@) && !self.spec_has("glob"@) ==> r@.len() == 1 && spec_llm_tool(
                self.spec_def_of("read"@),
                r@[0],
            ),
            !self.spec_has("read"@) && self.spec_has("glob"@) ==> r@.len() == 1 && spec_llm_tool(
                self.spec_def_of("glob"@),
                r@[0],
            ),
            !self.spec_has("read"@) && !self.spec_has("glob"@) ==> r@.len() == 0,
    {
        let mut out: Vec<Tool> = Vec::new();
        match self.get_tool_definition("read") {
            Some(d) => {
                let t = definition_to_llm_tool(d);
                out.push(t);
            },
            None => {},
        }
        match self.get_tool_definition("glob") {
            Some(d) => {
                let t = definition_to_llm_tool(d);
                out.push(t);
            },
            None => {},
        }
        out
    }

    /// Resolve `name` against the cache and route it: an in-process call
    /// for a builtin definition whose implementation is registered, a
    /// subprocess plan (tilde expanded) for a script definition, a request
    /// envelope and endpoint for a remote one. No cached definition is the
    /// recoverable "not found" condition; a builtin definition without an
    /// implementation is the distinct internal inconsistency.
    pub fn dispatch(&self, name: &str, params: &ToolParams) -> (r: Result<
        ExecutionPlan,
        DispatchError,
    >)
        requires
            self.wf(),
        ensures
            !self.spec_has(name@) ==> (r matches Err(e) && e matches
                DispatchError::DefinitionNotFound { name: n } && n@ == name@),
            self.spec_has(name@) ==> match self.spec_def_of(name@).implementation_type {
                ImplementationType::Builtin => {
                    &&& self.spec_has_builtin(name@) ==> (r matches Ok(p) && p matches
                        ExecutionPlan::Builtin { name: n } && n@ == name@)
                    &&& !self.spec_has_builtin(name@) ==> (r matches Err(e) && e matches
                        DispatchError::BuiltinMissing { name: n } && n@ == name@)
                },
                ImplementationType::Script => (r matches Ok(p) && p matches
                    ExecutionPlan::Script { path, raw_path, timeout_ms } && (
                self.spec_def_of(name@).script_path matches Some(sp) && raw_path@ == sp@ && (
                sp@.len() == 0 || sp@[0] != '~' ==> path@ == sp@) && timeout_ms == self.spec_def_of(
                    name@,
                ).timeout_ms)),
                ImplementationType::McpServer => (r matches Ok(p) && p matches
                    ExecutionPlan::Remote { url, request_body, timeout_ms } && (
                self.spec_def_of(name@).server_url matches Some(u) && url@ == u@ && request_body@
                    == rpc_request_body(name@, params.data@) && timeout_ms == self.spec_def_of(
                    name@,
                ).timeout_ms)),
            },
    {
        let def = match self.get_tool_definition(name) {
            Some(d) => d,
            None => {
                return Err(DispatchError::DefinitionNotFound { name: String::from_str(name) });
            },
        };
        proof {
            lemma_def_of_valid(*self, name@);
        }
        match def.implementation_type {
            ImplementationType::Builtin => {
                if self.has_builtin(name) {
                    Ok(ExecutionPlan::Builtin { name: String::from_str(name) })
                } else {
                    Err(DispatchError::BuiltinMissing { name: String::from_str(name) })
                }
            },
            ImplementationType::Script => {
                match &def.script_path {
                    Some(sp) => {
                        let expanded = expand_tilde(sp.as_str());
                        Ok(
                            ExecutionPlan::Script {
                                path: expanded,
                                raw_path: sp.clone(),
                                timeout_ms: def.timeout_ms,
                            },
                        )
                    },
                    None => Err(DispatchError::ScriptPathMissing),
                }
            },
            ImplementationType::McpServer => {
                match &def.server_url {
                    Some(u) => {
                        let body = build_rpc_request(name, params.data.as_str());
                        Ok(
                            ExecutionPlan::Remote {
                                url: u.clone(),
                                request_body: body,
                                timeout_ms: def.timeout_ms,
                            },
                        )
                    },
                    None => Err(DispatchError::ServerUrlMissing),
                }
            },
        }
    }
}

/// The name a loadable definition document declares.
pub open spec fn loaded_name(content: Seq<char>) -> Seq<char> {
    match definition_core_of_json(content) {
        Some(c) => c.0,
        None => Seq::<char>::empty(),
    }
}

/// The names of the definitions that load from a list of (path, text)
/// files, in file order, malformed files skipped.
pub open spec fn spec_discovered(files: Seq<(Seq<char>, Seq<char>)>) -> Seq<Seq<char>>
    decreases files.len(),
{
    if files.len() == 0 {
        Seq::<Seq<char>>::empty()
    } else if spec_loads(files.last().0, files.last().1) {
        spec_discovered(files.drop_last()) + seq![loaded_name(files.last().1)]
    } else {
        spec_discovered(files.drop_last())
    }
}

impl ToolRegistry {
    /// Load every definition among `files` (each a path and the text read
    /// from it), caching each under the name it declares; a malformed file
    /// is skipped and the rest still load. Returns the declared names of
    /// those that loaded, in file order.
    pub fn discover_user_tools(&mut self, files: &Vec<(String, String)>) -> (r: Vec<String>)
        requires
            old(self).wf(),
        ensures
            final(self).wf(),
            r.deep_view() == spec_discovered(files.deep_view()),
            forall|k: int|
                0 <= k < files.deep_view().len() && spec_loads(
                    files.deep_view()[k].0,
                    #[trigger] files.deep_view()[k].1,
                ) ==> final(self).spec_has(loaded_name(files.deep_view()[k].1)),
            forall|n: Seq<char>|
                !spec_discovered(files.deep_view()).contains(n) ==> (final(self).spec_has(n)
                    <==> old(self).spec_has(n)),
            forall|n: Seq<char>|
                !spec_discovered(files.deep_view()).contains(n) && old(self).spec_has(n)
                    ==> final(self).spec_def_of(n) == old(self).spec_def_of(n),
            final(self).builtins_list() == old(self).builtins_list(),
            final(self).spec_user_tools_dir() == old(self).spec_user_tools_dir(),
    {
        let ghost dv = files.deep_view();
        let n = files.len();
        let mut out: Vec<String> = Vec::new();
        let mut t: usize = 0;
        proof {
            assert(dv.take(0) =~= Seq::<(Seq<char>, Seq<char>)>::empty());
            assert(out.deep_view() =~= spec_discovered(dv.take(0)));
        }
        while t < n
            invariant
                t <= n,
                n == files@.len(),
                dv == files.deep_view(),
                dv.len() == n,
                self.wf(),
                out.deep_view() == spec_discovered(dv.take(t as int)),
                forall|k: int|
                    0 <= k < t && spec_loads(dv[k].0, #[trigger] dv[k].1) ==> self.spec_has(
                        loaded_name(dv[k].1),
                    ),
                forall|n2: Seq<char>|
                    !spec_discovered(dv.take(t as int)).contains(n2) ==> (self.spec_has(n2)
                        <==> old(self).spec_has(n2)),
                forall|n2: Seq<char>|
                    !spec_discovered(dv.take(t as int)).contains(n2) && old(self).spec_has(n2)
                        ==> self.spec_def_of(n2) == old(self).spec_def_of(n2),
                self.builtins_list() == old(self).builtins_list(),
                self.spec_user_tools_dir() == old(self).spec_user_tools_dir(),
            decreases n - t,
        {
            let ghost pre = *self;
            let ghost out_pre = out.deep_view();
            proof {
                assert(dv.take(t + 1).drop_last() =~= dv.take(t as int));
                assert(dv.take(t + 1).last() == dv[t as int]);
                assert(dv[t as int].0 == files@[t as int].0@);
                assert(dv[t as int].1 == files@[t as int].1@);
            }
            match ToolDefinition::from_text(files[t].0.as_str(), files[t].1.as_str()) {
                Ok(def) => {
                    proof {
                        assert(spec_loads(dv[t as int].0, dv[t as int].1));
                        assert(def.name@ == loaded_name(dv[t as int].1));
                    }
                    let nm = def.name.clone();
                    self.insert_def(def.name.clone(), def);
                    out.push(nm);
                    proof {
                        assert(out.deep_view() =~= out_pre + seq![loaded_name(dv[t as int].1)]);
                        assert(spec_discovered(dv.take(t + 1)) == spec_discovered(dv.take(t as int))
                            + seq![loaded_name(dv[t as int].1)]);
                        assert(out.deep_view() == spec_discovered(dv.take(t + 1)));
                        let ghost inm = loaded_name(dv[t as int].1);
                        assert(spec_discovered(dv.take(t + 1)).contains(inm)) by {
                            assert(spec_discovered(dv.take(t + 1)).last() == inm);
                        }
                        assert forall|k: int|
                            0 <= k < t + 1 && spec_loads(dv[k].0, #[trigger] dv[k].1) implies
                            self.spec_has(loaded_name(dv[k].1)) by {
                            if k < t {
                                if loaded_name(dv[k].1) != inm {
                                    assert(pre.spec_has(loaded_name(dv[k].1)));
                                }
                            }
                        }
                        assert forall|n2: Seq<char>|
                            !spec_discovered(dv.take(t + 1)).contains(n2) implies (self.spec_has(
                            n2,
                        ) <==> old(self).spec_has(n2)) by {
                            assert(spec_discovered(dv.take(t + 1)) == spec_discovered(
                                dv.take(t as int),
                            ) + seq![inm]);
                            if n2 != inm {
                                if spec_discovered(dv.take(t as int)).contains(n2) {
                                    let i = choose|i: int|
                                        0 <= i < spec_discovered(dv.take(t as int)).len()
                                            && spec_discovered(dv.take(t as int))[i] == n2;
                                    assert(spec_discovered(dv.take(t + 1))[i] == n2);
                                }
                            } else {
                                assert(spec_discovered(dv.take(t + 1)).contains(n2)) by {
                                    assert(spec_discovered(dv.take(t + 1)).last() == n2);
                                }
                            }
                        }
                        assert forall|n2: Seq<char>|
                            !spec_discovered(dv.take(t + 1)).contains(n2) && old(self).spec_has(
                            n2,
                        ) implies self.spec_def_of(n2) == old(self).spec_def_of(n2) by {
                            if spec_discovered(dv.take(t as int)).contains(n2) {
                                let i = choose|i: int|
                                    0 <= i < spec_discovered(dv.take(t as int)).len()
                                        && spec_discovered(dv.take(t as int))[i] == n2;
                                assert(spec_discovered(dv.take(t + 1))[i] == n2);
                            }
                            if n2 == inm {
                                assert(spec_discovered(dv.take(t + 1)).last() == n2);
                            }
                        }
                    }
                },
                Err(_) => {
                    proof {
                        assert(!spec_loads(dv[t as int].0, dv[t as int].1));
                        assert(spec_discovered(dv.take(t + 1)) == spec_discovered(
                            dv.take(t as int),
                        ));
                    }
                },
            }
            t += 1;
        }
        proof {
            assert(dv.take(n as int) =~= dv);
        }
        out
    }
}

/// A registry that holds a name holds a valid definition for it.
pub proof fn lemma_def_of_valid(r: ToolRegistry, name: Seq<char>)
    requires
        r.wf(),
        r.spec_has(name),
    ensures
        r.spec_def_of(name).valid(),
{
    let i = r.spec_index(name);
    assert(0 <= i < r.entry_list().len() && r.entry_list()[i].0 == name);
}

/// Convert a definition into the schema record advertised to the model.
fn definition_to_llm_tool(def: &ToolDefinition) -> (t: Tool)
    ensures
        spec_llm_tool(*def, t),
{
    Tool {
        tool_type: String::from_str("function"),
        function: FunctionDefinition {
            name: def.name.clone(),
            description: def.description.clone(),
            parameters: def.parameters.clone(),
        },
    }
}

/// A builtin definition: no location data, no timeout override.
fn builtin_definition(name: &str, description: &str, parameters: &str) -> (d: ToolDefinition)
    ensures
        d.name@ == name@,
        d.description@ == description@,
        d.parameters@ == parameters@,
        d.implementation_type is Builtin,
        d.script_path is None,
        d.server_url is None,
        d.timeout_ms is None,
        d.valid(),
{
    ToolDefinition {
        name: String::from_str(name),
        description: String::from_str(description),
        parameters: String::from_str(parameters),
        implementation_type: ImplementationType::Builtin,
        script_path: None,
        server_url: None,
        timeout_ms: None,
    }
}

fn read_definition() -> (d: ToolDefinition)
    ensures
        d.name@ == "read"@,
        d.implementation_type is Builtin,
        d.valid(),
{
    builtin_definition(
        "read",
        "Reads a file from the filesystem with optional line offset and limit. Use this to load tool definitions or examine files.",
        "{\"type\":\"object\",\"properties\":{\"file_path\":{\"type\":\"string\",\"description\":\"The absolute or relative path to the file to read\"},\"offset\":{\"type\":\"integer\",\"description\":\"Optional line number to start reading from (0-indexed)\"},\"limit\":{\"type\":\"integer\",\"description\":\"Optional number of lines to read\"}},\"required\":[\"file_path\"]}",
    )
}

fn glob_definition() -> (d: ToolDefinition)
    ensures
        d.name@ == "glob"@,
        d.implementation_type is Builtin,
        d.valid(),
{
    builtin_definition(
        "glob",
        "Fast file pattern matching using glob patterns like **/*.js or src/**/*.rs. Use this to discover available tool definitions in ~/.code_agent/tools/definitions/*.json",
        "{\"type\":\"object\",\"properties\":{\"pattern\":{\"type\":\"string\",\"description\":\"The glob pattern to match files against\"},\"path\":{\"type\":\"string\",\"description\":\"Optional directory to search in. Defaults to current directory.\"}},\"required\":[\"pattern\"]}",
    )
}

fn write_definition() -> (d: ToolDefinition)
    ensures
        d.name@ == "write"@,
        d.implementation_type is Builtin,
        d.valid(),
{
    builtin_definition(
        "write",
        "Writes content to a file, creating or overwriting as needed",
        "{\"type\":\"object\",\"properties\":{\"file_path\":{\"type\":\"string\",\"description\":\"The path to the file to write\"},\"content\":{\"type\":\"string\",\"description\":\"The content to write to the file\"}},\"required\":[\"file_path\",\"content\"]}",
    )
}

fn edit_definition() -> (d: ToolDefinition)
    ensures
        d.name@ == "edit"@,
        d.implementation_type is Builtin,
        d.valid(),
{
    builtin_definition(
        "edit",
        "Performs exact string replacements in files. The old_string must be unique unless replace_all is true.",
        "{\"type\":\"object\",\"properties\":{\"file_path\":{\"type\":\"string\",\"description\":\"The path to the file to edit\"},\"old_string\":{\"type\":\"string\",\"description\":\"The exact string to find and replace\"},\"new_string\":{\"type\":\"string\",\"description\":\"The replacement string\"},\"replace_all\":{\"type\":\"boolean\",\"description\":\"If true, replace all occurrences. Default is false.\"}},\"required\":[\"file_path\",\"old_string\",\"new_string\"]}",
    )
}

fn grep_definition() -> (d: ToolDefinition)
    ensures
        d.name@ == "grep"@,
        d.implementation_type is Builtin,
        d.valid(),
{
    builtin_definition(
        "grep",
        "Search file contents using regex patterns. Supports filtering by file type and multiple output modes.",
        "{\"type\":\"object\",\"properties\":{\"pattern\":{\"type\":\"string\",\"description\":\"The regex pattern to search for\"},\"path\":{\"type\":\"string\",\"description\":\"Optional directory to search in. Defaults to current directory.\"},\"glob\":{\"type\":\"string\",\"description\":\"Optional glob pattern to filter files (e.g., '*.rs', '*.txt')\"},\"case_insensitive\":{\"type\":\"boolean\",\"description\":\"If true, search is case-insensitive. Default is false.\"},\"output_mode\":{\"type\":\"string\",\"description\":\"Output format: 'files_with_matches' (just filenames), 'content' (matching lines), or 'count' (match counts)\",\"enum\":[\"files_with_matches\",\"content\",\"count\"]}},\"required\":[\"pattern\"]}",
    )
}

fn bash_definition() -> (d: ToolDefinition)
    ensures
        d.name@ == "bash"@,
        d.implementation_type is Builtin,
        d.valid(),
{
    builtin_definition(
        "bash",
        "Executes bash commands with optional timeout. Use this to run shell commands, git operations, build tools, etc.",
        "{\"type\":\"object\",\"properties\":{\"command\":{\"type\":\"string\",\"description\":\"The bash command to execute\"},\"description\":{\"type\":\"string\",\"description\":\"Optional human-readable description of what the command does\"},\"timeout\":{\"type\":\"integer\",\"description\":\"Optional timeout in milliseconds. Default is 120000 (2 minutes).\"}},\"required\":[\"command\"]}",
    )
}

fn todo_definition() -> (d: ToolDefinition)
    ensures
        d.name@ == "todo"@,
        d.implementation_type is Builtin,
        d.valid(),
{
    builtin_definition(
        "todo",
        "Manages a task list for tracking progress. Can read current todos or write new ones.",
        "{\"type\":\"object\",\"properties\":{\"action\":{\"type\":\"string\",\"description\":\"Action to perform: 'read' or 'write'\",\"enum\":[\"read\",\"write\"]},\"todos\":{\"type\":\"array\",\"description\":\"Array of todo items (required for write action)\",\"items\":{\"type\":\"object\",\"properties\":{\"content\":{\"type\":\"string\"},\"status\":{\"type\":\"string\",\"enum\":[\"pending\",\"in_progress\",\"completed\"]},\"active_form\":{\"type\":\"string\"}},\"required\":[\"content\",\"status\",\"active_form\"]}}}}",
    )
}

/// In a registry whose keys are unique up to position `k`, a lookup that
/// hits position `k` is the cached one.
proof fn lemma_lookup_unique(r: ToolRegistry, k: int)
    requires
        0 <= k < r.entry_list().len(),
        forall|i: int, j: int|
            0 <= i < j < r.entry_list().len() ==> (#[trigger] r.entry_list()[i]).0 != (
            #[trigger] r.entry_list()[j]).0,
    ensures
        r.spec_has(r.entry_list()[k].0),
        r.spec_index(r.entry_list()[k].0) == k,
        r.spec_def_of(r.entry_list()[k].0) == r.entry_list()[k].1,
{
    let nm = r.entry_list()[k].0;
    assert(0 <= k < r.entry_list().len() && r.entry_list()[k].0 == nm);
    assert(r.spec_has(nm));
    let i = r.spec_index(nm);
    assert(0 <= i < r.entry_list().len() && r.entry_list()[i].0 == nm);
    if i < k {
        assert(false);
    }
    if k < i {
        assert(false);
    }
}

/// Two registries that differ only at position `k` resolve every other
/// name alike.
proof fn lemma_has_frame(a: ToolRegistry, b: ToolRegistry, k: int, nm: Seq<char>)
    requires
        (b.entry_list().len() == a.entry_list().len() && 0 <= k < a.entry_list().len()) || (
        b.entry_list().len() == a.entry_list().len() + 1 && k == a.entry_list().len()),
        forall|j: int|
            0 <= j < a.entry_list().len() && j != k ==> a.entry_list()[j] == b.entry_list()[j],
        nm != b.entry_list()[k].0,
        k < a.entry_list().len() ==> nm != a.entry_list()[k].0,
    ensures
        a.spec_has(nm) <==> b.spec_has(nm),
{
    if a.spec_has(nm) {
        let i = choose|i: int|
            0 <= i < a.entry_list().len() && (#[trigger] a.entry_list()[i]).0 == nm;
        assert(i != k);
        assert(b.entry_list()[i].0 == nm);
    }
    if b.spec_has(nm) {
        let i = choose|i: int|
            0 <= i < b.entry_list().len() && (#[trigger] b.entry_list()[i]).0 == nm;
        assert(i != k);
        assert(a.entry_list()[i].0 == nm);
    }
}

/// Two registries with unique keys that differ only at position `k` give
/// every other name the same definition.
proof fn lemma_def_frame(a: ToolRegistry, b: ToolRegistry, k: int, nm: Seq<char>)
    requires
        (b.entry_list().len() == a.entry_list().len() && 0 <= k < a.entry_list().len()) || (
        b.entry_list().len() == a.entry_list().len() + 1 && k == a.entry_list().len()),
        forall|j: int|
            0 <= j < a.entry_list().len() && j != k ==> a.entry_list()[j] == b.entry_list()[j],
        nm != b.entry_list()[k].0,
        k < a.entry_list().len() ==> nm != a.entry_list()[k].0,
        a.spec_has(nm),
        forall|i: int, j: int|
            0 <= i < j < a.entry_list().len() ==> (#[trigger] a.entry_list()[i]).0 != (
            #[trigger] a.entry_list()[j]).0,
        forall|i: int, j: int|
            0 <= i < j < b.entry_list().len() ==> (#[trigger] b.entry_list()[i]).0 != (
            #[trigger] b.entry_list()[j]).0,
    ensures
        b.spec_def_of(nm) == a.spec_def_of(nm),
{
    let i = a.spec_index(nm);
    assert(0 <= i < a.entry_list().len() && a.entry_list()[i].0 == nm);
    assert(i != k);
    assert(b.entry_list()[i].0 == nm);
    assert(b.spec_has(nm));
    let j = b.spec_index(nm);
    assert(0 <= j < b.entry_list().len() && b.entry_list()[j].0 == nm);
    if j != i {
        assert(j != k);
        if j < a.entry_list().len() {
            assert(a.entry_list()[j].0 == nm);
            assert(false);
        } else {
            assert(false);
        }
    }
}

} // verus!
