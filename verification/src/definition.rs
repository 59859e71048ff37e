//! Tool definitions: the registry's metadata record for a tool, how a
//! definition is validated, and how one is loaded from the text of a
//! definition file.

use vstd::prelude::*;
use crate::text::str_eq;

verus! {

/// How a tool is implemented: in process, as a local subprocess, or as a
/// remote service call.
#[derive(Clone, Copy, Debug, PartialEq, Eq, Structural)]
pub enum ImplementationType {
    Builtin,
    Script,
    McpServer,
}

/// The implementation type a definition file gets when it names none.
pub fn default_implementation_type() -> (t: ImplementationType)
    ensures
        t is Builtin,
{
    ImplementationType::Builtin
}

/// Definition of a tool: its schema plus the data its execution strategy
/// needs. The parameter schema is carried as one serialized JSON document.
#[derive(Clone, Debug)]
pub struct ToolDefinition {
    pub name: String,
    pub description: String,
    pub parameters: String,
    pub implementation_type: ImplementationType,
    pub script_path: Option<String>,
    pub server_url: Option<String>,
    pub timeout_ms: Option<u64>,
}

/// "Tool '<name>' has implementation_type 'script' but no script_path"
pub open spec fn script_path_missing_msg(name: Seq<char>) -> Seq<char> {
    "Tool '"@ + name + "' has implementation_type 'script' but no script_path"@
}

/// "Tool '<name>' has implementation_type 'mcp_server' but no server_url"
pub open spec fn server_url_missing_msg(name: Seq<char>) -> Seq<char> {
    "Tool '"@ + name + "' has implementation_type 'mcp_server' but no server_url"@
}

/// "Failed to parse tool definition from <path>"
pub open spec fn parse_fail_msg(path: Seq<char>) -> Seq<char> {
    "Failed to parse tool definition from "@ + path
}

impl ToolDefinition {
    /// A script definition carries a script path and a remote definition a
    /// server endpoint.
    pub open spec fn valid(self) -> bool {
        &&& self.implementation_type is Script ==> self.script_path is Some
        &&& self.implementation_type is McpServer ==> self.server_url is Some
    }

    /// Check that the definition carries the location data its
    /// implementation type needs.
    pub fn validate(&self) -> (r: Result<(), String>)
        ensures
            r is Ok <==> self.valid(),
            r matches Err(e) ==> {
                ||| self.implementation_type is Script && self.script_path is None && e@
                    == script_path_missing_msg(self.name@)
                ||| self.implementation_type is McpServer && self.server_url is None && e@
                    == server_url_missing_msg(self.name@)
            },
    {
        match self.implementation_type {
            ImplementationType::Builtin => Ok(()),
            ImplementationType::Script => {
                if self.script_path.is_none() {
                    let mut e = String::from_str("Tool '");
                    e.append(self.name.as_str());
                    e.append("' has implementation_type 'script' but no script_path");
                    Err(e)
                } else {
                    Ok(())
                }
            },
            ImplementationType::McpServer => {
                if self.server_url.is_none() {
                    let mut e = String::from_str("Tool '");
                    e.append(self.name.as_str());
                    e.append("' has implementation_type 'mcp_server' but no server_url");
                    Err(e)
                } else {
                    Ok(())
                }
            },
        }
    }
}

/// Index of the last path separator in `p`, or -1 if there is none.
pub open spec fn last_slash(p: Seq<char>) -> int
    decreases p.len(),
{
    if p.len() == 0 {
        -1
    } else if p.last() == '/' {
        p.len() - 1
    } else {
        last_slash(p.drop_last())
    }
}

/// The directory part of a path, as a path's parent is usually taken: the
/// text before the last separator, `""` for a bare file name, and nothing
/// for an empty path or the root itself.
pub open spec fn parent_dir(p: Seq<char>) -> Option<Seq<char>> {
    if p.len() == 0 {
        None
    } else if p == seq!['/'] {
        None
    } else {
        let i = last_slash(p);
        if i == -1 {
            Some(Seq::<char>::empty())
        } else if i == 0 {
            Some(seq!['/'])
        } else {
            Some(p.take(i))
        }
    }
}

/// `base` and `child` joined with a separator; an empty base leaves the
/// child bare.
pub open spec fn spec_join_path(base: Seq<char>, child: Seq<char>) -> Seq<char> {
    if base.len() == 0 {
        child
    } else if base.last() == '/' {
        base + child
    } else {
        base + seq!['/'] + child
    }
}

proof fn lemma_last_slash_at(p: Seq<char>, k: int)
    requires
        0 <= k < p.len(),
        p[k] == '/',
        forall|j: int| k < j < p.len() ==> p[j] != '/',
    ensures
        last_slash(p) == k,
    decreases p.len(),
{
    if k == p.len() - 1 {
    } else {
        assert(p.last() != '/');
        assert(forall|j: int| k < j < p.drop_last().len() ==> p.drop_last()[j] != '/');
        assert(p.drop_last()[k] == '/');
        lemma_last_slash_at(p.drop_last(), k);
    }
}

proof fn lemma_last_slash_none(p: Seq<char>)
    requires
        forall|j: int| 0 <= j < p.len() ==> p[j] != '/',
    ensures
        last_slash(p) == -1,
    decreases p.len(),
{
    if p.len() > 0 {
        lemma_last_slash_none(p.drop_last());
    }
}

/// Find the last separator in `p`.
pub fn find_last_slash(p: &str) -> (r: Option<usize>)
    ensures
        match r {
            Some(i) => last_slash(p@) == i && i < p@.len(),
            None => last_slash(p@) == -1,
        },
{
    let n = p.unicode_len();
    let mut i: usize = n;
    while i > 0
        invariant
            i <= n,
            n == p@.len(),
            forall|j: int| i <= j < n ==> p@[j] != '/',
        decreases i,
    {
        let c = p.get_char(i - 1);
        if c == '/' {
            proof {
                lemma_last_slash_at(p@, i - 1);
            }
            return Some(i - 1);
        }
        i -= 1;
    }
    proof {
        lemma_last_slash_none(p@);
    }
    None
}

/// The parent directory of `p`, as `parent_dir` describes it.
pub fn path_parent(p: &str) -> (r: Option<String>)
    ensures
        match r {
            Some(d) => parent_dir(p@) == Some(d@),
            None => parent_dir(p@) is None,
        },
{
    let n = p.unicode_len();
    if n == 0 {
        return None;
    }
    if str_eq(p, "/") {
        proof {
            reveal_strlit("/");
            assert("/"@ =~= seq!['/']);
        }
        return None;
    }
    proof {
        reveal_strlit("/");
        assert("/"@ =~= seq!['/']);
    }
    match find_last_slash(p) {
        None => {
            let d = String::new();
            proof {
                assert(d@ =~= Seq::<char>::empty());
            }
            Some(d)
        },
        Some(i) => {
            if i == 0 {
                let d = String::from_str("/");
                proof {
                    assert(d@ =~= seq!['/']);
                }
                Some(d)
            } else {
                let d = String::from_str(p.substring_char(0, i));
                proof {
                    assert(d@ =~= p@.take(i as int));
                }
                Some(d)
            }
        },
    }
}

/// Join `base` and `child` with a separator.
pub fn join_path(base: &str, child: &str) -> (r: String)
    ensures
        r@ == spec_join_path(base@, child@),
{
    let n = base.unicode_len();
    if n == 0 {
        return String::from_str(child);
    }
    let mut out = String::from_str(base);
    let c = base.get_char(n - 1);
    if c != '/' {
        out.append("/");
        proof {
            reveal_strlit("/");
            assert(out@ =~= base@ + seq!['/']);
        }
    }
    out.append(child);
    out
}

/// What the model name in a definition file means, with the default when
/// none is given; an unknown name rejects the document.
pub open spec fn spec_impl_type_of(s: Option<Seq<char>>) -> Option<ImplementationType> {
    match s {
        None => Some(ImplementationType::Builtin),
        Some(t) => if t == "builtin"@ {
            Some(ImplementationType::Builtin)
        } else if t == "script"@ {
            Some(ImplementationType::Script)
        } else if t == "mcp_server"@ {
            Some(ImplementationType::McpServer)
        } else {
            None
        },
    }
}

/// The name, description, parameter schema and implementation-type tag of
/// a tool-definition document, or nothing where the document does not
/// parse with those fields.
pub uninterp spec fn definition_core_of_json(s: Seq<char>) -> Option<
    (Seq<char>, Seq<char>, Seq<char>, Option<Seq<char>>),
>;

/// The script path, server endpoint and timeout of a tool-definition
/// document, or nothing where the document does not parse with those
/// fields.
pub uninterp spec fn definition_location_of_json(s: Seq<char>) -> Option<
    (Option<Seq<char>>, Option<Seq<char>>, Option<u64>),
>;

/// Relies on serde_json::from_str and the serde_json::Value accessors
/// get, as_str and to_string: extracts the name, description, parameter
/// schema (re-serialized) and implementation-type tag of the document, a
/// pure function of the text.
#[verifier::external_body]
fn parse_definition_core(s: &str) -> (r: Option<(String, String, String, Option<String>)>)
    ensures
        match r {
            Some(c) => definition_core_of_json(s@) == Some((c.0@, c.1@, c.2@, c.3.deep_view())),
            None => definition_core_of_json(s@) is None,
        },
{
    let v: serde_json::Value = serde_json::from_str(s).ok()?;
    let name = v.get("name")?.as_str()?.to_string();
    let description = v.get("description")?.as_str()?.to_string();
    let parameters = v.get("parameters")?.to_string();
    let implementation_type = match v.get("implementation_type") {
        None => None,
        Some(t) => Some(t.as_str()?.to_string()),
    };
    Some((name, description, parameters, implementation_type))
}

/// Relies on serde_json::from_str and the serde_json::Value accessors
/// get, is_null, as_str and as_u64: extracts the optional script path,
/// server endpoint and timeout of the document, a pure function of the
/// text.
#[verifier::external_body]
fn parse_definition_location(s: &str) -> (r: Option<
    (Option<String>, Option<String>, Option<u64>),
>)
    ensures
        match r {
            Some(l) => definition_location_of_json(s@) == Some(
                (l.0.deep_view(), l.1.deep_view(), l.2),
            ),
            None => definition_location_of_json(s@) is None,
        },
{
    let v: serde_json::Value = serde_json::from_str(s).ok()?;
    let script_path = match v.get("script_path") {
        None => None, Some(t) if t.is_null() => None, Some(t) => Some(t.as_str()?.to_string()),
    };
    let server_url = match v.get("server_url") {
        None => None, Some(t) if t.is_null() => None, Some(t) => Some(t.as_str()?.to_string()),
    };
    let timeout_ms = match v.get("timeout_ms") {
        None => None, Some(t) if t.is_null() => None, Some(t) => Some(t.as_u64()?),
    };
    Some((script_path, server_url, timeout_ms))
}

/// A relative script path is placed under the `scripts` directory that
/// stands beside the `definitions` directory holding the definition file;
/// absolute and home-relative paths stay as they are. Nothing comes out
/// where the definition path has no such enclosing directories.
pub open spec fn resolved_script_path(def_path: Seq<char>, sp: Seq<char>) -> Option<Seq<char>> {
    if sp.len() > 0 && (sp[0] == '/' || sp[0] == '~') {
        Some(sp)
    } else {
        match parent_dir(def_path) {
            None => None,
            Some(d1) => match parent_dir(d1) {
                None => None,
                Some(d2) => Some(spec_join_path(spec_join_path(d2, "scripts"@), sp)),
            },
        }
    }
}

/// The document at `path` with text `content` yields a definition: it
/// parses, its implementation-type tag is known, its script path (if any)
/// resolves, and the result carries the location data its type needs.
pub open spec fn spec_loads(path: Seq<char>, content: Seq<char>) -> bool {
    &&& definition_core_of_json(content) matches Some(c)
    &&& definition_location_of_json(content) matches Some(l)
    &&& spec_impl_type_of(c.3) matches Some(it)
    &&& (l.0 matches Some(sp) ==> resolved_script_path(path, sp) is Some)
    &&& (it is Script ==> l.0 is Some)
    &&& (it is McpServer ==> l.1 is Some)
}

/// The field relations between a parsed document and the definition built
/// from it.
pub open spec fn spec_built_from(path: Seq<char>, content: Seq<char>, def: ToolDefinition) -> bool {
    &&& definition_core_of_json(content) matches Some(c)
    &&& definition_location_of_json(content) matches Some(l)
    &&& spec_impl_type_of(c.3) matches Some(it)
    &&& def.name@ == c.0
    &&& def.description@ == c.1
    &&& def.parameters@ == c.2
    &&& def.implementation_type == it
    &&& match l.0 {
        None => def.script_path is None,
        Some(sp) => def.script_path matches Some(dsp) && resolved_script_path(path, sp) == Some(
            dsp@,
        ),
    }
    &&& def.server_url.deep_view() == l.1
    &&& def.timeout_ms == l.2
}

/// The error text a failed load yields.
pub open spec fn spec_load_err(path: Seq<char>, content: Seq<char>, e: Seq<char>) -> bool {
    match (definition_core_of_json(content), definition_location_of_json(content)) {
        (Some(c), Some(l)) => match spec_impl_type_of(c.3) {
            None => e == parse_fail_msg(path),
            Some(it) => {
                if l.0 matches Some(sp) && resolved_script_path(path, sp) is None {
                    e == "Invalid tool definition path"@
                } else {
                    ||| it is Script && l.0 is None && e == script_path_missing_msg(c.0)
                    ||| it is McpServer && l.1 is None && e == server_url_missing_msg(c.0)
                }
            },
        },
        _ => e == parse_fail_msg(path),
    }
}

impl ToolDefinition {
    /// Build a definition from the text of the definition file at `path`:
    /// parse the document, resolve a relative script path beside the file,
    /// and validate the result.
    pub fn from_text(path: &str, content: &str) -> (r: Result<ToolDefinition, String>)
        ensures
            r is Ok <==> spec_loads(path@, content@),
            r matches Ok(def) ==> spec_built_from(path@, content@, def) && def.valid(),
            r matches Err(e) ==> spec_load_err(path@, content@, e@),
    {
        let core = parse_definition_core(content);
        let loc = parse_definition_location(content);
        let (name, description, parameters, impl_tag) = match core {
            Some(c) => c,
            None => {
                return Err(parse_fail_err(path));
            },
        };
        let (script_raw, server_url, timeout_ms) = match loc {
            Some(l) => l,
            None => {
                return Err(parse_fail_err(path));
            },
        };
        let implementation_type = match impl_tag {
            None => ImplementationType::Builtin,
            Some(t) => {
                if str_eq(t.as_str(), "builtin") {
                    ImplementationType::Builtin
                } else if str_eq(t.as_str(), "script") {
                    ImplementationType::Script
                } else if str_eq(t.as_str(), "mcp_server") {
                    ImplementationType::McpServer
                } else {
                    return Err(parse_fail_err(path));
                }
            },
        };
        let script_path: Option<String> = match script_raw {
            None => None,
            Some(sp) => {
                let n = sp.unicode_len();
                let absolute = if n > 0 {
                    let c0 = sp.as_str().get_char(0);
                    c0 == '/' || c0 == '~'
                } else {
                    false
                };
                if absolute {
                    Some(sp)
                } else {
                    let d1 = match path_parent(path) {
                        Some(d) => d,
                        None => {
                            return Err(String::from_str("Invalid tool definition path"));
                        },
                    };
                    let d2 = match path_parent(d1.as_str()) {
                        Some(d) => d,
                        None => {
                            return Err(String::from_str("Invalid tool definition path"));
                        },
                    };
                    let scripts_dir = join_path(d2.as_str(), "scripts");
                    Some(join_path(scripts_dir.as_str(), sp.as_str()))
                }
            },
        };
        let def = ToolDefinition {
            name,
            description,
            parameters,
            implementation_type,
            script_path,
            server_url,
            timeout_ms,
        };
        match def.validate() {
            Ok(()) => Ok(def),
            Err(e) => Err(e),
        }
    }
}

fn parse_fail_err(path: &str) -> (e: String)
    ensures
        e@ == parse_fail_msg(path@),
{
    let mut e = String::from_str("Failed to parse tool definition from ");
    e.append(path);
    e
}

} // verus!
