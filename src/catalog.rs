//! The immutable set of declared tools, built once at startup.

use vstd::prelude::*;
use crate::mapping::CommandParameterMapping;

verus! {

/// The externally visible description of a tool: its name, and its whole
/// specification (name, description, input schema) as a JSON object text.
pub struct Tool {
    pub name: String,
    pub spec_json: String,
}

impl Clone for Tool {
    fn clone(&self) -> (r: Tool)
        ensures
            r == *self,
    {
        Tool { name: self.name.clone(), spec_json: self.spec_json.clone() }
    }
}

/// A declared tool: the executable to run, the template of its command line,
/// and the specification shown to callers.
pub struct ToolDefinition {
    /// Shell script or executable program to run.
    pub command: String,
    /// Command-line template entries, in order; absent means none.
    pub command_parameters: Option<Vec<CommandParameterMapping>>,
    /// The specification shown to callers; its name identifies the tool.
    pub mcp_tool_spec: Tool,
}

impl ToolDefinition {
    /// The template entries of this tool, absent read as none.
    pub open spec fn mappings(&self) -> Seq<CommandParameterMapping> {
        match self.command_parameters {
            Some(v) => v@,
            None => seq![],
        }
    }

    pub open spec fn name(&self) -> Seq<char> {
        self.mcp_tool_spec.name@
    }

    /// Every template entry of this tool is usable.
    pub open spec fn mappings_valid(&self) -> bool {
        forall|k: int| 0 <= k < self.mappings().len() ==> #[trigger] self.mappings()[k].valid()
    }
}

/// Why a list of tool declarations cannot form a catalog.
pub enum ConfigError {
    /// A tool has a template entry with neither an argument nor a switch.
    InvalidMapping(String),
    /// Two tools share this name.
    DuplicateName(String),
}

/// What is wrong with the `i`-th declaration, given those before it: an
/// unusable template entry, else a name used earlier.
pub enum Fault {
    InvalidMapping(Seq<char>),
    DuplicateName(Seq<char>),
}

pub open spec fn fault_at(defs: Seq<ToolDefinition>, i: int) -> Option<Fault> {
    if !defs[i].mappings_valid() {
        Some(Fault::InvalidMapping(defs[i].name()))
    } else if exists|j: int| 0 <= j < i && #[trigger] defs[j].name() == defs[i].name() {
        Some(Fault::DuplicateName(defs[i].name()))
    } else {
        None
    }
}

pub open spec fn names_unique(defs: Seq<ToolDefinition>) -> bool {
    forall|i: int, j: int|
        0 <= i < defs.len() && 0 <= j < defs.len() && i != j ==> #[trigger] defs[i].name()
            != #[trigger] defs[j].name()
}

/// A list of declarations that forms a catalog.
pub open spec fn declarations_valid(defs: Seq<ToolDefinition>) -> bool {
    &&& names_unique(defs)
    &&& forall|i: int| 0 <= i < defs.len() ==> #[trigger] defs[i].mappings_valid()
}

impl ConfigError {
    pub open spec fn fault(&self) -> Fault {
        match self {
            ConfigError::InvalidMapping(n) => Fault::InvalidMapping(n@),
            ConfigError::DuplicateName(n) => Fault::DuplicateName(n@),
        }
    }
}

/// The first declaration whose name is `name`.
pub open spec fn lookup_spec(defs: Seq<ToolDefinition>, name: Seq<char>) -> Option<ToolDefinition>
    decreases defs.len(),
{
    if defs.len() == 0 {
        None
    } else {
        match lookup_spec(defs.drop_last(), name) {
            Some(d) => Some(d),
            None => if defs.last().name() == name {
                Some(defs.last())
            } else {
                None
            },
        }
    }
}

/// The tool specifications of a list of declarations, in order.
pub open spec fn specs_of(defs: Seq<ToolDefinition>) -> Seq<Tool> {
    defs.map_values(|d: ToolDefinition| d.mcp_tool_spec)
}

/// The declared tools, in declaration order, with unique names.
pub struct ToolCatalog {
    tools: Vec<ToolDefinition>,
}

impl View for ToolCatalog {
    type V = Seq<ToolDefinition>;

    closed spec fn view(&self) -> Seq<ToolDefinition> {
        self.tools@
    }
}

proof fn lemma_lookup_prefix(defs: Seq<ToolDefinition>, k: int, name: Seq<char>)
    requires
        0 <= k <= defs.len(),
        lookup_spec(defs.take(k), name) is Some,
    ensures
        lookup_spec(defs, name) == lookup_spec(defs.take(k), name),
    decreases defs.len() - k,
{
    if k < defs.len() {
        assert(defs.take(k + 1).drop_last() =~= defs.take(k));
        lemma_lookup_prefix(defs, k + 1, name);
    } else {
        assert(defs.take(k) =~= defs);
    }
}

/// A name that no declaration carries finds none.
pub proof fn lemma_lookup_none(defs: Seq<ToolDefinition>, name: Seq<char>)
    requires
        forall|i: int| 0 <= i < defs.len() ==> #[trigger] defs[i].name() != name,
    ensures
        lookup_spec(defs, name) is None,
    decreases defs.len(),
{
    if defs.len() > 0 {
        let d = defs.drop_last();
        assert forall|i: int| 0 <= i < d.len() implies #[trigger] d[i].name() != name by {
            assert(d[i] == defs[i]);
        }
        lemma_lookup_none(d, name);
    }
}

/// Whatever is found carries the name, and with unique names it is found
/// exactly where the name stands.
pub proof fn lemma_lookup_at(defs: Seq<ToolDefinition>, i: int)
    requires
        names_unique(defs),
        0 <= i < defs.len(),
    ensures
        lookup_spec(defs, defs[i].name()) == Some(defs[i]),
    decreases defs.len(),
{
    let name = defs[i].name();
    let d = defs.drop_last();
    if i == defs.len() - 1 {
        assert forall|j: int| 0 <= j < d.len() implies #[trigger] d[j].name() != name by {
            assert(d[j] == defs[j]);
        }
        lemma_lookup_none(d, name);
    } else {
        assert forall|a: int, b: int|
            0 <= a < d.len() && 0 <= b < d.len() && a != b implies #[trigger] d[a].name()
            != #[trigger] d[b].name() by {
            assert(d[a] == defs[a] && d[b] == defs[b]);
        }
        lemma_lookup_at(d, i);
        assert(d[i] == defs[i]);
    }
}

impl ToolCatalog {
    pub open spec fn wf(&self) -> bool {
        declarations_valid(self@)
    }

    /// Builds the catalog from the declarations, in their order. Fails with the
    /// fault of the first declaration that has one.
    pub fn new(defs: Vec<ToolDefinition>) -> (r: Result<ToolCatalog, ConfigError>)
        ensures
            match r {
                Ok(c) => c.wf() && c@ == defs@,
                Err(e) => exists|i: int|
                    0 <= i < defs@.len() && #[trigger] fault_at(defs@, i) == Some(e.fault()) && forall|j: int|
                        0 <= j < i ==> #[trigger] fault_at(defs@, j) is None,
            },
            r is Ok <==> declarations_valid(defs@),
    {
        let n = defs.len();
        let mut i: usize = 0;
        while i < n
            invariant
                n == defs@.len(),
                i <= n,
                forall|j: int| 0 <= j < i ==> #[trigger] fault_at(defs@, j) is None,
            decreases n - i,
        {
            let d = &defs[i];
            let name = &d.mcp_tool_spec.name;
            match &d.command_parameters {
                Some(ms) => {
                    let m = ms.len();
                    let mut k: usize = 0;
                    while k < m
                        invariant
                            i < n,
                            n == defs@.len(),
                            d == defs@[i as int],
                            name == d.mcp_tool_spec.name,
                            forall|q: int| 0 <= q < i ==> #[trigger] fault_at(defs@, q) is None,
                            d.command_parameters == Some(*ms),
                            m == ms@.len(),
                            k <= m,
                            forall|q: int| 0 <= q < k ==> #[trigger] ms@[q].valid(),
                        decreases m - k,
                    {
                        if !ms[k].is_valid() {
                            proof {
                                assert(d.mappings()[k as int] == ms@[k as int]);
                                assert(fault_at(defs@, i as int) == Some(
                                    Fault::InvalidMapping(d.name()),
                                ));
                            }
                            let e = ConfigError::InvalidMapping(name.clone());
                            assert(fault_at(defs@, i as int) == Some(e.fault()));
                            return Err(e);
                        }
                        k += 1;
                    }
                },
                None => {},
            }
            assert(d.mappings_valid());
            let mut j: usize = 0;
            while j < i
                invariant
                    d == defs@[i as int],
                    name == d.mcp_tool_spec.name,
                    i < n,
                    n == defs@.len(),
                    j <= i,
                    d.mappings_valid(),
                    forall|q: int| 0 <= q < i ==> #[trigger] fault_at(defs@, q) is None,
                    forall|q: int| 0 <= q < j ==> #[trigger] defs@[q].name() != d.name(),
                decreases i - j,
            {
                if defs[j].mcp_tool_spec.name == *name {
                    proof {
                        assert(defs@[j as int].name() == d.name());
                        assert(fault_at(defs@, i as int) == Some(Fault::DuplicateName(d.name())));
                    }
                    let e = ConfigError::DuplicateName(name.clone());
                    assert(fault_at(defs@, i as int) == Some(e.fault()));
                    return Err(e);
                }
                j += 1;
            }
            i += 1;
        }
        proof {
            assert forall|a: int, b: int|
                0 <= a < defs@.len() && 0 <= b < defs@.len() && a != b implies #[trigger] defs@[a].name()
                != #[trigger] defs@[b].name() by {
                if a < b {
                    assert(fault_at(defs@, b) is None);
                } else {
                    assert(fault_at(defs@, a) is None);
                }
            }
            assert forall|q: int| 0 <= q < defs@.len() implies #[trigger] defs@[q].mappings_valid() by {
                assert(fault_at(defs@, q) is None);
            }
        }
        Ok(ToolCatalog { tools: defs })
    }

    /// The declaration named `name`, if the catalog has one.
    pub fn lookup(&self, name: &String) -> (r: Option<&ToolDefinition>)
        ensures
            match r {
                Some(d) => lookup_spec(self@, name@) == Some(*d),
                None => lookup_spec(self@, name@) is None,
            },
    {
        let n = self.tools.len();
        let mut i: usize = 0;
        while i < n
            invariant
                n == self@.len(),
                i <= n,
                lookup_spec(self@.take(i as int), name@) is None,
            decreases n - i,
        {
            proof {
                assert(self@.take(i as int + 1).drop_last() =~= self@.take(i as int));
            }
            if self.tools[i].mcp_tool_spec.name == *name {
                proof {
                    lemma_lookup_prefix(self@, i as int + 1, name@);
                }
                return Some(&self.tools[i]);
            }
            i += 1;
        }
        proof {
            assert(self@.take(n as int) =~= self@);
        }
        None
    }

    /// The specifications of all tools, in declaration order.
    pub fn list_all(&self) -> (r: Vec<Tool>)
        ensures
            r@ == specs_of(self@),
    {
        let mut out: Vec<Tool> = Vec::new();
        let n = self.tools.len();
        let mut i: usize = 0;
        while i < n
            invariant
                n == self@.len(),
                i <= n,
                out@ == specs_of(self@.take(i as int)),
            decreases n - i,
        {
            out.push(self.tools[i].mcp_tool_spec.clone());
            proof {
                assert(specs_of(self@.take(i as int + 1)) =~= specs_of(self@.take(i as int)).push(
                    self@[i as int].mcp_tool_spec,
                ));
            }
            i += 1;
        }
        proof {
            assert(self@.take(n as int) =~= self@);
        }
        out
    }
}

} // verus!
