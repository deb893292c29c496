//! The tools the model may call: their names and descriptions, the registry
//! that looks them up by name, and the argument handling and ordering logic of
//! `list_processes`. Reading the machine's state (and shaping the JSON
//! results) is done by the application.
use vstd::prelude::*;

use crate::json::{json_accepts, json_string_member, json_u64_member, string_member_of, u64_member_of};
use crate::stable_order::{lemma_insert_keeps_order, lemma_take_keeps_order, lists_positions, ordered_by};
use crate::text::{chars_equal, chars_of};

verus! {

/// The failure of a tool, with its message.
pub struct ToolError(pub String);

/// `get_system_info`: OS, kernel, CPU, memory and disk usage of the host.
#[derive(Clone, Copy, Debug, PartialEq, Eq, Structural)]
pub struct GetSystemInfoTool;

/// `list_processes`: the running processes, heaviest first.
#[derive(Clone, Copy, Debug, PartialEq, Eq, Structural)]
pub struct ListProcessesTool;

impl GetSystemInfoTool {
    pub fn name(&self) -> (r: &'static str)
        ensures
            r@ == "get_system_info"@,
    {
        "get_system_info"
    }

    pub fn description(&self) -> (r: &'static str)
        ensures
            r@ == "Get information about the host machine: operating system, kernel version, CPU, total/used RAM, and disk usage."@,
    {
        "Get information about the host machine: operating system, kernel version, CPU, total/used RAM, and disk usage."
    }

    /// Its result is narrated by the model, not shown as a panel.
    pub fn is_display_panel(&self) -> (r: bool)
        ensures
            !r,
    {
        false
    }
}

impl ListProcessesTool {
    pub fn name(&self) -> (r: &'static str)
        ensures
            r@ == "list_processes"@,
    {
        "list_processes"
    }

    pub fn description(&self) -> (r: &'static str)
        ensures
            r@ == "List running processes on the host machine, sorted by memory or CPU usage (highest first)."@,
    {
        "List running processes on the host machine, sorted by memory or CPU usage (highest first)."
    }

    /// Its result is narrated by the model, not shown as a panel.
    pub fn is_display_panel(&self) -> (r: bool)
        ensures
            !r,
    {
        false
    }
}

/// A tool of the registry.
#[derive(Clone, Copy, Debug, PartialEq, Eq, Structural)]
pub enum RegisteredTool {
    SystemInfo(GetSystemInfoTool),
    Processes(ListProcessesTool),
}

/// The name under which a tool is offered to the model.
pub open spec fn tool_name(t: RegisteredTool) -> Seq<char> {
    match t {
        RegisteredTool::SystemInfo(_) => "get_system_info"@,
        RegisteredTool::Processes(_) => "list_processes"@,
    }
}

/// The description under which a tool is offered to the model.
pub open spec fn tool_description(t: RegisteredTool) -> Seq<char> {
    match t {
        RegisteredTool::SystemInfo(_) => "Get information about the host machine: operating system, kernel version, CPU, total/used RAM, and disk usage."@,
        RegisteredTool::Processes(_) => "List running processes on the host machine, sorted by memory or CPU usage (highest first)."@,
    }
}

/// Whether a tool's result goes to a display panel instead of the model.
pub open spec fn tool_is_panel(t: RegisteredTool) -> bool {
    false
}

impl RegisteredTool {
    pub fn name(&self) -> (r: &'static str)
        ensures
            r@ == tool_name(*self),
    {
        match self {
            RegisteredTool::SystemInfo(t) => t.name(),
            RegisteredTool::Processes(t) => t.name(),
        }
    }

    pub fn description(&self) -> (r: &'static str)
        ensures
            r@ == tool_description(*self),
    {
        match self {
            RegisteredTool::SystemInfo(t) => t.description(),
            RegisteredTool::Processes(t) => t.description(),
        }
    }

    pub fn is_display_panel(&self) -> (r: bool)
        ensures
            r == tool_is_panel(*self),
    {
        match self {
            RegisteredTool::SystemInfo(t) => t.is_display_panel(),
            RegisteredTool::Processes(t) => t.is_display_panel(),
        }
    }
}

/// The first tool of `tools` named `name`.
pub open spec fn lookup(tools: Seq<RegisteredTool>, name: Seq<char>) -> Option<RegisteredTool>
    decreases tools.len(),
{
    if tools.len() == 0 {
        None
    } else if tool_name(tools[0]) == name {
        Some(tools[0])
    } else {
        lookup(tools.drop_first(), name)
    }
}

/// Looking a name up finds a tool of that name, and finds one whenever the
/// list has one.
pub proof fn law_lookup_finds_named_tool(tools: Seq<RegisteredTool>, name: Seq<char>)
    ensures
        lookup(tools, name) matches Some(t) ==> tool_name(t) == name && tools.contains(t),
        (exists|i: int| 0 <= i < tools.len() && tool_name(#[trigger] tools[i]) == name) ==> lookup(
            tools,
            name,
        ) is Some,
    decreases tools.len(),
{
    if tools.len() > 0 {
        law_lookup_finds_named_tool(tools.drop_first(), name);
        if tool_name(tools[0]) != name {
            if lookup(tools, name) is Some {
                let t = lookup(tools, name).unwrap();
                assert(tools.drop_first().contains(t));
                let k = choose|k: int| 0 <= k < tools.drop_first().len() && tools.drop_first()[k] == t;
                assert(tools[k + 1] == t);
            }
            if exists|i: int| 0 <= i < tools.len() && tool_name(#[trigger] tools[i]) == name {
                let i = choose|i: int| 0 <= i < tools.len() && tool_name(#[trigger] tools[i]) == name;
                assert(i != 0);
                assert(tools.drop_first()[i - 1] == tools[i]);
            }
        } else {
            assert(tools[0] == tools[0]);
            assert(tools.contains(tools[0]));
        }
    }
}

/// The two standard tools have different names, so each is found under its
/// own.
pub proof fn law_standard_tools_found_by_name()
    ensures
        lookup(standard_tools(), "get_system_info"@) == Some(
            RegisteredTool::SystemInfo(GetSystemInfoTool),
        ),
        lookup(standard_tools(), "list_processes"@) == Some(RegisteredTool::Processes(ListProcessesTool)),
{
    reveal_strlit("get_system_info");
    reveal_strlit("list_processes");
    let t = standard_tools();
    assert(tool_name(t[0]) != "list_processes"@) by {
        assert("get_system_info"@.len() != "list_processes"@.len());
    }
    assert(t.drop_first()[0] == t[1]);
    assert(lookup(t.drop_first(), "list_processes"@) == Some(t[1]));
    assert(lookup(t, "list_processes"@) == lookup(t.drop_first(), "list_processes"@));
}

/// The system-information tools, in order.
pub fn tools() -> (r: Vec<RegisteredTool>)
    ensures
        r@ == standard_tools(),
{
    let mut r: Vec<RegisteredTool> = Vec::new();
    r.push(RegisteredTool::SystemInfo(GetSystemInfoTool));
    r.push(RegisteredTool::Processes(ListProcessesTool));
    assert(r@ =~= standard_tools());
    r
}

/// The tools offered to the model.
pub struct ToolRegistry {
    tools: Vec<RegisteredTool>,
}

/// The tools a new registry holds, in order.
pub open spec fn standard_tools() -> Seq<RegisteredTool> {
    seq![
        RegisteredTool::SystemInfo(GetSystemInfoTool),
        RegisteredTool::Processes(ListProcessesTool),
    ]
}

impl ToolRegistry {
    pub closed spec fn tools(&self) -> Seq<RegisteredTool> {
        self.tools@
    }

    /// A registry of the system-information tools.
    pub fn new() -> (r: ToolRegistry)
        ensures
            r.tools() == standard_tools(),
    {
        ToolRegistry { tools: tools() }
    }

    /// The registered tools, in order.
    pub fn entries(&self) -> (r: Vec<RegisteredTool>)
        ensures
            r@ == self.tools(),
    {
        self.tools.clone()
    }

    /// The tool registered under `name`.
    pub fn get(&self, name: &str) -> (r: Option<RegisteredTool>)
        ensures
            r == lookup(self.tools(), name@),
    {
        let wanted = chars_of(name);
        let mut i: usize = 0;
        assert(self.tools@.skip(0) =~= self.tools@);
        while i < self.tools.len()
            invariant
                i <= self.tools@.len(),
                wanted@ == name@,
                lookup(self.tools@, name@) == lookup(self.tools@.skip(i as int), name@),
            decreases self.tools@.len() - i,
        {
            let t = self.tools[i];
            let tn = chars_of(t.name());
            let ghost rest = self.tools@.skip(i as int);
            assert(rest[0] == t);
            assert(rest.drop_first() =~= self.tools@.skip(i + 1));
            if chars_equal(&tn, &wanted) {
                return Some(t);
            }
            i = i + 1;
        }
        None
    }

    /// Whether the tool called `name` is a display-panel tool; false for an
    /// unknown name.
    pub fn is_display_panel(&self, name: &str) -> (r: bool)
        ensures
            r == match lookup(self.tools(), name@) {
                Some(t) => tool_is_panel(t),
                None => false,
            },
    {
        match self.get(name) {
            Some(t) => t.is_display_panel(),
            None => false,
        }
    }
}

impl Default for ToolRegistry {
    fn default() -> (r: ToolRegistry)
        ensures
            r.tools() == standard_tools(),
    {
        ToolRegistry::new()
    }
}

// ---------------------------------------------------------------------------
// Dispatching a tool call
// ---------------------------------------------------------------------------

/// The message reported for a call to a tool that is not registered.
pub fn unknown_tool_message(name: &str) -> (r: String)
    ensures
        r@ == "unknown tool: "@ + name@,
{
    let mut v = chars_of("unknown tool: ");
    crate::text::push_str(&mut v, name);
    crate::text::string_from_chars(&v)
}

// ---------------------------------------------------------------------------
// list_processes
// ---------------------------------------------------------------------------

/// How `list_processes` orders and cuts its list.
pub struct ListProcessesOptions {
    /// `"cpu"` sorts by CPU usage; anything else by memory. Echoed back in the
    /// tool's result.
    pub sort_by: String,
    /// How many processes to report, between 1 and 100.
    pub limit: usize,
}

/// The limit asked for, defaulting to 10 and clamped to `1..=100`.
pub open spec fn clamped_limit(limit: Option<u64>) -> int {
    let l = match limit {
        Some(l) => l as int,
        None => 10,
    };
    if l < 1 {
        1
    } else if l > 100 {
        100
    } else {
        l
    }
}

/// The number of processes to list: 10 when no limit is given; a given
/// limit is kept when it is between 1 and 100, and otherwise raised to 1
/// or lowered to 100.
pub proof fn law_limit_is_clamped(limit: Option<u64>)
    ensures
        limit is None ==> clamped_limit(limit) == 10,
        forall|l: u64| limit == Some(l) && 1 <= l <= 100 ==> clamped_limit(limit) == l,
        forall|l: u64| limit == Some(l) && l < 1 ==> clamped_limit(limit) == 1,
        forall|l: u64| limit == Some(l) && l > 100 ==> clamped_limit(limit) == 100,
{
}

impl ListProcessesOptions {
    /// The options from the argument fields that were present: `sort_by`
    /// defaults to `"memory"`, `limit` to 10 and is clamped to `1..=100`.
    pub fn from_fields(sort_by: Option<String>, limit: Option<u64>) -> (r: ListProcessesOptions)
        ensures
            r.sort_by@ == match sort_by {
                Some(s) => s@,
                None => "memory"@,
            },
            r.limit == clamped_limit(limit),
    {
        let sort_by = match sort_by {
            Some(s) => s,
            None => "memory".to_owned(),
        };
        let l: u64 = match limit {
            Some(l) => l,
            None => 10,
        };
        let l: u64 = if l < 1 {
            1
        } else if l > 100 {
            100
        } else {
            l
        };
        ListProcessesOptions { sort_by, limit: l as usize }
    }

    /// The options of a call's raw JSON arguments: its `sort_by` member when
    /// that is a string (else `"memory"`), and its `limit` member when that is
    /// an unsigned integer (else 10), clamped to `1..=100`. Blank or invalid
    /// text has no members, so it gives the defaults.
    pub fn from_args(raw_arguments: &str) -> (r: ListProcessesOptions)
        ensures
            r.sort_by@ == match string_member_of(raw_arguments@, "sort_by"@) {
                Some(s) => s,
                None => "memory"@,
            },
            r.limit == clamped_limit(u64_member_of(raw_arguments@, "limit"@)),
            1 <= r.limit <= 100,
            !json_accepts(raw_arguments@) ==> r.sort_by@ == "memory"@ && r.limit == 10,
    {
        let sort_by = json_string_member(raw_arguments, "sort_by");
        let limit = json_u64_member(raw_arguments, "limit");
        ListProcessesOptions::from_fields(sort_by, limit)
    }

    /// Whether processes are ranked by CPU usage (rather than memory).
    pub fn by_cpu(&self) -> (r: bool)
        ensures
            r == (self.sort_by@ == "cpu"@),
    {
        let s = chars_of(self.sort_by.as_str());
        let cpu = chars_of("cpu");
        chars_equal(&s, &cpu)
    }
}

/// Process `a` comes before process `b` when ranked by memory, heaviest
/// first, equal amounts keeping their original order (a stable sort).
pub open spec fn precedes(memory: Seq<u64>, a: int, b: int) -> bool {
    memory[a] > memory[b] || (memory[a] == memory[b] && a < b)
}

/// `r` lists the first `k` processes of the stable heaviest-first order of
/// `memory`, by their positions.
pub open spec fn is_top_by_memory(memory: Seq<u64>, r: Seq<usize>, k: int) -> bool {
    &&& r.len() == k
    &&& forall|i: int| 0 <= i < r.len() ==> #[trigger] r[i] < memory.len()
    &&& forall|i: int, j: int| 0 <= i < j < r.len() ==> precedes(memory, #[trigger] r[i] as int, #[trigger] r[j] as int)
    &&& forall|x: int, i: int|
        0 <= x < memory.len() && !r.contains(x as usize) && 0 <= i < r.len() ==> #[trigger] precedes(
            memory,
            r[i] as int,
            x,
        )
}

/// The ranking compares the full amounts of memory: when process `x` uses
/// more memory than a listed process `y` (or as much, and comes first), `x`
/// is listed too, and before `y`.
pub proof fn law_heavier_processes_come_first(
    memory: Seq<u64>,
    r: Seq<usize>,
    k: int,
    x: int,
    y: int,
)
    requires
        is_top_by_memory(memory, r, k),
        memory.len() <= usize::MAX,
        0 <= x < memory.len(),
        0 <= y < memory.len(),
        exists|j: int| 0 <= j < r.len() && r[j] as int == y,
        memory[x] > memory[y] || (memory[x] == memory[y] && x < y),
    ensures
        exists|ix: int, iy: int|
            0 <= ix < iy < r.len() && r[ix] as int == x && r[iy] as int == y,
{
    let iy = choose|iy: int| 0 <= iy < r.len() && r[iy] as int == y;
    if !r.contains(x as usize) {
        assert(precedes(memory, r[iy] as int, x));
        assert(false);
    }
    let ix = choose|ix: int| 0 <= ix < r.len() && r[ix] == x as usize;
    assert(r[ix] as int == x);
    if iy < ix {
        assert(precedes(memory, r[iy] as int, r[ix] as int));
        assert(false);
    }
    assert(ix != iy);
    assert(0 <= ix < iy < r.len() && r[ix] as int == x && r[iy] as int == y);
}

/// The positions of the `limit` processes using the most memory, heaviest
/// first, ties in their original order.
pub fn top_by_memory(memory: &Vec<u64>, limit: usize) -> (r: Vec<usize>)
    ensures
        is_top_by_memory(memory@, r@, if limit < memory@.len() { limit as int } else { memory@.len() as int }),
{
    let ghost heavier = |a: int, b: int| precedes(memory@, a, b);
    proof {
        assert forall|x: int, y: int, z: int| #[trigger] heavier(x, y) && #[trigger] heavier(y, z) implies heavier(
            x,
            z,
        ) by {}
    }
    let n = memory.len();
    let mut order: Vec<usize> = Vec::new();
    let mut i: usize = 0;
    while i < n
        invariant
            i <= n,
            n == memory@.len(),
            heavier == (|a: int, b: int| precedes(memory@, a, b)),
            forall|x: int, y: int, z: int| #[trigger] heavier(x, y) && #[trigger] heavier(y, z) ==> heavier(x, z),
            order@.len() == i,
            lists_positions(order@, i as int),
            ordered_by(order@, heavier),
        decreases n - i,
    {
        let key = memory[i];
        let mut pos: usize = 0;
        while pos < order.len() && memory[order[pos]] >= key
            invariant
                pos <= order@.len(),
                n == memory@.len(),
                i < n,
                key == memory@[i as int],
                lists_positions(order@, i as int),
                forall|a: int| 0 <= a < pos ==> memory@[#[trigger] order@[a] as int] >= memory@[i as int],
            decreases order@.len() - pos,
        {
            assert(memory@[order@[pos as int] as int] >= memory@[i as int]);
            pos = pos + 1;
        }
        proof {
            assert forall|a: int| 0 <= a < pos implies #[trigger] heavier(order@[a] as int, i as int) by {
                assert(order@[a] < i);
                assert(memory@[order@[a] as int] >= memory@[i as int]);
            }
            lemma_insert_keeps_order(order@, pos as int, i, heavier);
        }
        order.insert(pos, i);
        i = i + 1;
    }
    let k = if limit < n {
        limit
    } else {
        n
    };
    proof {
        lemma_take_keeps_order(order@, n, k as int, heavier);
    }
    let ghost full = order@;
    order.truncate(k);
    proof {
        assert(order@ == full.take(k as int));
        assert forall|a: int| 0 <= a < order@.len() implies #[trigger] order@[a] < memory@.len() by {
            assert(order@[a] == full[a]);
        }
        assert forall|a: int, b: int| 0 <= a < b < order@.len() implies precedes(
            memory@,
            #[trigger] order@[a] as int,
            #[trigger] order@[b] as int,
        ) by {
            assert(heavier(order@[a] as int, order@[b] as int));
        }
        assert forall|x: int, a: int|
            0 <= x < memory@.len() && !order@.contains(x as usize) && 0 <= a < order@.len() implies #[trigger] precedes(
            memory@,
            order@[a] as int,
            x,
        ) by {
            assert(heavier(order@[a] as int, x));
        }
    }
    order
}

} // verus!
