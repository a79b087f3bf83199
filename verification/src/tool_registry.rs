//! The tool registry: which agents may run, with their limits.

use vstd::prelude::*;
use crate::text::str_eq;

verus! {

/// What a tool may do: whether it runs at all, its time limit in seconds, whether it runs in
/// the sandbox, and how often it is retried.
#[derive(Debug, Clone, Copy)]
pub struct ToolSpec {
    pub name: &'static str,
    pub allowed: bool,
    pub timeout_secs: u64,
    pub requires_sandbox: bool,
    pub max_retries: u32,
}

pub struct ToolSpecView {
    pub name: Seq<char>,
    pub allowed: bool,
    pub timeout_secs: u64,
    pub requires_sandbox: bool,
    pub max_retries: u32,
}

impl View for ToolSpec {
    type V = ToolSpecView;

    open spec fn view(&self) -> ToolSpecView {
        ToolSpecView {
            name: self.name@,
            allowed: self.allowed,
            timeout_secs: self.timeout_secs,
            requires_sandbox: self.requires_sandbox,
            max_retries: self.max_retries,
        }
    }
}

pub open spec fn tool(name: Seq<char>, timeout_secs: u64, requires_sandbox: bool, max_retries: u32) -> ToolSpecView {
    ToolSpecView { name, allowed: true, timeout_secs, requires_sandbox, max_retries }
}

/// The registered tools.
pub open spec fn tool_spec(name: Seq<char>) -> Option<ToolSpecView> {
    if name == "voice"@ {
        Some(tool("voice"@, 10, false, 1))
    } else if name == "mobile"@ {
        Some(tool("mobile"@, 15, false, 0))
    } else if name == "browser"@ {
        Some(tool("browser"@, 30, true, 2))
    } else if name == "coder"@ {
        Some(tool("coder"@, 20, true, 2))
    } else if name == "vision"@ {
        Some(tool("vision"@, 25, true, 1))
    } else if name == "calendar"@ {
        Some(tool("calendar"@, 5, false, 0))
    } else if name == "gmail"@ {
        Some(tool("gmail"@, 10, false, 1))
    } else if name == "repair"@ {
        Some(tool("repair"@, 60, true, 3))
    } else {
        None
    }
}

fn make(name: &'static str, timeout_secs: u64, requires_sandbox: bool, max_retries: u32) -> (r: ToolSpec)
    ensures
        r@ == tool(name@, timeout_secs, requires_sandbox, max_retries),
{
    ToolSpec { name, allowed: true, timeout_secs, requires_sandbox, max_retries }
}

pub struct ToolRegistry;

impl ToolRegistry {
    /// The specification of the tool named `tool_name`, if it is registered.
    pub fn get_spec(tool_name: &str) -> (r: Option<ToolSpec>)
        ensures
            match r {
                Some(s) => tool_spec(tool_name@) == Some(s@),
                None => tool_spec(tool_name@) is None,
            },
    {
        if str_eq(tool_name, "voice") {
            Some(make("voice", 10, false, 1))
        } else if str_eq(tool_name, "mobile") {
            Some(make("mobile", 15, false, 0))
        } else if str_eq(tool_name, "browser") {
            Some(make("browser", 30, true, 2))
        } else if str_eq(tool_name, "coder") {
            Some(make("coder", 20, true, 2))
        } else if str_eq(tool_name, "vision") {
            Some(make("vision", 25, true, 1))
        } else if str_eq(tool_name, "calendar") {
            Some(make("calendar", 5, false, 0))
        } else if str_eq(tool_name, "gmail") {
            Some(make("gmail", 10, false, 1))
        } else if str_eq(tool_name, "repair") {
            Some(make("repair", 60, true, 3))
        } else {
            None
        }
    }

    /// Whether the tool is registered and allowed to run.
    pub fn is_allowed(tool_name: &str) -> (r: bool)
        ensures
            r == match tool_spec(tool_name@) {
                Some(s) => s.allowed,
                None => false,
            },
    {
        match Self::get_spec(tool_name) {
            Some(s) => s.allowed,
            None => false,
        }
    }
}

/// The registry holds a tool for exactly the eight agents voice, mobile, browser, coder,
/// vision, calendar, gmail and repair; each tool is registered under its own name and may run.
pub proof fn law_registered_tools(name: Seq<char>)
    ensures
        tool_spec(name) is Some <==> (name == "voice"@ || name == "mobile"@ || name == "browser"@ || name == "coder"@ || name == "vision"@ || name == "calendar"@ || name == "gmail"@ || name == "repair"@),
        tool_spec(name) matches Some(t) ==> t.name == name && t.allowed,
{
    reveal_strlit("voice");
    assert("voice"@.len() == 5 && "voice"@[0] == 'v');
    reveal_strlit("mobile");
    assert("mobile"@.len() == 6 && "mobile"@[0] == 'm');
    reveal_strlit("browser");
    assert("browser"@.len() == 7 && "browser"@[0] == 'b');
    reveal_strlit("coder");
    assert("coder"@.len() == 5 && "coder"@[0] == 'c');
    reveal_strlit("vision");
    assert("vision"@.len() == 6 && "vision"@[0] == 'v');
    reveal_strlit("calendar");
    assert("calendar"@.len() == 8 && "calendar"@[0] == 'c');
    reveal_strlit("gmail");
    assert("gmail"@.len() == 5 && "gmail"@[0] == 'g');
    reveal_strlit("repair");
    assert("repair"@.len() == 6 && "repair"@[0] == 'r');
}

/// The limits of each registered tool: time limit in seconds, sandbox, retries.
pub proof fn law_tool_limits()
    ensures
        tool_spec("voice"@) == Some(ToolSpecView { name: "voice"@, allowed: true, timeout_secs: 10, requires_sandbox: false, max_retries: 1 }),
        tool_spec("mobile"@) == Some(ToolSpecView { name: "mobile"@, allowed: true, timeout_secs: 15, requires_sandbox: false, max_retries: 0 }),
        tool_spec("browser"@) == Some(ToolSpecView { name: "browser"@, allowed: true, timeout_secs: 30, requires_sandbox: true, max_retries: 2 }),
        tool_spec("coder"@) == Some(ToolSpecView { name: "coder"@, allowed: true, timeout_secs: 20, requires_sandbox: true, max_retries: 2 }),
        tool_spec("vision"@) == Some(ToolSpecView { name: "vision"@, allowed: true, timeout_secs: 25, requires_sandbox: true, max_retries: 1 }),
        tool_spec("calendar"@) == Some(ToolSpecView { name: "calendar"@, allowed: true, timeout_secs: 5, requires_sandbox: false, max_retries: 0 }),
        tool_spec("gmail"@) == Some(ToolSpecView { name: "gmail"@, allowed: true, timeout_secs: 10, requires_sandbox: false, max_retries: 1 }),
        tool_spec("repair"@) == Some(ToolSpecView { name: "repair"@, allowed: true, timeout_secs: 60, requires_sandbox: true, max_retries: 3 }),
{
    reveal_strlit("voice");
    assert("voice"@.len() == 5 && "voice"@[0] == 'v');
    reveal_strlit("mobile");
    assert("mobile"@.len() == 6 && "mobile"@[0] == 'm');
    reveal_strlit("browser");
    assert("browser"@.len() == 7 && "browser"@[0] == 'b');
    reveal_strlit("coder");
    assert("coder"@.len() == 5 && "coder"@[0] == 'c');
    reveal_strlit("vision");
    assert("vision"@.len() == 6 && "vision"@[0] == 'v');
    reveal_strlit("calendar");
    assert("calendar"@.len() == 8 && "calendar"@[0] == 'c');
    reveal_strlit("gmail");
    assert("gmail"@.len() == 5 && "gmail"@[0] == 'g');
    reveal_strlit("repair");
    assert("repair"@.len() == 6 && "repair"@[0] == 'r');
}

} // verus!
