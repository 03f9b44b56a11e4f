//! Where the external tools are.
//!
//! For each tool the search order is: the path that its environment variable
//! names, the directory of the running program, the system path.

use crate::text::opt_text;
use vstd::prelude::*;
use vstd::string::*;

verus! {

/// An external tool.
#[derive(Debug, Clone, Copy, PartialEq, Eq, Structural)]
pub enum Tool {
    Ffmpeg,
    Ffprobe,
    Atracdenc,
    Atracenc,
    Wmv9,
}

impl Tool {
    pub open spec fn name_text(self) -> Seq<char> {
        match self {
            Tool::Ffmpeg => "ffmpeg"@,
            Tool::Ffprobe => "ffprobe"@,
            Tool::Atracdenc => "atracdenc"@,
            Tool::Atracenc => "atracenc"@,
            Tool::Wmv9 => "bbt-wmv9"@,
        }
    }

    pub open spec fn variable_text(self) -> Seq<char> {
        match self {
            Tool::Ffmpeg => "BBT_FFMPEG_PATH"@,
            Tool::Ffprobe => "BBT_FFPROBE_PATH"@,
            Tool::Atracdenc => "BBT_ATRACDENC_PATH"@,
            Tool::Atracenc => "BBT_ATRACENC_PATH"@,
            Tool::Wmv9 => "BBT_WMV9_PATH"@,
        }
    }

    /// The name of the program.
    pub fn name(self) -> (r: &'static str)
        ensures
            r@ == self.name_text(),
    {
        match self {
            Tool::Ffmpeg => "ffmpeg",
            Tool::Ffprobe => "ffprobe",
            Tool::Atracdenc => "atracdenc",
            Tool::Atracenc => "atracenc",
            Tool::Wmv9 => "bbt-wmv9",
        }
    }

    /// The environment variable that may name its path.
    pub fn variable(self) -> (r: &'static str)
        ensures
            r@ == self.variable_text(),
    {
        match self {
            Tool::Ffmpeg => "BBT_FFMPEG_PATH",
            Tool::Ffprobe => "BBT_FFPROBE_PATH",
            Tool::Atracdenc => "BBT_ATRACDENC_PATH",
            Tool::Atracenc => "BBT_ATRACENC_PATH",
            Tool::Wmv9 => "BBT_WMV9_PATH",
        }
    }
}

/// A path that an environment variable names.
#[derive(Debug)]
pub struct NamedPath {
    pub path: String,
    pub exists: bool,
}

/// Where the machine has one tool.
#[derive(Debug)]
pub struct ToolFacts {
    pub named: Option<NamedPath>,
    pub alongside: Option<String>,
    pub on_path: Option<String>,
}

/// Where the machine has each of the tools.
#[derive(Debug)]
pub struct HostTools {
    pub ffmpeg: ToolFacts,
    pub ffprobe: ToolFacts,
    pub atracdenc: ToolFacts,
    pub atracenc: ToolFacts,
    pub wmv9: ToolFacts,
}

/// The path at which a tool is taken.
pub open spec fn located(facts: ToolFacts) -> Option<Seq<char>> {
    if facts.named matches Some(n) && n.exists {
        Some(facts.named->0.path@)
    } else if facts.alongside is Some {
        opt_text(facts.alongside)
    } else {
        opt_text(facts.on_path)
    }
}

pub fn find_tool(facts: &ToolFacts) -> (r: Option<String>)
    ensures
        opt_text(r) == located(*facts),
{
    if let Some(n) = &facts.named {
        if n.exists {
            return Some(n.path.clone());
        }
    }
    if let Some(p) = &facts.alongside {
        return Some(p.clone());
    }
    facts.on_path.clone()
}

/// The path of `ffmpeg`.
pub fn find_ffmpeg(host: &HostTools) -> (r: Option<String>)
    ensures
        opt_text(r) == located(host.ffmpeg),
{
    find_tool(&host.ffmpeg)
}

/// The path of `ffprobe`.
pub fn find_ffprobe(host: &HostTools) -> (r: Option<String>)
    ensures
        opt_text(r) == located(host.ffprobe),
{
    find_tool(&host.ffprobe)
}

/// The path at which the ATRAC encoder is taken: `atracdenc`, else `atracenc`.
pub open spec fn located_atrac(host: HostTools) -> Option<Seq<char>> {
    if located(host.atracdenc) is Some {
        located(host.atracdenc)
    } else {
        located(host.atracenc)
    }
}

/// The path of the ATRAC encoder.
pub fn find_atracdenc(host: &HostTools) -> (r: Option<String>)
    ensures
        opt_text(r) == located_atrac(*host),
{
    match find_tool(&host.atracdenc) {
        Some(p) => Some(p),
        None => find_tool(&host.atracenc),
    }
}

/// The path of the `bbt-wmv9` helper.
pub fn find_wmv9_helper(host: &HostTools) -> (r: Option<String>)
    ensures
        opt_text(r) == located(host.wmv9),
{
    find_tool(&host.wmv9)
}

/// The paths of the tools that a check reports.
#[derive(Debug)]
pub struct BinaryPaths {
    pub ffmpeg: Option<String>,
    pub ffprobe: Option<String>,
    pub atracdenc: Option<String>,
}

impl BinaryPaths {
    pub fn detect(host: &HostTools) -> (r: BinaryPaths)
        ensures
            opt_text(r.ffmpeg) == located(host.ffmpeg),
            opt_text(r.ffprobe) == located(host.ffprobe),
            opt_text(r.atracdenc) == located_atrac(*host),
    {
        BinaryPaths {
            ffmpeg: find_ffmpeg(host),
            ffprobe: find_ffprobe(host),
            atracdenc: find_atracdenc(host),
        }
    }
}

/// A path that its environment variable names is taken before any other.
pub proof fn law_named_path_comes_first(facts: ToolFacts)
    requires
        facts.named is Some,
        facts.named->0.exists,
    ensures
        located(facts) == Some(facts.named->0.path@),
{
}

/// A variable that names a path where nothing is changes nothing.
pub proof fn law_dead_path_is_passed_over(facts: ToolFacts)
    requires
        facts.named is Some,
        !facts.named->0.exists,
    ensures
        located(facts) == located((ToolFacts { named: None, ..facts })),
{
}

/// A tool beside the program is taken before one on the system path, and each
/// only where it is there; nothing is found exactly where nothing is.
pub proof fn law_tools_beside_the_program_come_second(facts: ToolFacts, r: Option<String>)
    requires
        call_ensures(find_tool, (&facts,), r),
    ensures
        ({
            let named = facts.named matches Some(n) && n.exists;
            &&& named ==> opt_text(r) == Some(facts.named->0.path@)
            &&& facts.alongside matches Some(p) ==> !named ==> opt_text(r) == Some(p@)
            &&& facts.on_path matches Some(p) ==> !named && facts.alongside is None ==> opt_text(r)
                == Some(p@)
            &&& r is None <==> !named && facts.alongside is None && facts.on_path is None
        }),
{
}

/// Each tool is looked for among its own facts; an ATRAC encoder is `atracdenc`
/// before `atracenc`.
pub proof fn law_each_tool_is_found_for_itself(
    host: HostTools,
    ffmpeg: Option<String>,
    ffprobe: Option<String>,
    atracdenc: Option<String>,
    atracenc: Option<String>,
    wmv9: Option<String>,
    all: BinaryPaths,
    r: (Option<String>, Option<String>, Option<String>, Option<String>),
)
    requires
        call_ensures(find_tool, (&host.ffmpeg,), ffmpeg),
        call_ensures(find_tool, (&host.ffprobe,), ffprobe),
        call_ensures(find_tool, (&host.atracdenc,), atracdenc),
        call_ensures(find_tool, (&host.atracenc,), atracenc),
        call_ensures(find_tool, (&host.wmv9,), wmv9),
        call_ensures(BinaryPaths::detect, (&host,), all),
        call_ensures(find_ffmpeg, (&host,), r.0),
        call_ensures(find_ffprobe, (&host,), r.1),
        call_ensures(find_atracdenc, (&host,), r.2),
        call_ensures(find_wmv9_helper, (&host,), r.3),
    ensures
        opt_text(r.0) == opt_text(ffmpeg) && opt_text(all.ffmpeg) == opt_text(ffmpeg),
        opt_text(r.1) == opt_text(ffprobe) && opt_text(all.ffprobe) == opt_text(ffprobe),
        opt_text(r.3) == opt_text(wmv9),
        opt_text(all.atracdenc) == opt_text(r.2),
        atracdenc is Some ==> opt_text(r.2) == opt_text(atracdenc),
        atracdenc is None ==> opt_text(r.2) == opt_text(atracenc),
{
}

/// A tool is known by its name, and its variable by that name in capitals between
/// the prefix and the suffix of all of them: no two tools share either.
pub proof fn law_tools_have_names_of_their_own(
    a: Tool,
    b: Tool,
    na: &'static str,
    nb: &'static str,
    va: &'static str,
    vb: &'static str,
)
    requires
        call_ensures(Tool::name, (a,), na),
        call_ensures(Tool::name, (b,), nb),
        call_ensures(Tool::variable, (a,), va),
        call_ensures(Tool::variable, (b,), vb),
    ensures
        na@ == nb@ ==> a == b,
        va@ == vb@ ==> a == b,
        na@ == "ffmpeg"@ <==> a == Tool::Ffmpeg,
        na@ == "ffprobe"@ <==> a == Tool::Ffprobe,
        na@ == "atracdenc"@ <==> a == Tool::Atracdenc,
        na@ == "atracenc"@ <==> a == Tool::Atracenc,
        na@ == "bbt-wmv9"@ <==> a == Tool::Wmv9,
        va@ == "BBT_FFMPEG_PATH"@ <==> a == Tool::Ffmpeg,
        va@ == "BBT_FFPROBE_PATH"@ <==> a == Tool::Ffprobe,
        va@ == "BBT_ATRACDENC_PATH"@ <==> a == Tool::Atracdenc,
        va@ == "BBT_ATRACENC_PATH"@ <==> a == Tool::Atracenc,
        va@ == "BBT_WMV9_PATH"@ <==> a == Tool::Wmv9,
{
    reveal_strlit("ffmpeg");
    reveal_strlit("ffprobe");
    reveal_strlit("atracdenc");
    reveal_strlit("atracenc");
    reveal_strlit("bbt-wmv9");
    assert("ffmpeg"@.len() == 6);
    assert("ffprobe"@.len() == 7);
    assert("atracdenc"@.len() == 9);
    assert("atracenc"@.len() == 8);
    assert("bbt-wmv9"@.len() == 8);
    assert("bbt-wmv9"@[0] != "atracenc"@[0]);
    reveal_strlit("BBT_FFMPEG_PATH");
    reveal_strlit("BBT_FFPROBE_PATH");
    reveal_strlit("BBT_ATRACDENC_PATH");
    reveal_strlit("BBT_ATRACENC_PATH");
    reveal_strlit("BBT_WMV9_PATH");
    assert("BBT_FFMPEG_PATH"@.len() == 15);
    assert("BBT_FFPROBE_PATH"@.len() == 16);
    assert("BBT_ATRACDENC_PATH"@.len() == 18);
    assert("BBT_ATRACENC_PATH"@.len() == 17);
    assert("BBT_WMV9_PATH"@.len() == 13);
}

} // verus!
