//! Tools that are kept in sealed files and reached through links.
//!
//! Each tool is held in an anonymous file that nobody can change any more,
//! and is known by the path under which the system shows the descriptor of
//! that file. The tools are found by name, and are linked by name into a
//! directory for programs that need them as files.

use crate::compare::{lies_below, path_lies_below, paths_equal, same_path};
use crate::path::{
    body_start, join, joined, last_step_end, last_step_start, lemma_segment_start_bounds,
    parent_of, parent_part,
};
use crate::path_proofs::lemma_trim_end;
use crate::procfs::{descriptor_reference, link_source};
use vstd::prelude::*;

verus! {

/// The kind of an entry in the archive that the tools come in.
#[derive(Clone, Copy, Debug, PartialEq, Eq, Structural)]
pub enum EntryKind {
    /// A file with contents.
    Regular,
    /// A directory, a link, or anything else.
    Other,
}

/// Whether an entry of the archive is installed as a tool: files are,
/// directories and links are passed over.
pub fn is_installed(kind: EntryKind) -> (installed: bool)
    ensures
        installed == (kind == EntryKind::Regular),
{
    match kind {
        EntryKind::Regular => true,
        EntryKind::Other => false,
    }
}

/// A tool in its sealed file.
#[derive(Debug)]
pub struct SealedTool {
    target_name: String,
    sealed_file_path: String,
}

impl SealedTool {
    /// The name of the tool: its path below the directory of the tools.
    pub closed spec fn name(&self) -> Seq<char> {
        self.target_name@
    }

    /// The path under which the sealed file is reached.
    pub closed spec fn sealed_path(&self) -> Seq<char> {
        self.sealed_file_path@
    }

    /// The tool `target_name`, whose sealed file process `pid` holds open
    /// as `descriptor`.
    pub fn new(target_name: String, pid: u32, descriptor: i32) -> (tool: Self)
        ensures
            tool.name() == target_name@,
            tool.sealed_path() == descriptor_reference(pid as nat, descriptor as int),
    {
        Self { target_name, sealed_file_path: link_source(pid, descriptor) }
    }

    /// The name of the tool.
    pub fn target_name(&self) -> (name: &str)
        ensures
            name@ == self.name(),
    {
        self.target_name.as_str()
    }

    /// The path under which the sealed file is reached.
    pub fn sealed_file_path(&self) -> (path: &str)
        ensures
            path@ == self.sealed_path(),
    {
        self.sealed_file_path.as_str()
    }

    /// Plans the link to the tool in the directory `target_dir`.
    pub fn link_plan(&self, target_dir: &str) -> (r: Option<ToolLink>)
        ensures
            match r {
                Some(plan) => planned_link(target_dir@, self.name()) == Some(plan@),
                None => planned_link(target_dir@, self.name()) is None,
            },
    {
        let symlink_path = join(target_dir, self.target_name.as_str());
        let parent_dir = match parent_of(symlink_path.as_str()) {
            Some(parent_dir) => parent_dir,
            None => {
                return None;
            },
        };
        let dated = directories_below(target_dir, symlink_path.as_str());
        Some(ToolLink { symlink_path, parent_dir, dated })
    }
}

impl Clone for SealedTool {
    fn clone(&self) -> (copy: Self)
        ensures
            copy == *self,
    {
        Self {
            target_name: self.target_name.clone(),
            sealed_file_path: self.sealed_file_path.clone(),
        }
    }
}

/// Where a tool is linked.
#[derive(Debug)]
pub struct ToolLink {
    /// The path of the link.
    pub symlink_path: String,
    /// The directory that holds the link; it is created if it is missing.
    pub parent_dir: String,
    /// The directories between the directory of the tools and the link,
    /// from the link upwards: they are given the time of the tool.
    pub dated: Vec<String>,
}

/// A link to a tool, with its paths as sequences of characters.
pub struct ToolLinkModel {
    pub symlink_path: Seq<char>,
    pub parent_dir: Seq<char>,
    pub dated: Seq<Seq<char>>,
}

impl View for ToolLink {
    type V = ToolLinkModel;

    open spec fn view(&self) -> ToolLinkModel {
        ToolLinkModel {
            symlink_path: self.symlink_path@,
            parent_dir: self.parent_dir@,
            dated: self.dated.deep_view(),
        }
    }
}

/// The directories above `path` that lie below `base`, from `path`
/// upwards.
pub open spec fn dated_directories(base: Seq<char>, path: Seq<char>) -> Seq<Seq<char>>
    decreases path.len(),
    via dated_directories_terminates
{
    match parent_part(path) {
        None => Seq::empty(),
        Some(parent) => {
            let above = dated_directories(base, parent);
            if lies_below(parent, base) {
                seq![parent] + above
            } else {
                above
            }
        },
    }
}

#[via_fn]
proof fn dated_directories_terminates(base: Seq<char>, path: Seq<char>) {
    lemma_parent_is_shorter(path);
}

/// The parent of a path is shorter than the path.
pub proof fn lemma_parent_is_shorter(path: Seq<char>)
    ensures
        parent_part(path) matches Some(parent) ==> parent.len() < path.len(),
{
    let lo = body_start(path);
    let n = path.len() as int;
    lemma_trim_end(path, lo, n);
    if last_step_end(path) > lo {
        let hi = last_step_end(path);
        lemma_segment_start_bounds(path, lo, hi);
        let k = last_step_start(path);
        let cut = if k > lo {
            k - 1
        } else {
            lo
        };
        lemma_trim_end(path, lo, cut);
    }
}

/// The link to the tool `name` in the directory `target_dir`, unless the
/// link would have no directory to stand in.
pub open spec fn planned_link(target_dir: Seq<char>, name: Seq<char>) -> Option<ToolLinkModel> {
    match parent_part(joined(target_dir, name)) {
        Some(parent_dir) => Some(
            ToolLinkModel {
                symlink_path: joined(target_dir, name),
                parent_dir,
                dated: dated_directories(target_dir, joined(target_dir, name)),
            },
        ),
        None => None,
    }
}

/// Lists the directories above `path` that lie below `base`, from `path`
/// upwards.
pub fn directories_below(base: &str, path: &str) -> (dated: Vec<String>)
    ensures
        dated.deep_view() == dated_directories(base@, path@),
{
    let mut dated: Vec<String> = Vec::new();
    let mut current: String = path.to_owned();
    loop
        invariant
            dated.deep_view() + dated_directories(base@, current@) == dated_directories(
                base@,
                path@,
            ),
        ensures
            dated.deep_view() == dated_directories(base@, path@),
        decreases current@.len(),
    {
        match parent_of(current.as_str()) {
            None => {
                break ;
            },
            Some(parent) => {
                proof {
                    lemma_parent_is_shorter(current@);
                }
                if path_lies_below(parent.as_str(), base) {
                    dated.push(parent.clone());
                }
                current = parent;
            },
        }
    }
    dated
}

/// The tools, each under its name.
///
/// A name is a path, and two ways of writing one path are one name: the
/// tools are kept in a list in which no two names are the same path, and a
/// tool is found by comparing paths, step for step.
#[derive(Debug)]
pub struct Tools {
    sealed_tools: Vec<SealedTool>,
}

/// Index of the first tool of `tools` whose name is the path `name`, or
/// the number of tools if there is none.
pub open spec fn position(tools: Seq<SealedTool>, name: Seq<char>) -> int
    decreases tools.len(),
{
    if tools.len() == 0 {
        0
    } else if same_path(tools[0].name(), name) {
        0
    } else {
        1 + position(tools.drop_first(), name)
    }
}

/// The position of a name is that of the first tool that has it.
pub proof fn lemma_position(tools: Seq<SealedTool>, name: Seq<char>)
    ensures
        0 <= position(tools, name) <= tools.len(),
        position(tools, name) < tools.len() ==> same_path(
            tools[position(tools, name)].name(),
            name,
        ),
        forall|i: int| 0 <= i < position(tools, name) ==> !same_path(tools[i].name(), name),
    decreases tools.len(),
{
    if tools.len() > 0 && !same_path(tools[0].name(), name) {
        let rest = tools.drop_first();
        lemma_position(rest, name);
        assert forall|i: int| 0 <= i < position(tools, name) implies !same_path(
            tools[i].name(),
            name,
        ) by {
            if i > 0 {
                assert(tools[i] == rest[i - 1]);
            }
        }
    }
}

/// No two tools have the same name.
pub open spec fn distinct_names(tools: Seq<SealedTool>) -> bool {
    forall|i: int, j: int|
        0 <= i < j < tools.len() ==> !same_path(#[trigger] tools[i].name(), #[trigger] tools[j].name())
}

/// The tools after `tool` has been put among them: it takes the place of
/// the tool of the same name, or the last place if there is none.
pub open spec fn with_tool(tools: Seq<SealedTool>, tool: SealedTool) -> Seq<SealedTool> {
    let at = position(tools, tool.name());
    if at < tools.len() {
        tools.update(at, tool)
    } else {
        tools.push(tool)
    }
}

impl Tools {
    /// The tools, in the order in which their names first came.
    pub closed spec fn entries(&self) -> Seq<SealedTool> {
        self.sealed_tools@
    }

    /// No two tools have the same name.
    #[verifier::type_invariant]
    pub open spec fn wf(&self) -> bool {
        distinct_names(self.entries())
    }

    /// No tools.
    pub fn new() -> (tools: Self)
        ensures
            tools.wf(),
            tools.entries() == Seq::<SealedTool>::empty(),
    {
        Self { sealed_tools: Vec::new() }
    }

    /// Puts a tool among the tools. A tool of the same name gives way to
    /// it.
    pub fn insert(self, tool: SealedTool) -> (tools: Self)
        ensures
            tools.wf(),
            tools.entries() == with_tool(self.entries(), tool),
    {
        proof {
            use_type_invariant(&self);
        }
        let mut sealed_tools = self.sealed_tools;
        put(&mut sealed_tools, tool);
        Self { sealed_tools }
    }

    /// Gathers tools, in order: of two with the same name, the later one
    /// stays.
    pub fn from_list(list: Vec<SealedTool>) -> (tools: Self)
        ensures
            tools.wf(),
            tools.entries() == gathered(list@),
    {
        let mut sealed_tools: Vec<SealedTool> = Vec::new();
        let mut i: usize = 0;
        while i < list.len()
            invariant
                i <= list.len(),
                distinct_names(sealed_tools@),
                sealed_tools@ == gathered(list@.take(i as int)),
            decreases list.len() - i,
        {
            assert(list@.take(i + 1).drop_last() =~= list@.take(i as int));
            put(&mut sealed_tools, list[i].clone());
            i = i + 1;
        }
        assert(list@.take(i as int) =~= list@);
        Self { sealed_tools }
    }

    /// The tool called `path`, if there is one.
    pub fn tool(&self, path: &str) -> (r: Option<&SealedTool>)
        ensures
            self.wf(),
            match r {
                Some(tool) => position(self.entries(), path@) < self.entries().len() && *tool
                    == self.entries()[position(self.entries(), path@)] && same_path(
                    tool.name(),
                    path@,
                ),
                None => forall|i: int|
                    0 <= i < self.entries().len() ==> !same_path(
                        #[trigger] self.entries()[i].name(),
                        path@,
                    ),
            },
    {
        proof {
            use_type_invariant(self);
            lemma_position(self.entries(), path@);
        }
        let at = find(&self.sealed_tools, path);
        if at < self.sealed_tools.len() {
            Some(&self.sealed_tools[at])
        } else {
            None
        }
    }

    /// All tools.
    pub fn sealed_tools(&self) -> (tools: &[SealedTool])
        ensures
            tools@ == self.entries(),
            distinct_names(tools@),
    {
        proof {
            use_type_invariant(self);
        }
        self.sealed_tools.as_slice()
    }

    /// The number of tools.
    pub fn len(&self) -> (n: usize)
        ensures
            n == self.entries().len(),
    {
        self.sealed_tools.len()
    }
}

/// Finds the place of the tool called `name`.
fn find(tools: &Vec<SealedTool>, name: &str) -> (at: usize)
    ensures
        at == position(tools@, name@),
        at <= tools@.len(),
{
    let mut at: usize = 0;
    assert(tools@.skip(0) =~= tools@);
    while at < tools.len()
        invariant
            at <= tools.len(),
            position(tools@, name@) == at + position(tools@.skip(at as int), name@),
        decreases tools.len() - at,
    {
        let ghost rest = tools@.skip(at as int);
        if paths_equal(tools[at].target_name(), name) {
            return at;
        }
        assert(rest.drop_first() =~= tools@.skip(at + 1));
        at = at + 1;
    }
    at
}

/// Puts a tool into a list of tools with distinct names.
fn put(tools: &mut Vec<SealedTool>, tool: SealedTool)
    requires
        distinct_names(old(tools)@),
    ensures
        distinct_names(final(tools)@),
        final(tools)@ == with_tool(old(tools)@, tool),
{
    proof {
        lemma_position(tools@, tool.name());
    }
    let at = find(tools, tool.target_name());
    if at < tools.len() {
        tools.set(at, tool);
    } else {
        tools.push(tool);
    }
}

/// The tools gathered from a list, in order: each tool takes the place of
/// an earlier one of the same name.
pub open spec fn gathered(list: Seq<SealedTool>) -> Seq<SealedTool>
    decreases list.len(),
{
    if list.len() == 0 {
        Seq::empty()
    } else {
        with_tool(gathered(list.drop_last()), list.last())
    }
}

} // verus!
