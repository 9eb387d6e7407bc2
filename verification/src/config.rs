//! Configuration profiles for the wrapper tools. A profile maps a tool name
//! to per-phase argument lists, the instrumentation passes to enable, and a
//! gate requiring an explicit activation flag. Loading these from a text
//! document is left to the surrounding program; the types here are the plain
//! values the rest of the library works with.

use vstd::prelude::*;

verus! {

/// One instrumentation pass to enable.
#[derive(Clone, Debug, PartialEq, Eq)]
pub struct Pass {}

/// Profile for the wrapped compiler.
#[derive(Clone, Debug, PartialEq, Eq)]
pub struct CCWrapperConfiguration {
    /// The `cc` command being wrapped; `None` keeps the stock default.
    pub cc: Option<String>,
    /// The C++-mode variant of the wrapped command.
    pub cxx: Option<String>,
    /// Arguments passed on every invocation, linking or not.
    pub args: Vec<String>,
    /// Arguments passed only to non-linking invocations.
    pub cc_args: Vec<String>,
    /// Arguments passed only to non-linking invocations in C++ mode.
    pub cxx_args: Vec<String>,
    /// Arguments passed only to linking invocations.
    pub link_args: Vec<String>,
    /// Instrumentation passes to enable.
    pub passes: Vec<Pass>,
    /// Arguments passed only when at least one pass is enabled.
    pub pass_args: Vec<String>,
    /// Arguments passed only when at least one pass is enabled, and only to
    /// linking invocations.
    pub pass_link_args: Vec<String>,
    /// Whether the profile takes effect only when the activation flag was
    /// given on the command line.
    pub requires_libafl_arg: bool,
}

impl Default for CCWrapperConfiguration {
    /// Everything empty or unset, activation not required.
    fn default() -> (r: Self)
        ensures
            r.cc is None,
            r.cxx is None,
            r.args@.len() == 0,
            r.cc_args@.len() == 0,
            r.cxx_args@.len() == 0,
            r.link_args@.len() == 0,
            r.passes@.len() == 0,
            r.pass_args@.len() == 0,
            r.pass_link_args@.len() == 0,
            !r.requires_libafl_arg,
    {
        CCWrapperConfiguration {
            cc: None,
            cxx: None,
            args: Vec::new(),
            cc_args: Vec::new(),
            cxx_args: Vec::new(),
            link_args: Vec::new(),
            passes: Vec::new(),
            pass_args: Vec::new(),
            pass_link_args: Vec::new(),
            requires_libafl_arg: false,
        }
    }
}

/// Profile for the wrapped archiver.
#[derive(Clone, Debug, PartialEq, Eq)]
pub struct ArWrapperConfiguration {
    pub args: Vec<String>,
    pub silent: bool,
    pub requires_libafl_arg: bool,
}

impl Default for ArWrapperConfiguration {
    fn default() -> (r: Self)
        ensures
            r.args@.len() == 0,
            !r.silent,
            !r.requires_libafl_arg,
    {
        ArWrapperConfiguration { args: Vec::new(), silent: false, requires_libafl_arg: false }
    }
}

/// Profile for the wrapped libtool.
#[derive(Clone, Debug, PartialEq, Eq)]
pub struct LibtoolWrapperConfiguration {
    pub args: Vec<String>,
    pub silent: bool,
    pub requires_libafl_arg: bool,
}

impl Default for LibtoolWrapperConfiguration {
    fn default() -> (r: Self)
        ensures
            r.args@.len() == 0,
            !r.silent,
            !r.requires_libafl_arg,
    {
        LibtoolWrapperConfiguration { args: Vec::new(), silent: false, requires_libafl_arg: false }
    }
}

/// The per-tool profiles one configuration entry holds.
#[derive(Clone, Debug, PartialEq, Eq)]
pub struct ToolConfiguration {
    pub cc: Option<CCWrapperConfiguration>,
    pub ar: Option<ArWrapperConfiguration>,
    pub libtool: Option<LibtoolWrapperConfiguration>,
}

impl Default for ToolConfiguration {
    fn default() -> (r: Self)
        ensures
            r.cc is None,
            r.ar is None,
            r.libtool is None,
    {
        ToolConfiguration { cc: None, ar: None, libtool: None }
    }
}

/// A whole configuration: tool name to profiles, names kept in the order
/// the document gave them.
#[derive(Clone, Debug, PartialEq, Eq)]
pub struct Configuration {
    pub tool_configuration: Vec<(String, ToolConfiguration)>,
}

impl Configuration {
    /// Tool names are pairwise distinct.
    pub open spec fn wf(&self) -> bool {
        forall|i: int, j: int|
            0 <= i < j < self.tool_configuration@.len() ==> (
            #[trigger] self.tool_configuration@[i]).0@ != (
            #[trigger] self.tool_configuration@[j]).0@
    }

    /// The profiles of the first entry whose name equals `name`, or `None`
    /// when no entry has that name.
    pub fn get(&self, name: &String) -> (r: Option<&ToolConfiguration>)
        ensures
            match r {
                Some(c) => exists|i: int|
                    {
                        &&& 0 <= i < self.tool_configuration@.len()
                        &&& (#[trigger] self.tool_configuration@[i]).0@ == name@
                        &&& *c == self.tool_configuration@[i].1
                        &&& forall|j: int|
                            0 <= j < i ==> (#[trigger] self.tool_configuration@[j]).0@ != name@
                    },
                None => forall|i: int|
                    0 <= i < self.tool_configuration@.len() ==> (
                    #[trigger] self.tool_configuration@[i]).0@ != name@,
            },
    {
        let mut i: usize = 0;
        while i < self.tool_configuration.len()
            invariant
                i <= self.tool_configuration.len(),
                forall|j: int|
                    0 <= j < i ==> (#[trigger] self.tool_configuration@[j]).0@ != name@,
            decreases self.tool_configuration.len() - i,
        {
            if self.tool_configuration[i].0 == *name {
                return Some(&self.tool_configuration[i].1);
            }
            i += 1;
        }
        None
    }
}

} // verus!
