//! Flag schemas and the structured values a successful parse produces.

use vstd::prelude::*;

verus! {

/// Arity of a recognized flag: a boolean switch, a flag taking a single
/// value, or a flag whose values are split on a delimiter and accumulated.
#[derive(Clone, Copy, Debug, PartialEq, Eq)]
pub enum FlagArity {
    Switch,
    Single,
    List(char),
}

/// One recognized long flag. `name` is the long name without the leading
/// dashes: the token on the command line is `--name`.
#[derive(Clone, Debug)]
pub struct FlagSpec {
    pub name: String,
    pub arity: FlagArity,
}

/// Mathematical image of a `FlagSpec`.
#[verifier::ext_equal]
pub struct FlagSpecView {
    pub name: Seq<char>,
    pub arity: FlagArity,
}

impl View for FlagSpec {
    type V = FlagSpecView;

    open spec fn view(&self) -> FlagSpecView {
        FlagSpecView { name: self.name@, arity: self.arity }
    }
}

impl DeepView for FlagSpec {
    type V = FlagSpecView;

    open spec fn deep_view(&self) -> FlagSpecView {
        self.view()
    }
}

/// A declared schema: the recognized flags, and an optional terminator
/// token after which no recognition is attempted.
#[derive(Clone, Debug)]
pub struct ArgumentSchema {
    pub flags: Vec<FlagSpec>,
    pub terminator: Option<String>,
}

/// Well-formed flag declarations: every name is non-empty, does not begin
/// with a dash (the dashes are the parser's to add, and it rejects such
/// long names when the command is built), and no name repeats.
pub open spec fn flags_wf(flags: Seq<FlagSpecView>) -> bool {
    &&& forall|i: int| 0 <= i < flags.len() ==> (#[trigger] flags[i]).name.len() > 0
    &&& forall|i: int| 0 <= i < flags.len() ==> (#[trigger] flags[i]).name[0] != '-'
    &&& forall|i: int, j: int|
        0 <= i < j < flags.len() ==> (#[trigger] flags[i]).name != (#[trigger] flags[j]).name
}

impl ArgumentSchema {
    /// Flag names are non-empty, do not begin with a dash, and are pairwise
    /// distinct.
    pub open spec fn wf(&self) -> bool {
        flags_wf(self.flags_view())
    }

    pub open spec fn flags_view(&self) -> Seq<FlagSpecView> {
        self.flags.deep_view()
    }

    pub open spec fn terminator_view(&self) -> Option<Seq<char>> {
        self.terminator.deep_view()
    }
}

/// The structured value a parse produced for one flag.
#[derive(Clone, Debug, PartialEq, Eq)]
pub enum FlagValue {
    Switch(bool),
    Single(Option<String>),
    List(Vec<String>),
}

/// Mathematical image of a `FlagValue`.
#[verifier::ext_equal]
pub enum FlagValueView {
    Switch(bool),
    Single(Option<Seq<char>>),
    List(Seq<Seq<char>>),
}

impl View for FlagValue {
    type V = FlagValueView;

    open spec fn view(&self) -> FlagValueView {
        match self {
            FlagValue::Switch(b) => FlagValueView::Switch(*b),
            FlagValue::Single(v) => FlagValueView::Single(v.deep_view()),
            FlagValue::List(vs) => FlagValueView::List(vs.deep_view()),
        }
    }
}

impl DeepView for FlagValue {
    type V = FlagValueView;

    open spec fn deep_view(&self) -> FlagValueView {
        self.view()
    }
}

/// Whether a value has the shape its flag's arity calls for.
pub open spec fn value_fits(v: FlagValueView, a: FlagArity) -> bool {
    match a {
        FlagArity::Switch => v is Switch,
        FlagArity::Single => v is Single,
        FlagArity::List(_) => v is List,
    }
}

/// Every declared flag has a value of the right shape in the map.
pub open spec fn values_fit(flags: Seq<FlagSpecView>, vals: Map<Seq<char>, FlagValueView>) -> bool {
    forall|i: int|
        0 <= i < flags.len() ==> {
            &&& vals.contains_key((#[trigger] flags[i]).name)
            &&& value_fits(vals[flags[i].name], flags[i].arity)
        }
}

/// The value a flag takes when nothing on the command line sets it.
pub open spec fn default_of(a: FlagArity) -> FlagValueView {
    match a {
        FlagArity::Switch => FlagValueView::Switch(false),
        FlagArity::Single => FlagValueView::Single(None),
        FlagArity::List(_) => FlagValueView::List(Seq::empty()),
    }
}

/// The values one successful parse recognized, in schema order.
#[derive(Clone, Debug, PartialEq, Eq)]
pub struct ParsedValues {
    pub values: Vec<FlagValue>,
}

impl ParsedValues {
    /// `values` lists, in schema order, exactly the value the parse gave
    /// each declared flag.
    pub open spec fn reflects(
        &self,
        flags: Seq<FlagSpecView>,
        vals: Map<Seq<char>, FlagValueView>,
    ) -> bool {
        &&& self.values.deep_view().len() == flags.len()
        &&& forall|i: int|
            0 <= i < flags.len() ==> self.values.deep_view()[i] == vals[(#[trigger] flags[i]).name]
    }
}

impl ArgumentSchema {
    /// The schema's default values: every switch off, every single-valued
    /// flag unset, every list empty.
    pub fn defaults(&self) -> (r: ParsedValues)
        ensures
            r.values.deep_view().len() == self.flags_view().len(),
            forall|i: int|
                0 <= i < self.flags_view().len() ==> r.values.deep_view()[i] == default_of(
                    (#[trigger] self.flags_view()[i]).arity,
                ),
    {
        let mut values: Vec<FlagValue> = Vec::new();
        let mut i: usize = 0;
        while i < self.flags.len()
            invariant
                i <= self.flags.len(),
                values.deep_view().len() == i,
                forall|k: int|
                    0 <= k < i ==> values.deep_view()[k] == default_of(
                        (#[trigger] self.flags_view()[k]).arity,
                    ),
            decreases self.flags.len() - i,
        {
            let v = match self.flags[i].arity {
                FlagArity::Switch => FlagValue::Switch(false),
                FlagArity::Single => FlagValue::Single(None),
                FlagArity::List(_) => FlagValue::List(Vec::new()),
            };
            let ghost prior = values.deep_view();
            values.push(v);
            proof {
                assert(values.deep_view() =~= prior.push(v.deep_view()));
                assert(v.deep_view() =~= default_of(self.flags_view()[i as int].arity));
            }
            i += 1;
        }
        ParsedValues { values }
    }
}

} // verus!
