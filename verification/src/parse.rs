//! The parsing primitive: one attempt to parse a whole token vector against
//! a schema, delegated to clap. The outcome of such an attempt is named at
//! spec level by `parse_of`; the trusted wrappers below tie clap's calls to
//! that name, and the verified functions build the command and read the
//! matches back out.

use vstd::prelude::*;

use clap::error::{ContextKind, ContextValue, ErrorKind};

use crate::schema::{
    value_fits, values_fit, ArgumentSchema, FlagArity, FlagSpec, FlagSpecView, FlagValue,
    FlagValueView,
};

verus! {

#[verifier::external_type_specification]
#[verifier::external_body]
pub struct ExCommand(clap::Command);

#[verifier::external_type_specification]
#[verifier::external_body]
pub struct ExArgMatches(clap::ArgMatches);

/// The flags a built command declares, in the order they were added.
pub uninterp spec fn cmd_flags(c: clap::Command) -> Seq<FlagSpecView>;

/// What one parse attempt of `args` against a command declaring `flags`
/// yields. The attempt is a deterministic function of the declared flags and
/// the token vector; its value is not stated here, only named.
pub uninterp spec fn parse_of(flags: Seq<FlagSpecView>, args: Seq<Seq<char>>) -> ParseForm;

/// The value a successful parse holds for each declared flag name.
pub uninterp spec fn matches_values(m: clap::ArgMatches) -> Map<Seq<char>, FlagValueView>;

/// Spec-level shape of one parse attempt's outcome.
pub enum ParseForm {
    /// The whole vector parsed: every declared flag has a value.
    Values(Map<Seq<char>, FlagValueView>),
    /// The parser rejected a token it does not recognize and reported the
    /// given text, a literal prefix of the offending token as the parser
    /// chose to render it.
    Unknown(Seq<char>),
    /// Any other parse failure: a declared flag used malformedly.
    Malformed(Seq<char>),
}

/// Exec-level outcome of one parse attempt.
pub enum RawParse {
    Matched(clap::ArgMatches),
    Unknown(String),
    Malformed(String),
}

/// Relies on `clap::Command::new` and the settings `no_binary_name`,
/// `allow_hyphen_values`, `args_override_self`, `disable_help_flag` and
/// `disable_version_flag`: a fresh command declares no flags. Help and
/// version are disabled so that no token is intercepted; repeated flags
/// keep the last applicable occurrence.
#[verifier::external_body]
fn command_base() -> (c: clap::Command)
    ensures
        cmd_flags(c) == Seq::<FlagSpecView>::empty(),
{
    clap::Command::new("wrapper")
        .no_binary_name(true)
        .allow_hyphen_values(true)
        .args_override_self(true)
        .disable_help_flag(true)
        .disable_version_flag(true)
}

/// Relies on `clap::Command::arg` and `clap::Arg::new`/`long`/`action`/
/// `value_delimiter`: adds one long flag to the declared set. A switch uses
/// `ArgAction::SetTrue`, a single-valued flag `ArgAction::Set`, a list flag
/// `ArgAction::Append` with the delimiter. The name must be fresh,
/// non-empty and free of a leading dash, which clap otherwise rejects when
/// the command is built.
#[verifier::external_body]
fn command_add_flag(c: clap::Command, f: &FlagSpec) -> (r: clap::Command)
    requires
        f@.name.len() > 0,
        f@.name[0] != '-',
        forall|k: int| 0 <= k < cmd_flags(c).len() ==> (#[trigger] cmd_flags(c)[k]).name != f@.name,
    ensures
        cmd_flags(r) == cmd_flags(c).push(f@),
{
    let arg = clap::Arg::new(f.name.clone()).long(f.name.clone());
    let arg = match f.arity {
        FlagArity::Switch => arg.action(clap::ArgAction::SetTrue),
        FlagArity::Single => arg.action(clap::ArgAction::Set),
        FlagArity::List(d) => arg.action(clap::ArgAction::Append).value_delimiter(d),
    };
    c.arg(arg)
}

/// Relies on `clap::Command::try_get_matches_from` and on clap's error
/// reporting: a failed parse with `ErrorKind::UnknownArgument` carries the
/// reported token text under `ContextKind::InvalidArg`; every other failed
/// parse is malformed use of a declared flag. On success every declared
/// flag can be read back from the matches with the shape its action gives
/// it (`SetTrue` a boolean, `Set` at most one value, `Append` a list). The
/// declared flags must be well formed: building the command inside this
/// call asserts, in debug builds, that no long name is empty, begins with
/// a dash, or repeats.
#[verifier::external_body]
fn command_try_parse(c: &clap::Command, args: &Vec<String>) -> (r: RawParse)
    requires
        crate::schema::flags_wf(cmd_flags(*c)),
    ensures
        ({
            let p = parse_of(cmd_flags(*c), args.deep_view());
            match r {
                RawParse::Matched(m) => {
                    &&& p matches ParseForm::Values(vals)
                    &&& matches_values(m) == vals
                    &&& values_fit(cmd_flags(*c), vals)
                },
                RawParse::Unknown(s) => p == ParseForm::Unknown(s.deep_view()),
                RawParse::Malformed(msg) => p == ParseForm::Malformed(msg.deep_view()),
            }
        }),
{
    match c.clone().try_get_matches_from(args) {
        Ok(m) => RawParse::Matched(m),
        Err(e) if e.kind() == ErrorKind::UnknownArgument => match e.context().find_map(|(k, v)| match (k, v) {
            (ContextKind::InvalidArg, ContextValue::String(s)) => Some(s.clone()),
            _ => None,
        }) {
            Some(s) => RawParse::Unknown(s),
            None => RawParse::Malformed(e.to_string()),
        },
        Err(e) => RawParse::Malformed(e.to_string()),
    }
}

/// Relies on `clap::ArgMatches::get_flag`: reads a switch back out. The
/// flag must be declared as a switch, which the caller knows from
/// `values_fit`; on other identifiers `get_flag` panics.
#[verifier::external_body]
fn matches_flag(m: &clap::ArgMatches, name: &String) -> (r: bool)
    requires
        matches_values(*m).contains_key(name@),
        matches_values(*m)[name@] is Switch,
    ensures
        matches_values(*m)[name@] == FlagValueView::Switch(r),
{
    m.get_flag(name.as_str())
}

/// Relies on `clap::ArgMatches::get_one`: reads a single-valued flag back
/// out; `None` when the flag was not given.
#[verifier::external_body]
fn matches_single(m: &clap::ArgMatches, name: &String) -> (r: Option<String>)
    requires
        matches_values(*m).contains_key(name@),
        matches_values(*m)[name@] is Single,
    ensures
        matches_values(*m)[name@] == FlagValueView::Single(r.deep_view()),
{
    m.get_one::<String>(name.as_str()).cloned()
}

/// Relies on `clap::ArgMatches::get_many`: reads a list flag back out, in
/// the order the values were given; an absent flag is the empty list.
#[verifier::external_body]
fn matches_list(m: &clap::ArgMatches, name: &String) -> (r: Vec<String>)
    requires
        matches_values(*m).contains_key(name@),
        matches_values(*m)[name@] is List,
    ensures
        matches_values(*m)[name@] == FlagValueView::List(r.deep_view()),
{
    match m.get_many::<String>(name.as_str()) {
        Some(vs) => vs.cloned().collect(),
        None => Vec::new(),
    }
}

/// Relies on `str::starts_with`: true exactly when `prefix` is a prefix of
/// `s`.
#[verifier::external_body]
pub(crate) fn string_starts_with(s: &String, prefix: &String) -> (r: bool)
    ensures
        r == prefix@.is_prefix_of(s@),
{
    s.as_str().starts_with(prefix.as_str())
}

/// Builds the clap command a schema describes: one long flag per entry, in
/// schema order.
pub(crate) fn build_command(schema: &ArgumentSchema) -> (c: clap::Command)
    requires
        schema.wf(),
    ensures
        cmd_flags(c) == schema.flags_view(),
{
    let mut c = command_base();
    let mut i: usize = 0;
    while i < schema.flags.len()
        invariant
            schema.wf(),
            i <= schema.flags.len(),
            cmd_flags(c) == schema.flags_view().take(i as int),
        decreases schema.flags.len() - i,
    {
        proof {
            assert(schema.flags_view()[i as int] == schema.flags@[i as int].deep_view());
            assert(schema.flags_view().take(i as int).push(schema.flags_view()[i as int])
                =~= schema.flags_view().take(i as int + 1));
        }
        c = command_add_flag(c, &schema.flags[i]);
        i += 1;
    }
    proof {
        assert(schema.flags_view().take(schema.flags@.len() as int) =~= schema.flags_view());
    }
    c
}

/// One parse attempt of the working vector against the built command.
pub(crate) fn try_parse(c: &clap::Command, args: &Vec<String>) -> (r: RawParse)
    requires
        crate::schema::flags_wf(cmd_flags(*c)),
    ensures
        ({
            let p = parse_of(cmd_flags(*c), args.deep_view());
            match r {
                RawParse::Matched(m) => {
                    &&& p matches ParseForm::Values(vals)
                    &&& matches_values(m) == vals
                    &&& values_fit(cmd_flags(*c), vals)
                },
                RawParse::Unknown(s) => p == ParseForm::Unknown(s.deep_view()),
                RawParse::Malformed(msg) => p == ParseForm::Malformed(msg.deep_view()),
            }
        }),
{
    command_try_parse(c, args)
}

/// Reads the recognized values back out of a successful parse, in schema
/// order.
pub(crate) fn extract_values(schema: &ArgumentSchema, m: &clap::ArgMatches) -> (r:
    crate::schema::ParsedValues)
    requires
        schema.wf(),
        values_fit(schema.flags_view(), matches_values(*m)),
    ensures
        r.reflects(schema.flags_view(), matches_values(*m)),
{
    let mut values: Vec<FlagValue> = Vec::new();
    let mut i: usize = 0;
    while i < schema.flags.len()
        invariant
            schema.wf(),
            values_fit(schema.flags_view(), matches_values(*m)),
            i <= schema.flags.len(),
            values.deep_view().len() == i,
            forall|k: int|
                0 <= k < i ==> values.deep_view()[k] == matches_values(*m)[(
                #[trigger] schema.flags_view()[k]).name],
        decreases schema.flags.len() - i,
    {
        let f = &schema.flags[i];
        proof {
            assert(schema.flags_view()[i as int] == schema.flags@[i as int].deep_view());
        }
        let v = match f.arity {
            FlagArity::Switch => FlagValue::Switch(matches_flag(m, &f.name)),
            FlagArity::Single => FlagValue::Single(matches_single(m, &f.name)),
            FlagArity::List(_) => FlagValue::List(matches_list(m, &f.name)),
        };
        let ghost prior = values.deep_view();
        values.push(v);
        proof {
            assert(values.deep_view() =~= prior.push(v.deep_view()));
        }
        i += 1;
    }
    crate::schema::ParsedValues { values }
}

} // verus!
