use libafl_cc::partition::{PartitionError, PartitionResult};
use libafl_cc::schema::{ArgumentSchema, FlagArity, FlagSpec, FlagValue};

fn flag(name: &str, arity: FlagArity) -> FlagSpec {
    FlagSpec { name: name.to_string(), arity }
}

fn strings(tokens: &[&str]) -> Vec<String> {
    tokens.iter().map(|t| t.to_string()).collect()
}

fn enable_opts_schema(terminator: Option<&str>) -> ArgumentSchema {
    ArgumentSchema {
        flags: vec![flag("enable", FlagArity::Switch), flag("opts", FlagArity::List(','))],
        terminator: terminator.map(|t| t.to_string()),
    }
}

fn partition_ok(schema: &ArgumentSchema, tokens: &[&str]) -> PartitionResult {
    schema.partition(&strings(tokens)).expect("partition should succeed")
}

#[test]
fn scenario_boolean_and_list_flags_interleaved() {
    let schema = enable_opts_schema(None);
    let pr = partition_ok(&schema, &["--enable", "-O2", "--opts", "a,b", "-Wall"]);
    assert_eq!(
        pr.recognized.values,
        vec![
            FlagValue::Switch(true),
            FlagValue::List(vec!["a".to_string(), "b".to_string()]),
        ]
    );
    assert_eq!(pr.passthrough, strings(&["-O2", "-Wall"]));
}

#[test]
fn scenario_duplicate_unknown_collapsed() {
    let schema = ArgumentSchema { flags: Vec::new(), terminator: None };
    let pr = partition_ok(&schema, &["-x", "-x", "-y"]);
    assert_eq!(pr.recognized.values, Vec::<FlagValue>::new());
    assert_eq!(pr.passthrough, strings(&["-x", "-y"]));
}

#[test]
fn scenario_missing_value_is_fatal() {
    let schema = ArgumentSchema {
        flags: vec![flag("opts", FlagArity::Single)],
        terminator: None,
    };
    let r = schema.partition(&strings(&["--opts"]));
    assert!(matches!(r, Err(PartitionError::Malformed(_))));
}

#[test]
fn scenario_empty_input_gives_defaults() {
    let schema = enable_opts_schema(None);
    let pr = partition_ok(&schema, &[]);
    assert_eq!(pr.recognized, schema.defaults());
    assert_eq!(pr.recognized.values, vec![
        FlagValue::Switch(false),
        FlagValue::List(Vec::new()),
    ]);
    assert!(pr.passthrough.is_empty());
}

#[test]
fn scenario_terminator_bypasses_recognition() {
    let schema = enable_opts_schema(Some("--"));
    let pr = partition_ok(&schema, &["--", "--enable", "-x"]);
    assert_eq!(pr.recognized, schema.defaults());
    assert_eq!(pr.passthrough, strings(&["--", "--enable", "-x"]));
}

#[test]
fn terminator_mid_vector_splits_recognition() {
    let schema = enable_opts_schema(Some("--"));
    let pr = partition_ok(&schema, &["--enable", "-q", "--", "--enable", "-x"]);
    assert_eq!(
        pr.recognized.values,
        vec![FlagValue::Switch(true), FlagValue::List(Vec::new())]
    );
    assert_eq!(pr.passthrough, strings(&["-q", "--", "--enable", "-x"]));
}

#[test]
fn passthrough_is_idempotent() {
    let schema = enable_opts_schema(None);
    let first = partition_ok(&schema, &["--enable", "-O2", "--opts", "a,b", "-Wall"]);
    let again = schema.partition(&first.passthrough).expect("re-partition should succeed");
    assert_eq!(again.recognized, schema.defaults());
    assert_eq!(again.passthrough, first.passthrough);
}

#[test]
fn passthrough_with_terminator_is_idempotent() {
    let schema = enable_opts_schema(Some("--"));
    let first = partition_ok(&schema, &["--", "--enable", "-x"]);
    let again = schema.partition(&first.passthrough).expect("re-partition should succeed");
    assert_eq!(again.recognized, schema.defaults());
    assert_eq!(again.passthrough, first.passthrough);
}

#[test]
fn singular_flag_keeps_last_occurrence() {
    let schema = ArgumentSchema {
        flags: vec![flag("opts", FlagArity::Single)],
        terminator: None,
    };
    let pr = partition_ok(&schema, &["--opts", "one", "-z", "--opts", "two"]);
    assert_eq!(pr.recognized.values, vec![FlagValue::Single(Some("two".to_string()))]);
    assert_eq!(pr.passthrough, strings(&["-z"]));
}

#[test]
fn list_flag_accumulates_across_interleaving() {
    let schema = enable_opts_schema(None);
    let pr = partition_ok(&schema, &["--opts", "a,b", "-q", "--opts", "c"]);
    assert_eq!(
        pr.recognized.values,
        vec![
            FlagValue::Switch(false),
            FlagValue::List(vec!["a".to_string(), "b".to_string(), "c".to_string()]),
        ]
    );
    assert_eq!(pr.passthrough, strings(&["-q"]));
}

#[test]
fn prefix_ambiguity_takes_first_token_in_order() {
    let schema = ArgumentSchema { flags: Vec::new(), terminator: None };
    let pr = partition_ok(&schema, &["-x1", "-x2"]);
    assert_eq!(pr.passthrough, strings(&["-x1", "-x2"]));
}

#[test]
fn name_value_token_recovered_by_prefix() {
    let schema = enable_opts_schema(None);
    let pr = partition_ok(&schema, &["--enable", "--unknown=thing"]);
    assert_eq!(
        pr.recognized.values,
        vec![FlagValue::Switch(true), FlagValue::List(Vec::new())]
    );
    assert_eq!(pr.passthrough, strings(&["--unknown=thing"]));
}

#[test]
fn wrapper_flag_set_defaults_match_known_partition() {
    let schema = ArgumentSchema {
        flags: vec![
            flag("libafl-no-link", FlagArity::Switch),
            flag("libafl", FlagArity::Switch),
            flag("libafl-ignore-configurations", FlagArity::Switch),
            flag("libafl-configurations", FlagArity::List(',')),
        ],
        terminator: None,
    };
    let pr = partition_ok(
        &schema,
        &["--libafl", "-c", "main.c", "--libafl-configurations", "dev,release", "-o", "main.o"],
    );
    assert_eq!(
        pr.recognized.values,
        vec![
            FlagValue::Switch(false),
            FlagValue::Switch(true),
            FlagValue::Switch(false),
            FlagValue::List(vec!["dev".to_string(), "release".to_string()]),
        ]
    );
    assert_eq!(pr.passthrough, strings(&["-c", "main.c", "-o", "main.o"]));
}
