use libafl_cc::config::{
    ArWrapperConfiguration, CCWrapperConfiguration, Configuration, LibtoolWrapperConfiguration,
    ToolConfiguration,
};

fn default_entry(name: &str) -> (String, ToolConfiguration) {
    (
        name.to_string(),
        ToolConfiguration {
            cc: Some(CCWrapperConfiguration::default()),
            ar: Some(ArWrapperConfiguration::default()),
            libtool: Some(LibtoolWrapperConfiguration::default()),
        },
    )
}

#[test]
fn default_profiles_are_empty_and_ungated() {
    let cc = CCWrapperConfiguration::default();
    assert!(cc.cc.is_none());
    assert!(cc.cxx.is_none());
    assert!(cc.args.is_empty());
    assert!(cc.cc_args.is_empty());
    assert!(cc.cxx_args.is_empty());
    assert!(cc.link_args.is_empty());
    assert!(cc.passes.is_empty());
    assert!(cc.pass_args.is_empty());
    assert!(cc.pass_link_args.is_empty());
    assert!(!cc.requires_libafl_arg);

    let ar = ArWrapperConfiguration::default();
    assert!(ar.args.is_empty());
    assert!(!ar.silent);
    assert!(!ar.requires_libafl_arg);

    let libtool = LibtoolWrapperConfiguration::default();
    assert!(libtool.args.is_empty());
    assert!(!libtool.silent);
    assert!(!libtool.requires_libafl_arg);

    let tool = ToolConfiguration::default();
    assert!(tool.cc.is_none());
    assert!(tool.ar.is_none());
    assert!(tool.libtool.is_none());
}

#[test]
fn configuration_lookup_finds_named_tool() {
    let config = Configuration {
        tool_configuration: vec![default_entry("default"), default_entry("clang")],
    };
    let found = config.get(&"clang".to_string());
    assert_eq!(found, Some(&default_entry("clang").1));
    assert_eq!(config.get(&"gcc".to_string()), None);
}
