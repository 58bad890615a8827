use gpt_md_translator::opts::Opts;

#[test]
fn defaults_fill_missing_paths() {
    let opts = Opts::new(None, None, None);
    assert_eq!(opts.get_config_path(), "Settings.toml");
    assert_eq!(opts.get_input_path(), "./input.md");
    assert_eq!(opts.get_output_path(), "");
}

#[test]
fn given_paths_are_kept() {
    let opts = Opts::new(
        Some(String::from("conf.toml")),
        Some(String::from("doc.md")),
        Some(String::from("out.md")),
    );
    assert_eq!(opts.get_config_path(), "conf.toml");
    assert_eq!(opts.get_input_path(), "doc.md");
    assert_eq!(opts.get_output_path(), "out.md");
    assert_eq!(opts.resolved_output_path(), "out.md");
}

#[test]
fn output_path_is_derived_from_input_path() {
    let derive = |input: &str| Opts::new(None, Some(String::from(input)), None).resolved_output_path();
    assert_eq!(derive("./input.md"), "./input.translated.md");
    assert_eq!(derive("notes.md"), "notes.translated.md");
    assert_eq!(derive("a.b.c"), "a.b.translated.c");
    assert_eq!(derive("README"), "translated.README");
    assert_eq!(derive("trailing."), "translated.trailing.");
    assert_eq!(derive("two.."), "two.translated..");
    assert_eq!(derive(".hidden"), ".translated.hidden");
    assert_eq!(derive("."), "translated..");
}
