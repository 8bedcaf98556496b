use flipclip::codec::{parse_config, render_config};
use flipclip::config::PromptsConfig;
use flipclip::error::PipelineError;

fn mode_names(c: &PromptsConfig) -> Vec<String> {
    c.modes.iter().map(|p| p.0.clone()).collect()
}

#[test]
fn default_config_has_expected_modes() {
    let c = PromptsConfig::default();
    assert_eq!(c.default_mode, "tldr");
    assert_eq!(
        mode_names(&c),
        vec!["tldr", "bullets", "direct", "hebrew", "spanish"]
    );
    assert_eq!(c.modes[0].1, "Return a 2-sentence summary.");
    assert_eq!(c.modes[1].1, "Return max 5 action-oriented bullets.");
}

#[test]
fn load_or_init_missing_file_builds_and_persists_defaults() {
    // A missing file yields the default config and the text to persist.
    let (config, to_write) = PromptsConfig::load_or_init(None).unwrap();
    assert_eq!(config.default_mode, "tldr");
    assert!(mode_names(&config).contains(&config.default_mode));
    let persisted = to_write.expect("fresh defaults must be persisted");

    // A second load on the persisted text returns an equal config and
    // does not rewrite the defaults.
    let (again, rewritten) = PromptsConfig::load_or_init(Some(&persisted)).unwrap();
    assert_eq!(again, config);
    assert!(rewritten.is_none());
}

#[test]
fn load_or_init_existing_corrupt_file_fails() {
    let bad = String::from("{\"default_mode\": \"tldr\"");
    assert_eq!(
        PromptsConfig::load_or_init(Some(&bad)).unwrap_err(),
        PipelineError::ConfigCorrupt
    );
}

#[test]
fn render_config_is_exact() {
    let mut c = PromptsConfig::default();
    c.modes.truncate(2);
    assert_eq!(
        render_config(&c),
        "{\"default_mode\":\"tldr\",\"modes\":{\"tldr\":\"Return a 2-sentence summary.\",\"bullets\":\"Return max 5 action-oriented bullets.\"}}"
    );
}

#[test]
fn parse_accepts_whitespace_and_member_order() {
    let text = String::from(
        " {\n  \"modes\": { \"a\" : \"one\", \"b\" : \"two\" },\n  \"default_mode\": \"a\"\n}\n",
    );
    let c = parse_config(&text).unwrap();
    assert_eq!(c.default_mode, "a");
    assert_eq!(mode_names(&c), vec!["a", "b"]);
    assert_eq!(c.modes[0].1, "one");
    assert_eq!(c.modes[1].1, "two");
}

#[test]
fn parse_accepts_empty_modes() {
    let text = String::from("{\"default_mode\":\"x\",\"modes\":{}}");
    let c = parse_config(&text).unwrap();
    assert!(c.modes.is_empty());
}

#[test]
fn parse_decodes_escapes() {
    let text = String::from(
        "{\"default_mode\":\"q\\\"m\",\"modes\":{\"q\\\"m\":\"line\\none\\ttab \\\\ \\/ \\r\"}}",
    );
    let c = parse_config(&text).unwrap();
    assert_eq!(c.default_mode, "q\"m");
    assert_eq!(c.modes[0].1, "line\none\ttab \\ / \r");
}

#[test]
fn parse_round_trips_escaped_render() {
    let c = PromptsConfig {
        default_mode: String::from("a\"b"),
        modes: vec![(String::from("a\"b"), String::from("x\\y\nz\t\r"))],
    };
    let text = render_config(&c);
    assert_eq!(parse_config(&text).unwrap(), c);
}

#[test]
fn parse_rejects_bad_texts() {
    for bad in [
        "",
        "   ",
        "nonsense",
        "{\"default_mode\":\"a\"}",
        "{\"modes\":{}}",
        "{\"default_mode\":\"a\",\"modes\":{},\"extra\":1}",
        "{\"default_mode\":\"a\",\"other\":{}}",
        "{\"default_mode\":\"a\",\"modes\":{\"k\":1}}",
        "{\"default_mode\":\"a\",\"modes\":{\"k\":\"v\",\"k\":\"w\"}}",
        "{\"default_mode\":\"a\",\"modes\":{}} trailing",
        "{\"default_mode\":\"a\",\"modes\":{\"k\":\"bad \\u0041 escape\"}}",
    ] {
        let text = String::from(bad);
        assert_eq!(
            parse_config(&text).unwrap_err(),
            PipelineError::ConfigCorrupt,
            "should reject: {bad}"
        );
    }
}

#[test]
fn instruction_lookup() {
    let c = PromptsConfig::default();
    let name = String::from("direct");
    assert_eq!(
        c.instruction_for(&name).unwrap(),
        "Rewrite, removing filler, max 120 chars."
    );
    let missing = String::from("nope");
    assert!(c.instruction_for(&missing).is_none());
}
