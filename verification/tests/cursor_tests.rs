use flipclip::config::PromptsConfig;
use flipclip::cursor::next_mode;
use flipclip::error::PipelineError;

fn config(names: &[&str]) -> PromptsConfig {
    PromptsConfig {
        default_mode: names.first().map(|n| n.to_string()).unwrap_or_default(),
        modes: names
            .iter()
            .map(|n| (n.to_string(), format!("instruction for {n}")))
            .collect(),
    }
}

#[test]
fn advance_steps_through_in_order() {
    let c = config(&["a", "b", "c"]);
    assert_eq!(next_mode(&c, &String::from("a")).unwrap(), "b");
    assert_eq!(next_mode(&c, &String::from("b")).unwrap(), "c");
    assert_eq!(next_mode(&c, &String::from("c")).unwrap(), "a");
}

#[test]
fn advancing_n_times_visits_every_mode_once_and_returns() {
    let names = ["a", "b", "c", "d"];
    let c = config(&names);
    let start = String::from("c");
    let mut seen: Vec<String> = Vec::new();
    let mut cur = start.clone();
    for _ in 0..names.len() {
        cur = next_mode(&c, &cur).unwrap();
        seen.push(cur.clone());
    }
    assert_eq!(cur, start);
    let mut sorted = seen.clone();
    sorted.sort();
    assert_eq!(sorted, vec!["a", "b", "c", "d"]);
}

#[test]
fn removed_current_mode_falls_back_to_position_zero() {
    let c = config(&["a", "b", "c"]);
    // The current mode is gone: its position counts as 0, so the cursor
    // moves to the mode after the first one, without failing.
    assert_eq!(next_mode(&c, &String::from("zz")).unwrap(), "b");
    let single = config(&["only"]);
    assert_eq!(next_mode(&single, &String::from("zz")).unwrap(), "only");
}

#[test]
fn empty_mode_set_is_reported() {
    let c = config(&[]);
    assert_eq!(
        next_mode(&c, &String::from("a")).unwrap_err(),
        PipelineError::NoModesConfigured
    );
}
