use nuzlolcke::pipeline::LossResult;
use nuzlolcke::report::{distinct_champions, render_champion_name, render_champion_names};

fn loss(champion: i32, n: i64) -> LossResult {
    LossResult { champion, start_millis: n, match_id: format!("m{}", n) }
}

#[test]
fn distinct_champion_reduction_keeps_first_loss_order() {
    // champions [A, B, A, C] reduce to [A, B, C]
    let losses = vec![loss(10, 1), loss(20, 2), loss(10, 3), loss(30, 4)];
    assert_eq!(distinct_champions(&losses), vec![10, 20, 30]);
}

#[test]
fn distinct_champions_of_empty_run_is_empty() {
    assert!(distinct_champions(&Vec::new()).is_empty());
}

#[test]
fn render_known_champion_by_name() {
    assert_eq!(render_champion_name(1), "Annie");
}

#[test]
fn render_unknown_champion_as_placeholder() {
    assert_eq!(render_champion_name(0), "UNKNOWN");
}

#[test]
fn render_names_in_order() {
    let rendered = render_champion_names(&vec![1, 0]);
    assert_eq!(rendered, vec!["Annie".to_string(), "UNKNOWN".to_string()]);
}
