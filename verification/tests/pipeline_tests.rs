use nuzlolcke::config::{Strictness, Window};
use nuzlolcke::paginator::paginate_script;
use nuzlolcke::pipeline::{
    evaluate_fetched, evaluate_match, filter_losses, FetchedMatch, LossResult, MatchOutcome,
    SkipReason,
};
use nuzlolcke::record::{GameTypeTag, MatchRecord, ParticipantDetail, TeamOutcome};

const PLAYER: &str = "puuid-player";
const OTHER: &str = "puuid-other";

fn losing_record() -> MatchRecord {
    MatchRecord {
        participants: vec![OTHER.to_string(), PLAYER.to_string()],
        details: vec![
            ParticipantDetail { champion: Some(2), team_id: 100 },
            ParticipantDetail { champion: Some(1), team_id: 200 },
        ],
        teams: vec![
            TeamOutcome { team_id: 100, win: true },
            TeamOutcome { team_id: 200, win: false },
        ],
        game_type: Some(GameTypeTag::Matched),
        map_id: 11,
        game_start_millis: 1_712_000_000_000,
    }
}

#[test]
fn skip_when_player_absent() {
    let mut rec = losing_record();
    rec.participants = vec![OTHER.to_string()];
    let outcome = evaluate_match(PLAYER, "m1".to_string(), &rec, Strictness::Permissive);
    assert_eq!(outcome, MatchOutcome::Skipped(SkipReason::PlayerAbsent));
    let fetched = vec![FetchedMatch { match_id: "m1".to_string(), record: Some(rec) }];
    assert!(filter_losses(PLAYER, &fetched, Strictness::Permissive).is_empty());
}

#[test]
fn skip_when_detail_missing() {
    let mut rec = losing_record();
    rec.details.pop();
    let outcome = evaluate_match(PLAYER, "m1".to_string(), &rec, Strictness::Permissive);
    assert_eq!(outcome, MatchOutcome::Skipped(SkipReason::DetailMissing));
}

#[test]
fn skip_when_team_outcome_missing() {
    let mut rec = losing_record();
    rec.teams = vec![TeamOutcome { team_id: 100, win: true }];
    let outcome = evaluate_match(PLAYER, "m1".to_string(), &rec, Strictness::Permissive);
    assert_eq!(outcome, MatchOutcome::Skipped(SkipReason::TeamMissing));
}

#[test]
fn skip_when_champion_unresolved() {
    let mut rec = losing_record();
    rec.details[1].champion = None;
    let outcome = evaluate_match(PLAYER, "m1".to_string(), &rec, Strictness::Permissive);
    assert_eq!(outcome, MatchOutcome::Skipped(SkipReason::ChampionUnresolved));
}

#[test]
fn skip_when_timestamp_unrepresentable() {
    let mut rec = losing_record();
    rec.game_start_millis = i64::MAX;
    let outcome = evaluate_match(PLAYER, "m1".to_string(), &rec, Strictness::Permissive);
    assert_eq!(outcome, MatchOutcome::Skipped(SkipReason::TimestampUnrepresentable));
}

#[test]
fn permissive_counts_loss_on_any_mode_and_map() {
    let mut rec = losing_record();
    rec.game_type = Some(GameTypeTag::Custom);
    rec.map_id = 99;
    let outcome = evaluate_match(PLAYER, "m1".to_string(), &rec, Strictness::Permissive);
    assert_eq!(
        outcome,
        MatchOutcome::Qualified(LossResult {
            champion: 1,
            start_millis: 1_712_000_000_000,
            match_id: "m1".to_string(),
        })
    );
}

#[test]
fn permissive_ignores_won_match() {
    let mut rec = losing_record();
    rec.teams[1].win = true;
    let outcome = evaluate_match(PLAYER, "m1".to_string(), &rec, Strictness::Permissive);
    assert_eq!(outcome, MatchOutcome::Skipped(SkipReason::NotALoss));
}

#[test]
fn strict_rejects_unrecognized_map() {
    let mut rec = losing_record();
    rec.map_id = 12;
    let outcome = evaluate_match(PLAYER, "m1".to_string(), &rec, Strictness::Strict);
    assert_eq!(outcome, MatchOutcome::Skipped(SkipReason::NotALoss));
}

#[test]
fn strict_rejects_non_matched_game_type() {
    let mut rec = losing_record();
    rec.game_type = Some(GameTypeTag::Custom);
    let outcome = evaluate_match(PLAYER, "m1".to_string(), &rec, Strictness::Strict);
    assert_eq!(outcome, MatchOutcome::Skipped(SkipReason::NotALoss));

    rec.game_type = None;
    let outcome = evaluate_match(PLAYER, "m1".to_string(), &rec, Strictness::Strict);
    assert_eq!(outcome, MatchOutcome::Skipped(SkipReason::NotALoss));
}

#[test]
fn strict_accepts_recognized_map_variants() {
    for map_id in [11u8, 1, 2] {
        let mut rec = losing_record();
        rec.map_id = map_id;
        let outcome = evaluate_match(PLAYER, "m1".to_string(), &rec, Strictness::Strict);
        assert!(matches!(outcome, MatchOutcome::Qualified(_)));
    }
}

#[test]
fn not_found_produces_no_result_and_does_not_abort() {
    let missing = FetchedMatch { match_id: "m0".to_string(), record: None };
    assert_eq!(
        evaluate_fetched(PLAYER, &missing, Strictness::Strict),
        MatchOutcome::Skipped(SkipReason::NotFound)
    );
    let fetched = vec![
        FetchedMatch { match_id: "m0".to_string(), record: None },
        FetchedMatch { match_id: "m1".to_string(), record: Some(losing_record()) },
    ];
    let losses = filter_losses(PLAYER, &fetched, Strictness::Strict);
    assert_eq!(losses.len(), 1);
    assert_eq!(losses[0].match_id, "m1");
}

#[test]
fn window_rejects_reversed_bounds() {
    assert!(Window::new(10, 5).is_none());
    let w = Window::new(5, 10).unwrap();
    assert_eq!((w.from_ts, w.to_ts), (5, 10));
}

#[test]
fn end_to_end_scenario() {
    // window over April 2024, in epoch seconds
    let window = Window::new(1_711_929_600, 1_714_521_599).unwrap();
    assert!(window.from_ts <= window.to_ts);

    let pages = vec![vec!["m1".to_string(), "m2".to_string()], vec![]];
    let (ids, offsets) = paginate_script(0, &pages);
    assert_eq!(ids, vec!["m1".to_string(), "m2".to_string()]);
    assert_eq!(offsets, vec![0, 2]);

    let t1: i64 = 1_712_345_678_000;
    let mut m1 = losing_record();
    m1.game_start_millis = t1;
    let mut m2 = losing_record();
    m2.teams[1].win = true;

    let fetched: Vec<FetchedMatch> = ids
        .iter()
        .map(|id| FetchedMatch {
            match_id: id.clone(),
            record: Some(if id == "m1" { m1.clone() } else { m2.clone() }),
        })
        .collect();

    let losses = filter_losses(PLAYER, &fetched, Strictness::Strict);
    assert_eq!(losses.len(), 1);
    assert_eq!(
        losses[0],
        LossResult { champion: 1, start_millis: t1, match_id: "m1".to_string() }
    );
}
