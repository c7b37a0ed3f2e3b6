use vstd::prelude::*;
use crate::config::Strictness;
use crate::record::{MatchRecord, ParticipantDetail, TeamOutcome, spec_mode_and_map_pass, mode_and_map_pass};
use crate::search::{first_where, lemma_first_where_found, lemma_first_where_none};

verus! {

/// Why one match produced no loss result.  Every reason is recoverable:
/// the match is passed over and the run continues.
#[derive(Clone, Copy, Debug, PartialEq, Eq)]
pub enum SkipReason {
    /// The server answered that no match exists under the identifier.
    NotFound,
    /// The player's identifier is not among the match's participants.
    PlayerAbsent,
    /// The participant lists are misaligned: no detail at the player's position.
    DetailMissing,
    /// No team outcome carries the player's team identifier.
    TeamMissing,
    /// The player's team won, or the match fails the strict mode-and-map rule.
    NotALoss,
    /// The player's champion value could not be resolved.
    ChampionUnresolved,
    /// The match's start timestamp denotes no representable instant.
    TimestampUnrepresentable,
}

/// One qualifying loss: the champion the player lost on, the match's start
/// time in epoch milliseconds, and the match's identifier.
#[derive(Clone, Debug, PartialEq, Eq)]
pub struct LossResult {
    pub champion: i32,
    pub start_millis: i64,
    pub match_id: String,
}

/// What one match came to: a loss result, or a reason it was passed over.
#[derive(Debug, PartialEq, Eq)]
pub enum MatchOutcome {
    Qualified(LossResult),
    Skipped(SkipReason),
}

/// One identifier together with the answer its fetch produced: the match
/// record, or `None` when the server said the match does not exist.
pub struct FetchedMatch {
    pub match_id: String,
    pub record: Option<MatchRecord>,
}

/// Predicate picking the participant entry that names `player`.
pub open spec fn is_player(player: Seq<char>) -> spec_fn(String) -> bool {
    |s: String| s@ == player
}

/// Predicate picking the team outcome of team `team_id`.
pub open spec fn has_team(team_id: u16) -> spec_fn(TeamOutcome) -> bool {
    |t: TeamOutcome| t.team_id == team_id
}

/// Position of the first participant entry naming `player`, if any.
pub open spec fn spec_participant_index(participants: Seq<String>, player: Seq<char>) -> Option<int> {
    first_where(participants, is_player(player))
}

/// Position of the first team outcome of team `team_id`, if any.
pub open spec fn spec_team_index(teams: Seq<TeamOutcome>, team_id: u16) -> Option<int> {
    first_where(teams, has_team(team_id))
}

/// Whether an epoch-millisecond count denotes an instant the date library
/// can represent.
pub uninterp spec fn epoch_millis_representable(ms: int) -> bool;

/// Relies on chrono's `TimeZone::timestamp_millis_opt` on `Utc`: whether a
/// millisecond count maps to a representable instant depends on the count
/// alone, and `latest()` answers `Some` exactly for the representable ones.
#[verifier::external_body]
fn millis_representable(ms: i64) -> (r: bool)
    ensures
        r == epoch_millis_representable(ms as int),
{
    chrono::TimeZone::timestamp_millis_opt(&chrono::Utc, ms).latest().is_some()
}

/// Relies on `str`'s `PartialEq::eq`: two string slices compare equal
/// exactly when their character sequences are equal.
#[verifier::external_body]
fn str_eq(a: &str, b: &str) -> (r: bool)
    ensures
        r == (a@ == b@),
{
    a == b
}

/// The player's detail record and team outcome within a match record, when
/// the record is complete enough to hold both.
pub open spec fn spec_resolved(rec: MatchRecord, player: Seq<char>) -> Option<(ParticipantDetail, TeamOutcome)> {
    match spec_participant_index(rec.participants@, player) {
        None => None,
        Some(i) => if i >= rec.details@.len() {
            None
        } else {
            let d = rec.details@[i];
            match spec_team_index(rec.teams@, d.team_id) {
                None => None,
                Some(t) => Some((d, rec.teams@[t])),
            }
        },
    }
}

/// What evaluating one fetched match record comes to, step by step: locate
/// the player, read the aligned detail, find the team outcome, apply the
/// loss rule at the given strictness, resolve champion and start time.
pub open spec fn spec_evaluate(
    player: Seq<char>,
    match_id: String,
    rec: MatchRecord,
    strictness: Strictness,
) -> MatchOutcome {
    match spec_participant_index(rec.participants@, player) {
        None => MatchOutcome::Skipped(SkipReason::PlayerAbsent),
        Some(i) => if i >= rec.details@.len() {
            MatchOutcome::Skipped(SkipReason::DetailMissing)
        } else {
            let d = rec.details@[i];
            match spec_team_index(rec.teams@, d.team_id) {
                None => MatchOutcome::Skipped(SkipReason::TeamMissing),
                Some(t) => {
                    let team = rec.teams@[t];
                    if team.win || !spec_mode_and_map_pass(rec.game_type, rec.map_id, strictness) {
                        MatchOutcome::Skipped(SkipReason::NotALoss)
                    } else {
                        match d.champion {
                            None => MatchOutcome::Skipped(SkipReason::ChampionUnresolved),
                            Some(c) => if !epoch_millis_representable(rec.game_start_millis as int) {
                                MatchOutcome::Skipped(SkipReason::TimestampUnrepresentable)
                            } else {
                                MatchOutcome::Qualified(LossResult {
                                    champion: c,
                                    start_millis: rec.game_start_millis,
                                    match_id,
                                })
                            },
                        }
                    }
                },
            }
        },
    }
}

/// What one fetch answer comes to: a not-found answer is skipped, a record
/// is evaluated.
pub open spec fn spec_evaluate_fetched(
    player: Seq<char>,
    fetched: FetchedMatch,
    strictness: Strictness,
) -> MatchOutcome {
    match fetched.record {
        None => MatchOutcome::Skipped(SkipReason::NotFound),
        Some(rec) => spec_evaluate(player, fetched.match_id, rec, strictness),
    }
}

/// The loss results of a sequence of fetch answers, in input order: one per
/// qualifying match, nothing for a skipped one.
pub open spec fn spec_losses(
    player: Seq<char>,
    fetched: Seq<FetchedMatch>,
    strictness: Strictness,
) -> Seq<LossResult>
    decreases fetched.len(),
{
    if fetched.len() == 0 {
        Seq::empty()
    } else {
        let head = match spec_evaluate_fetched(player, fetched[0], strictness) {
            MatchOutcome::Qualified(l) => seq![l],
            MatchOutcome::Skipped(_) => Seq::<LossResult>::empty(),
        };
        head + spec_losses(player, fetched.skip(1), strictness)
    }
}

/// Position of the first participant entry naming `player`, if any.
fn locate_participant(participants: &Vec<String>, player: &str) -> (r: Option<usize>)
    ensures
        r matches Some(j) ==> j < participants@.len()
            && spec_participant_index(participants@, player@) == Some(j as int),
        r is None ==> spec_participant_index(participants@, player@) is None,
{
    let mut j: usize = 0;
    while j < participants.len()
        invariant
            j <= participants@.len(),
            forall|m: int| 0 <= m < j ==> participants@[m]@ != player@,
        decreases participants@.len() - j,
    {
        if str_eq(participants[j].as_str(), player) {
            proof {
                lemma_first_where_found(participants@, is_player(player@), j as int);
            }
            return Some(j);
        }
        j += 1;
    }
    proof {
        lemma_first_where_none(participants@, is_player(player@));
    }
    None
}

/// Position of the first team outcome of team `team_id`, if any.
fn locate_team(teams: &Vec<TeamOutcome>, team_id: u16) -> (r: Option<usize>)
    ensures
        r matches Some(j) ==> j < teams@.len() && spec_team_index(teams@, team_id) == Some(j as int),
        r is None ==> spec_team_index(teams@, team_id) is None,
{
    let mut j: usize = 0;
    while j < teams.len()
        invariant
            j <= teams@.len(),
            forall|m: int| 0 <= m < j ==> teams@[m].team_id != team_id,
        decreases teams@.len() - j,
    {
        if teams[j].team_id == team_id {
            proof {
                lemma_first_where_found(teams@, has_team(team_id), j as int);
            }
            return Some(j);
        }
        j += 1;
    }
    proof {
        lemma_first_where_none(teams@, has_team(team_id));
    }
    None
}

/// Evaluates one fetched match record against the loss rule.
pub fn evaluate_match(
    player: &str,
    match_id: String,
    rec: &MatchRecord,
    strictness: Strictness,
) -> (r: MatchOutcome)
    ensures
        r == spec_evaluate(player@, match_id, *rec, strictness),
{
    match locate_participant(&rec.participants, player) {
        None => MatchOutcome::Skipped(SkipReason::PlayerAbsent),
        Some(i) => {
            if i >= rec.details.len() {
                MatchOutcome::Skipped(SkipReason::DetailMissing)
            } else {
                let d = rec.details[i];
                match locate_team(&rec.teams, d.team_id) {
                    None => MatchOutcome::Skipped(SkipReason::TeamMissing),
                    Some(t) => {
                        let team = rec.teams[t];
                        if team.win || !mode_and_map_pass(&rec.game_type, rec.map_id, strictness) {
                            MatchOutcome::Skipped(SkipReason::NotALoss)
                        } else {
                            match d.champion {
                                None => MatchOutcome::Skipped(SkipReason::ChampionUnresolved),
                                Some(c) => {
                                    if millis_representable(rec.game_start_millis) {
                                        MatchOutcome::Qualified(LossResult {
                                            champion: c,
                                            start_millis: rec.game_start_millis,
                                            match_id,
                                        })
                                    } else {
                                        MatchOutcome::Skipped(SkipReason::TimestampUnrepresentable)
                                    }
                                },
                            }
                        }
                    },
                }
            }
        },
    }
}

/// Evaluates one fetch answer: a not-found answer is skipped, a record is
/// evaluated against the loss rule.
pub fn evaluate_fetched(player: &str, fetched: &FetchedMatch, strictness: Strictness) -> (r: MatchOutcome)
    ensures
        r == spec_evaluate_fetched(player@, *fetched, strictness),
{
    match &fetched.record {
        None => MatchOutcome::Skipped(SkipReason::NotFound),
        Some(rec) => evaluate_match(player, fetched.match_id.clone(), rec, strictness),
    }
}

/// Filters a sequence of fetch answers down to the player's loss results,
/// one per qualifying match, in input order.  Every incomplete or
/// non-qualifying match is passed over; none stops the run.
pub fn filter_losses(player: &str, fetched: &Vec<FetchedMatch>, strictness: Strictness) -> (r: Vec<LossResult>)
    ensures
        r@ == spec_losses(player@, fetched@, strictness),
{
    let mut out: Vec<LossResult> = Vec::new();
    let mut k: usize = 0;
    assert(fetched@.skip(0) =~= fetched@);
    while k < fetched.len()
        invariant
            0 <= k <= fetched@.len(),
            spec_losses(player@, fetched@, strictness)
                == out@ + spec_losses(player@, fetched@.skip(k as int), strictness),
        decreases fetched@.len() - k,
    {
        let ghost rest = fetched@.skip(k as int);
        let ghost out_before = out@;
        assert(rest[0] == fetched@[k as int]);
        let outcome = evaluate_fetched(player, &fetched[k], strictness);
        match outcome {
            MatchOutcome::Qualified(l) => out.push(l),
            MatchOutcome::Skipped(_) => {},
        }
        proof {
            assert(rest.skip(1) =~= fetched@.skip(k as int + 1));
            assert(out@ + spec_losses(player@, fetched@.skip(k as int + 1), strictness)
                =~= out_before + spec_losses(player@, rest, strictness));
        }
        k += 1;
    }
    assert(fetched@.skip(fetched@.len() as int) =~= Seq::<FetchedMatch>::empty());
    assert(out@ =~= out@ + Seq::<LossResult>::empty());
    out
}

/// Skip-on-incomplete law: a record lacking the player, lacking a detail at
/// the player's position, lacking the player's team outcome, or carrying an
/// unresolvable champion is skipped under the matching reason — never an
/// error, never a loss result.
pub proof fn lemma_skip_on_incomplete(
    player: Seq<char>,
    match_id: String,
    rec: MatchRecord,
    strictness: Strictness,
)
    ensures
        spec_participant_index(rec.participants@, player) is None
            ==> spec_evaluate(player, match_id, rec, strictness)
                == MatchOutcome::Skipped(SkipReason::PlayerAbsent),
        spec_participant_index(rec.participants@, player) is Some
            && spec_participant_index(rec.participants@, player)->0 >= rec.details@.len()
            ==> spec_evaluate(player, match_id, rec, strictness)
                == MatchOutcome::Skipped(SkipReason::DetailMissing),
        spec_participant_index(rec.participants@, player) is Some
            && spec_participant_index(rec.participants@, player)->0 < rec.details@.len()
            && spec_team_index(
                rec.teams@,
                rec.details@[spec_participant_index(rec.participants@, player)->0].team_id,
            ) is None
            ==> spec_evaluate(player, match_id, rec, strictness)
                == MatchOutcome::Skipped(SkipReason::TeamMissing),
        spec_resolved(rec, player) matches Some(pair) && !pair.1.win
            && spec_mode_and_map_pass(rec.game_type, rec.map_id, strictness)
            && pair.0.champion is None
            ==> spec_evaluate(player, match_id, rec, strictness)
                == MatchOutcome::Skipped(SkipReason::ChampionUnresolved),
{
}

/// Permissive loss law: when the player's record resolves, the team lost,
/// the champion resolves and the start time is representable, the match
/// yields exactly one loss result under the permissive rule, whatever its
/// game type and map.
pub proof fn lemma_loss_predicate_permissive(player: Seq<char>, match_id: String, rec: MatchRecord)
    requires
        spec_resolved(rec, player) is Some,
        !(spec_resolved(rec, player)->0).1.win,
        (spec_resolved(rec, player)->0).0.champion is Some,
        epoch_millis_representable(rec.game_start_millis as int),
    ensures
        spec_evaluate(player, match_id, rec, Strictness::Permissive)
            == MatchOutcome::Qualified(LossResult {
                champion: ((spec_resolved(rec, player)->0).0.champion)->0,
                start_millis: rec.game_start_millis,
                match_id,
            }),
{
}

/// A won match never yields a loss result, under either strictness.
pub proof fn lemma_win_never_qualifies(
    player: Seq<char>,
    match_id: String,
    rec: MatchRecord,
    strictness: Strictness,
)
    requires
        spec_resolved(rec, player) matches Some(pair) && pair.1.win,
    ensures
        spec_evaluate(player, match_id, rec, strictness)
            == MatchOutcome::Skipped(SkipReason::NotALoss),
{
}

/// Strict rejection law: a match of a non-matched game type or on an
/// unrecognized map never yields a loss result under the strict rule, lost
/// or not.
pub proof fn lemma_strict_rejects_mode_or_map(player: Seq<char>, match_id: String, rec: MatchRecord)
    requires
        !spec_mode_and_map_pass(rec.game_type, rec.map_id, Strictness::Strict),
    ensures
        !(spec_evaluate(player, match_id, rec, Strictness::Strict) matches MatchOutcome::Qualified(_)),
{
}

/// Strict loss law: a lost, fully resolving match of the matched game type
/// on a recognized map yields exactly one loss result under the strict rule.
pub proof fn lemma_loss_predicate_strict(player: Seq<char>, match_id: String, rec: MatchRecord)
    requires
        spec_resolved(rec, player) is Some,
        !(spec_resolved(rec, player)->0).1.win,
        (spec_resolved(rec, player)->0).0.champion is Some,
        epoch_millis_representable(rec.game_start_millis as int),
        spec_mode_and_map_pass(rec.game_type, rec.map_id, Strictness::Strict),
    ensures
        spec_evaluate(player, match_id, rec, Strictness::Strict)
            == MatchOutcome::Qualified(LossResult {
                champion: ((spec_resolved(rec, player)->0).0.champion)->0,
                start_millis: rec.game_start_millis,
                match_id,
            }),
{
}

/// Tolerance law: a skipped match — a not-found fetch among them —
/// contributes nothing to the loss results and leaves the processing of
/// every later identifier unchanged.
pub proof fn lemma_skipped_contributes_nothing(
    player: Seq<char>,
    fetched: Seq<FetchedMatch>,
    strictness: Strictness,
)
    requires
        fetched.len() > 0,
    ensures
        fetched[0].record is None
            ==> spec_evaluate_fetched(player, fetched[0], strictness)
                == MatchOutcome::Skipped(SkipReason::NotFound),
        spec_evaluate_fetched(player, fetched[0], strictness) matches MatchOutcome::Skipped(_)
            ==> spec_losses(player, fetched, strictness)
                == spec_losses(player, fetched.skip(1), strictness),
{
    if spec_evaluate_fetched(player, fetched[0], strictness) is Skipped {
        assert(spec_losses(player, fetched, strictness)
            =~= spec_losses(player, fetched.skip(1), strictness));
    }
}

} // verus!
