use vstd::prelude::*;
use crate::config::Strictness;

verus! {

/// Map key of the current Summoner's Rift.
pub const MAP_SUMMONERS_RIFT: u8 = 11;

/// Map key of the original Summer variant of Summoner's Rift.
pub const MAP_SUMMONERS_RIFT_SUMMER: u8 = 1;

/// Map key of the original Autumn variant of Summoner's Rift.
pub const MAP_SUMMONERS_RIFT_AUTUMN: u8 = 2;

/// The game-type tag a match record carries.
#[derive(Clone, Copy, Debug, PartialEq, Eq)]
pub enum GameTypeTag {
    Custom,
    Matched,
    Tutorial,
}

/// What a match record holds about one participant: the champion key the
/// participant played (`None` when the record's champion value could not be
/// resolved to a known champion) and the participant's team.
#[derive(Clone, Copy, Debug, PartialEq, Eq)]
pub struct ParticipantDetail {
    pub champion: Option<i32>,
    pub team_id: u16,
}

/// One team's outcome in a match.
#[derive(Clone, Copy, Debug, PartialEq, Eq)]
pub struct TeamOutcome {
    pub team_id: u16,
    pub win: bool,
}

/// A fetched match, reduced to the values the loss filter reads.
///
/// `participants` and `details` are positionally aligned: position `i` of
/// one names the same participant as position `i` of the other.  A record
/// that breaks the alignment, lacks the player, lacks the player's team
/// outcome, or carries an unresolvable champion is incomplete; the pipeline
/// skips it rather than fail.
#[derive(Clone, Debug, PartialEq, Eq)]
pub struct MatchRecord {
    pub participants: Vec<String>,
    pub details: Vec<ParticipantDetail>,
    pub teams: Vec<TeamOutcome>,
    pub game_type: Option<GameTypeTag>,
    pub map_id: u8,
    pub game_start_millis: i64,
}

/// Whether a map key names one of the recognized primary ranked map
/// variants: current Summoner's Rift or one of its two original variants.
pub open spec fn spec_map_recognized(map_id: u8) -> bool {
    ||| map_id == MAP_SUMMONERS_RIFT
    ||| map_id == MAP_SUMMONERS_RIFT_SUMMER
    ||| map_id == MAP_SUMMONERS_RIFT_AUTUMN
}

/// Runtime check for [`spec_map_recognized`].
pub fn map_recognized(map_id: u8) -> (r: bool)
    ensures
        r == spec_map_recognized(map_id),
{
    map_id == MAP_SUMMONERS_RIFT || map_id == MAP_SUMMONERS_RIFT_SUMMER
        || map_id == MAP_SUMMONERS_RIFT_AUTUMN
}

/// The mode-and-map part of the loss rule: permissive runs wave every match
/// through; strict runs ask for a standard matched game on a recognized map.
pub open spec fn spec_mode_and_map_pass(
    game_type: Option<GameTypeTag>,
    map_id: u8,
    strictness: Strictness,
) -> bool {
    match strictness {
        Strictness::Permissive => true,
        Strictness::Strict => game_type == Some(GameTypeTag::Matched) && spec_map_recognized(map_id),
    }
}

/// Runtime check for [`spec_mode_and_map_pass`].
pub fn mode_and_map_pass(
    game_type: &Option<GameTypeTag>,
    map_id: u8,
    strictness: Strictness,
) -> (r: bool)
    ensures
        r == spec_mode_and_map_pass(*game_type, map_id, strictness),
{
    match strictness {
        Strictness::Permissive => true,
        Strictness::Strict => {
            let tag_matched = match game_type {
                Some(GameTypeTag::Matched) => true,
                _ => false,
            };
            tag_matched && map_recognized(map_id)
        },
    }
}

} // verus!
