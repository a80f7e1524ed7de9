use vstd::prelude::*;

verus! {

/// The stored record of one account: an existence flag, a display name, and
/// win/total counters for matches and for predictions.
pub struct PlayerInfo {
    pub exists: bool,
    pub display_name: String,
    pub winning_matches: u64,
    pub total_matches: u64,
    pub winning_predictions: u64,
    pub total_predictions: u64,
}

/// The mathematical model of a record: the same fields, with the display
/// name as a sequence of characters.
pub struct PlayerView {
    pub exists: bool,
    pub display_name: Seq<char>,
    pub winning_matches: u64,
    pub total_matches: u64,
    pub winning_predictions: u64,
    pub total_predictions: u64,
}

impl View for PlayerInfo {
    type V = PlayerView;

    open spec fn view(&self) -> PlayerView {
        PlayerView {
            exists: self.exists,
            display_name: self.display_name@,
            winning_matches: self.winning_matches,
            total_matches: self.total_matches,
            winning_predictions: self.winning_predictions,
            total_predictions: self.total_predictions,
        }
    }
}

/// The record of an account the registry has never stored anything for: it
/// does not exist, its name is empty, and every counter is zero.
pub open spec fn absent_record() -> PlayerView {
    PlayerView {
        exists: false,
        display_name: Seq::empty(),
        winning_matches: 0u64,
        total_matches: 0u64,
        winning_predictions: 0u64,
        total_predictions: 0u64,
    }
}

/// Well-formedness of a record: each winning counter is bounded by its total,
/// and a record that does not exist holds only the defaults.
pub open spec fn record_wf(r: PlayerView) -> bool {
    &&& r.winning_matches <= r.total_matches
    &&& r.winning_predictions <= r.total_predictions
    &&& (!r.exists ==> r == absent_record())
}

impl PlayerInfo {
    /// Builds the record of an account that was never stored.
    pub fn absent() -> (r: PlayerInfo)
        ensures
            r@ == absent_record(),
    {
        PlayerInfo {
            exists: false,
            display_name: String::new(),
            winning_matches: 0,
            total_matches: 0,
            winning_predictions: 0,
            total_predictions: 0,
        }
    }

    /// Copies a record, name included.
    pub fn duplicate(&self) -> (r: PlayerInfo)
        ensures
            r@ == self@,
    {
        PlayerInfo {
            exists: self.exists,
            display_name: self.display_name.clone(),
            winning_matches: self.winning_matches,
            total_matches: self.total_matches,
            winning_predictions: self.winning_predictions,
            total_predictions: self.total_predictions,
        }
    }
}

} // verus!
