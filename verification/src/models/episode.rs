use vstd::prelude::*;

use crate::models::error::Error;
use crate::models::round::{JeopardyRound, RoundModel};

verus! {

/// Mathematical model of an episode record.
pub struct EpisodeModel {
    pub air_date: Option<Seq<char>>,
    pub rounds: (RoundModel, RoundModel, RoundModel),
    pub id: u32,
}

/// One parsed episode, immutable once built. `rounds` is the fixed 3-tuple
/// Jeopardy, Double Jeopardy, Final Jeopardy, in that order; `air_date` is
/// absent when the title heading is missing or carries no separator.
#[derive(Debug)]
pub struct JeopardyEpisode {
    pub air_date: Option<String>,
    pub rounds: (JeopardyRound, JeopardyRound, JeopardyRound),
    pub id: u32,
}

impl View for JeopardyEpisode {
    type V = EpisodeModel;

    open spec fn view(&self) -> EpisodeModel {
        EpisodeModel {
            air_date: match self.air_date {
                Some(d) => Some(d@),
                None => None,
            },
            rounds: (self.rounds.0@, self.rounds.1@, self.rounds.2@),
            id: self.id,
        }
    }
}

/// Staged constructor of an episode; `build` validates that `id` and
/// `rounds` were supplied. `air_date` is optional and defaults to absent.
pub struct JeopardyEpisodeBuilder {
    pub air_date: Option<String>,
    pub rounds: Option<(JeopardyRound, JeopardyRound, JeopardyRound)>,
    pub id: Option<u32>,
}

/// The name of the first required field that an episode builder finds
/// unset: `id`, then `rounds`.
pub open spec fn missing_episode_field(b: JeopardyEpisodeBuilder) -> Seq<char> {
    if b.id is None {
        "id"@
    } else {
        "rounds"@
    }
}

impl JeopardyEpisodeBuilder {
    /// Creates a builder with every field unset.
    pub fn new() -> (r: Self)
        ensures
            r.air_date is None,
            r.rounds is None,
            r.id is None,
    {
        JeopardyEpisodeBuilder { air_date: None, rounds: None, id: None }
    }

    /// Sets the air date, present or absent.
    pub fn set_air_date(&mut self, air_date: Option<String>)
        ensures
            *final(self) == (JeopardyEpisodeBuilder { air_date, ..*old(self) }),
    {
        self.air_date = air_date;
    }

    /// Sets the 3-tuple of rounds.
    pub fn set_rounds(&mut self, rounds: (JeopardyRound, JeopardyRound, JeopardyRound))
        ensures
            *final(self) == (JeopardyEpisodeBuilder { rounds: Some(rounds), ..*old(self) }),
    {
        self.rounds = Some(rounds);
    }

    /// Sets the externally supplied episode number.
    pub fn set_id(&mut self, id: u32)
        ensures
            *final(self) == (JeopardyEpisodeBuilder { id: Some(id), ..*old(self) }),
    {
        self.id = Some(id);
    }

    /// Yields the episode when `id` and `rounds` were both set, and
    /// otherwise a `MissingField` error naming the first absent one.
    pub fn build(self) -> (r: Result<JeopardyEpisode, Error>)
        ensures
            match r {
                Ok(ep) => self.id is Some && self.rounds is Some
                    && ep.id == self.id->0
                    && ep.rounds == self.rounds->0
                    && ep.air_date == self.air_date,
                Err(e) => (self.id is None || self.rounds is None)
                    && (e matches Error::MissingField(f) && f@ == missing_episode_field(self)),
            },
    {
        let Some(id) = self.id else {
            return Err(Error::MissingField("id"));
        };

        let Some(rounds) = self.rounds else {
            return Err(Error::MissingField("rounds"));
        };

        Ok(JeopardyEpisode { air_date: self.air_date, rounds, id })
    }
}

} // verus!
