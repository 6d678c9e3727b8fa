use vstd::prelude::*;

use crate::models::episode::JeopardyEpisode;
use crate::models::error::Error;

verus! {

/// Carries the episodes bound for JSON output. The encoding itself
/// happens outside the library; the library validates and hands over the
/// data.
#[derive(Debug)]
pub struct Serializer {
    pub episodes: Vec<JeopardyEpisode>,
}

/// Staged constructor of a serializer; `build` validates that the
/// episodes were supplied.
#[derive(Debug)]
pub struct SerializerBuilder {
    pub episodes: Option<Vec<JeopardyEpisode>>,
}

impl SerializerBuilder {
    /// Creates a builder with no episodes set.
    pub fn new() -> (r: Self)
        ensures
            r.episodes is None,
    {
        SerializerBuilder { episodes: None }
    }

    /// Sets the episodes.
    pub fn set_episodes(&mut self, episodes: Vec<JeopardyEpisode>)
        ensures
            *final(self) == (SerializerBuilder { episodes: Some(episodes) }),
    {
        self.episodes = Some(episodes);
    }

    /// Yields the serializer when the episodes were set, and otherwise a
    /// `MissingField` error naming them.
    pub fn build(self) -> (r: Result<Serializer, Error>)
        ensures
            match r {
                Ok(s) => self.episodes is Some && s.episodes == self.episodes->0,
                Err(e) => self.episodes is None && (e matches Error::MissingField(f) && f@
                    == "episodes"@),
            },
    {
        let Some(episodes) = self.episodes else {
            return Err(Error::MissingField("episodes"));
        };

        Ok(Serializer { episodes })
    }
}

} // verus!
