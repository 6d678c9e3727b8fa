use vstd::prelude::*;

use crate::models::error::Error;
use crate::models::question::{JeopardyQuestion, QuestionModel, Round};

verus! {

/// Mathematical model of a round: its questions in document order.
pub struct RoundModel {
    pub questions: Seq<QuestionModel>,
    pub round: Round,
}

/// One board of an episode. The `questions` sequence keeps the source
/// document's left-to-right, top-to-bottom clue order; category assignment
/// is recomputed from that order, so it is never re-sorted.
#[derive(Debug, Clone)]
pub struct JeopardyRound {
    pub questions: Vec<JeopardyQuestion>,
    pub round: Round,
}

impl View for JeopardyRound {
    type V = RoundModel;

    open spec fn view(&self) -> RoundModel {
        RoundModel {
            questions: self.questions@.map_values(|q: JeopardyQuestion| q@),
            round: self.round,
        }
    }
}

/// Staged constructor of a round; `build` validates that both fields were
/// supplied.
pub struct JeopardyRoundBuilder {
    pub questions: Option<Vec<JeopardyQuestion>>,
    pub round: Option<Round>,
}

/// The name of the first required field that a round builder finds unset:
/// `questions`, then `round`.
pub open spec fn missing_round_field(b: JeopardyRoundBuilder) -> Seq<char> {
    if b.questions is None {
        "questions"@
    } else {
        "round"@
    }
}

impl JeopardyRoundBuilder {
    /// Creates a builder with both fields unset.
    pub fn new() -> (r: Self)
        ensures
            r.questions is None,
            r.round is None,
    {
        JeopardyRoundBuilder { questions: None, round: None }
    }

    /// Sets the ordered question list.
    pub fn set_questions(&mut self, questions: Vec<JeopardyQuestion>)
        ensures
            *final(self) == (JeopardyRoundBuilder { questions: Some(questions), ..*old(self) }),
    {
        self.questions = Some(questions);
    }

    /// Sets the round tag.
    pub fn set_round(&mut self, round: Round)
        ensures
            *final(self) == (JeopardyRoundBuilder { round: Some(round), ..*old(self) }),
    {
        self.round = Some(round);
    }

    /// Yields the round when `questions` and `round` were both set, and
    /// otherwise a `MissingField` error naming the first absent one.
    pub fn build(self) -> (r: Result<JeopardyRound, Error>)
        ensures
            match r {
                Ok(rd) => self.questions is Some && self.round is Some
                    && rd.questions@ == self.questions->0@ && rd.round == self.round->0,
                Err(e) => (self.questions is None || self.round is None)
                    && (e matches Error::MissingField(f) && f@ == missing_round_field(self)),
            },
    {
        let Some(questions) = self.questions else {
            return Err(Error::MissingField("questions"));
        };

        let Some(round) = self.round else {
            return Err(Error::MissingField("round"));
        };

        Ok(JeopardyRound { questions, round })
    }
}

} // verus!
