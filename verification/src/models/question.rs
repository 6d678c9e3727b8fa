use vstd::prelude::*;

verus! {

/// Which of an episode's three boards a question belongs to.
#[derive(Debug, PartialEq, Eq, Structural, Clone, Copy)]
pub enum Round {
    Jeopardy,
    DoubleJeopardy,
    FinalJeopardy,
}

/// Mathematical model of a question: the text fields as character sequences.
pub struct QuestionModel {
    pub prompt: Seq<char>,
    pub category: Seq<char>,
    pub round: Round,
    pub value: Option<u32>,
    pub answer: Option<Seq<char>>,
}

/// One clue of a board, immutable once built. `value` is absent exactly for
/// the final round; `answer` is absent when the document carries no
/// correct-response marker at the clue's ordinal.
#[derive(Debug, Clone)]
pub struct JeopardyQuestion {
    pub prompt: String,
    pub category: String,
    pub round: Round,
    pub value: Option<u32>,
    pub answer: Option<String>,
}

impl View for JeopardyQuestion {
    type V = QuestionModel;

    open spec fn view(&self) -> QuestionModel {
        QuestionModel {
            prompt: self.prompt@,
            category: self.category@,
            round: self.round,
            value: self.value,
            answer: match self.answer {
                Some(a) => Some(a@),
                None => None,
            },
        }
    }
}

/// The error a question builder reports when a required field is unset.
#[derive(Debug, Clone)]
pub struct JeopardyQuestionBuilderError {
    pub msg: String,
}

impl JeopardyQuestionBuilderError {
    /// Creates an error carrying the given description.
    pub fn new(msg: &str) -> (r: JeopardyQuestionBuilderError)
        ensures
            r.msg@ == msg@,
    {
        JeopardyQuestionBuilderError { msg: msg.to_owned() }
    }

    /// The full human-readable description of the failure.
    pub fn message(&self) -> (r: String)
        ensures
            r@ == "Could not build jeopardy question from data: err="@ + self.msg@,
    {
        let mut r = String::new();
        r.append("Could not build jeopardy question from data: err=");
        r.append(self.msg.as_str());
        r
    }
}

/// Staged constructor of a question: every field starts unset, and `build`
/// validates that the required ones were supplied.
pub struct JeopardyQuestionBuilder {
    pub prompt: Option<String>,
    pub category: Option<String>,
    pub round: Option<Round>,
    pub value: Option<u32>,
    pub answer: Option<String>,
}

/// The record a builder yields when all its required fields are set.
pub open spec fn built_question(b: JeopardyQuestionBuilder) -> QuestionModel {
    QuestionModel {
        prompt: b.prompt->0@,
        category: b.category->0@,
        round: b.round->0,
        value: b.value,
        answer: match b.answer {
            Some(a) => Some(a@),
            None => None,
        },
    }
}

/// The description of the first required field that a question builder
/// finds unset: `prompt`, then `category`, then `round`.
pub open spec fn missing_question_field(b: JeopardyQuestionBuilder) -> Seq<char> {
    if b.prompt is None {
        "Missing prompt"@
    } else if b.category is None {
        "Missing category"@
    } else {
        "Missing round"@
    }
}

impl JeopardyQuestionBuilder {
    /// Creates a builder with every field unset.
    pub fn new() -> (r: Self)
        ensures
            r.prompt is None,
            r.category is None,
            r.round is None,
            r.value is None,
            r.answer is None,
    {
        JeopardyQuestionBuilder {
            prompt: None,
            category: None,
            round: None,
            value: None,
            answer: None,
        }
    }

    /// Sets the prompt.
    pub fn set_prompt(&mut self, prompt: String)
        ensures
            *final(self) == (JeopardyQuestionBuilder { prompt: Some(prompt), ..*old(self) }),
    {
        self.prompt = Some(prompt);
    }

    /// Sets the category.
    pub fn set_category(&mut self, category: String)
        ensures
            *final(self) == (JeopardyQuestionBuilder { category: Some(category), ..*old(self) }),
    {
        self.category = Some(category);
    }

    /// Sets the round.
    pub fn set_round(&mut self, round: Round)
        ensures
            *final(self) == (JeopardyQuestionBuilder { round: Some(round), ..*old(self) }),
    {
        self.round = Some(round);
    }

    /// Sets the point value, present or absent.
    pub fn set_value(&mut self, value: Option<u32>)
        ensures
            *final(self) == (JeopardyQuestionBuilder { value, ..*old(self) }),
    {
        self.value = value;
    }

    /// Sets the correct response, present or absent.
    pub fn set_answer(&mut self, answer: Option<String>)
        ensures
            *final(self) == (JeopardyQuestionBuilder { answer, ..*old(self) }),
    {
        self.answer = answer;
    }

    /// Yields the question when `prompt`, `category` and `round` were all
    /// set, and otherwise the error naming the first absent one. `value`
    /// and `answer` default to absent; the builder does not sanitize.
    pub fn build(self) -> (r: Result<JeopardyQuestion, JeopardyQuestionBuilderError>)
        ensures
            match r {
                Ok(q) => self.prompt is Some && self.category is Some && self.round is Some
                    && q@ == built_question(self),
                Err(e) => (self.prompt is None || self.category is None || self.round is None)
                    && e.msg@ == missing_question_field(self),
            },
    {
        let Some(prompt) = self.prompt else {
            return Err(JeopardyQuestionBuilderError::new("Missing prompt"));
        };

        let Some(category) = self.category else {
            return Err(JeopardyQuestionBuilderError::new("Missing category"));
        };

        let Some(round) = self.round else {
            return Err(JeopardyQuestionBuilderError::new("Missing round"));
        };

        Ok(JeopardyQuestion { prompt, category, round, value: self.value, answer: self.answer })
    }
}

} // verus!
