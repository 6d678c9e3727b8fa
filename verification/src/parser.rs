use vstd::prelude::*;

use ::scraper::Html;

use crate::models::episode::{EpisodeModel, JeopardyEpisode, JeopardyEpisodeBuilder};
use crate::models::error::Error;
use crate::models::question::{JeopardyQuestion, JeopardyQuestionBuilder, QuestionModel, Round};
use crate::models::round::{JeopardyRound, JeopardyRoundBuilder, RoundModel};
use crate::sanitizer::{chars_of, matches_at, sanitize, sanitize_chars, spec_sanitize};

verus! {

#[verifier::external_type_specification]
#[verifier::external_body]
pub struct ExHtml(Html);

/// The inner HTML of every element matching `inner` within the first
/// element of `doc` matching `outer`, in document order; absent when
/// nothing matches `outer`. The markup tree fixes this value: it depends
/// on the document and the two selectors alone.
pub uninterp spec fn doc_inner_htmls(doc: Html, outer: Seq<char>, inner: Seq<char>) -> Option<
    Seq<Seq<char>>,
>;

/// The text content — all text nodes joined in order — of every element
/// matching `inner` within the first element of `doc` matching `outer`;
/// absent when nothing matches `outer`. Fixed by the document and the two
/// selectors alone.
pub uninterp spec fn doc_texts(doc: Html, outer: Seq<char>, inner: Seq<char>) -> Option<
    Seq<Seq<char>>,
>;

/// The inner HTML of the first element of `doc` matching `sel`, absent
/// when nothing matches. Fixed by the document and the selector alone.
pub uninterp spec fn doc_first_inner_html(doc: Html, sel: Seq<char>) -> Option<Seq<char>>;

/// The character sequences of a vector of strings.
pub open spec fn strs_view(v: Vec<String>) -> Seq<Seq<char>> {
    v@.map_values(|s: String| s@)
}

/// The character sequences behind an optional vector of strings.
pub open spec fn texts_view(r: Option<Vec<String>>) -> Option<Seq<Seq<char>>> {
    match r {
        Some(v) => Some(strs_view(v)),
        None => None,
    }
}

/// Relies on scraper's `Selector::parse`, `Html::select` and
/// `ElementRef::inner_html`: finds the first element matching `outer` and
/// hands back the inner HTML of each element matching `inner` inside it,
/// in document order; `None` when nothing matches `outer` (or a selector
/// does not parse, which the library's constant selectors never hit).
#[verifier::external_body]
fn select_inner_htmls(doc: &Html, outer: &str, inner: &str) -> (r: Option<Vec<String>>)
    ensures
        texts_view(r) == doc_inner_htmls(*doc, outer@, inner@),
{
    let outer_sel = ::scraper::Selector::parse(outer).ok()?;
    let inner_sel = ::scraper::Selector::parse(inner).ok()?;
    let fragment = doc.select(&outer_sel).next()?;
    let mut out = Vec::new();
    for element in fragment.select(&inner_sel) {
        out.push(element.inner_html());
    }
    Some(out)
}

/// Relies on scraper's `Selector::parse`, `Html::select` and
/// `ElementRef::text`: finds the first element matching `outer` and hands
/// back, for each element matching `inner` inside it in document order,
/// that element's text nodes joined; `None` when nothing matches `outer`
/// (or a selector does not parse).
#[verifier::external_body]
fn select_texts(doc: &Html, outer: &str, inner: &str) -> (r: Option<Vec<String>>)
    ensures
        texts_view(r) == doc_texts(*doc, outer@, inner@),
{
    let outer_sel = ::scraper::Selector::parse(outer).ok()?;
    let inner_sel = ::scraper::Selector::parse(inner).ok()?;
    let fragment = doc.select(&outer_sel).next()?;
    let mut out = Vec::new();
    for element in fragment.select(&inner_sel) {
        let mut text = String::new();
        for piece in element.text() {
            text.push_str(piece);
        }
        out.push(text);
    }
    Some(out)
}

/// Relies on scraper's `Selector::parse`, `Html::select` and
/// `ElementRef::inner_html`: the inner HTML of the first element of the
/// document matching `sel`; `None` when nothing matches (or the selector
/// does not parse).
#[verifier::external_body]
fn select_first_inner_html(doc: &Html, sel: &str) -> (r: Option<String>)
    ensures
        (match r {
            Some(s) => Some(s@),
            None => None::<Seq<char>>,
        }) == doc_first_inner_html(*doc, sel@),
{
    let parsed = ::scraper::Selector::parse(sel).ok()?;
    let element = doc.select(&parsed).next()?;
    Some(element.inner_html())
}

/// The id selector anchoring a round's table fragment.
pub open spec fn spec_table_selector(round: Round) -> Seq<char> {
    match round {
        Round::Jeopardy => "#jeopardy_round"@,
        Round::DoubleJeopardy => "#double_jeopardy_round"@,
        Round::FinalJeopardy => "#final_jeopardy_round"@,
    }
}

/// The id selector anchoring a round's table fragment.
pub fn table_selector(round: Round) -> (r: &'static str)
    ensures
        r@ == spec_table_selector(round),
{
    match round {
        Round::Jeopardy => "#jeopardy_round",
        Round::DoubleJeopardy => "#double_jeopardy_round",
        Round::FinalJeopardy => "#final_jeopardy_round",
    }
}

/// The selector of the category-name cells of a fragment.
pub open spec fn spec_category_selector() -> Seq<char> {
    "td.category td.category_name"@
}

/// The selector of the category-name cells of a fragment.
pub fn category_selector() -> (r: &'static str)
    ensures
        r@ == spec_category_selector(),
{
    "td.category td.category_name"
}

/// The selector of the clue-prompt cells of a fragment: the first text
/// cell of each clue only, since some cells carry secondary nested text.
pub open spec fn spec_prompt_selector() -> Seq<char> {
    "td.clue_text:first-of-type"@
}

/// The selector of the clue-prompt cells of a fragment.
pub fn prompt_selector() -> (r: &'static str)
    ensures
        r@ == spec_prompt_selector(),
{
    "td.clue_text:first-of-type"
}

/// The selector of the correct-response markers of a round's fragment.
/// The marker lives in the clue's own cell for the standard rounds, and in
/// the category cell for the final round, whose board differs.
pub open spec fn spec_answer_selector(round: Round) -> Seq<char> {
    match round {
        Round::Jeopardy => "td.clue .correct_response"@,
        Round::DoubleJeopardy => "td.clue .correct_response"@,
        Round::FinalJeopardy => "td.category .correct_response"@,
    }
}

/// The selector of the correct-response markers of a round's fragment.
pub fn answer_selector(round: Round) -> (r: &'static str)
    ensures
        r@ == spec_answer_selector(round),
{
    match round {
        Round::Jeopardy => "td.clue .correct_response",
        Round::DoubleJeopardy => "td.clue .correct_response",
        Round::FinalJeopardy => "td.category .correct_response",
    }
}

/// The selector of the title heading carrying the air date.
pub open spec fn spec_title_selector() -> Seq<char> {
    "#game_title h1"@
}

/// The selector of the title heading carrying the air date.
pub fn title_selector() -> (r: &'static str)
    ensures
        r@ == spec_title_selector(),
{
    "#game_title h1"
}

/// The round's extracted category list.
pub open spec fn spec_categories(doc: Html, round: Round) -> Option<Seq<Seq<char>>> {
    doc_inner_htmls(doc, spec_table_selector(round), spec_category_selector())
}

/// The round's extracted prompt list, in board order.
pub open spec fn spec_prompts(doc: Html, round: Round) -> Option<Seq<Seq<char>>> {
    doc_inner_htmls(doc, spec_table_selector(round), spec_prompt_selector())
}

/// The round's extracted correct responses, in board order.
pub open spec fn spec_answers(doc: Html, round: Round) -> Option<Seq<Seq<char>>> {
    doc_texts(doc, spec_table_selector(round), spec_answer_selector(round))
}

/// The round's table anchor is present, so each of its extractions
/// yields a list.
pub open spec fn round_available(doc: Html, round: Round) -> bool {
    &&& spec_categories(doc, round) is Some
    &&& spec_prompts(doc, round) is Some
    &&& spec_answers(doc, round) is Some
}

/// The point value a clue's position implies: bands of six ordinals worth
/// 200 through 1000, doubled in the second round, nothing in the final
/// round, and a defensive 0 outside a standard board's 30 positions.
pub open spec fn spec_question_value(index: int, round: Round) -> Option<u32> {
    if round == Round::FinalJeopardy {
        None
    } else {
        let base: u32 = if 0 <= index && index <= 5 {
            200u32
        } else if 6 <= index && index <= 11 {
            400u32
        } else if 12 <= index && index <= 17 {
            600u32
        } else if 18 <= index && index <= 23 {
            800u32
        } else if 24 <= index && index <= 29 {
            1000u32
        } else {
            0u32
        };
        if round == Round::DoubleJeopardy {
            Some((2 * base) as u32)
        } else {
            Some(base)
        }
    }
}

/// The value bands, as a law of every board position: on a standard board
/// the first round's value is 200·(i/6 + 1); the second round's value is
/// twice the first round's at every position; the final round carries no
/// value at any position.
pub proof fn lemma_question_value_bands(i: int)
    ensures
        0 <= i <= 29 ==> spec_question_value(i, Round::Jeopardy) == Some(
            (200 * (i / 6 + 1)) as u32,
        ),
        spec_question_value(i, Round::DoubleJeopardy) == Some(
            (2 * spec_question_value(i, Round::Jeopardy)->0) as u32,
        ),
        spec_question_value(i, Round::FinalJeopardy) == None::<u32>,
{
    if 0 <= i <= 29 {
        assert(0 <= i <= 5 ==> i / 6 == 0);
        assert(6 <= i <= 11 ==> i / 6 == 1);
        assert(12 <= i <= 17 ==> i / 6 == 2);
        assert(18 <= i <= 23 ==> i / 6 == 3);
        assert(24 <= i <= 29 ==> i / 6 == 4);
    }
}

/// The category position serving ordinal `i`: the six columns cycle,
/// unless the fragment yielded exactly one category, which then serves
/// every ordinal.
pub open spec fn spec_category_index(i: int, ncats: int) -> int {
    if ncats == 1 {
        0
    } else {
        i % 6
    }
}

/// Every ordinal of the prompt list is served by a position inside the
/// category list.
pub open spec fn round_well_indexed(cats: Seq<Seq<char>>, nprompts: int) -> bool {
    forall|i: int|
        0 <= i < nprompts ==> #[trigger] spec_category_index(i, cats.len() as int) < cats.len()
}

/// The question standing at ordinal `i` of a round, built from the
/// extracted lists: prompt and category sanitized, the value implied by
/// the position, and the sanitized answer when the ordinal has one.
pub open spec fn spec_question_at(
    round: Round,
    cats: Seq<Seq<char>>,
    prompts: Seq<Seq<char>>,
    answers: Seq<Seq<char>>,
    i: int,
) -> QuestionModel {
    QuestionModel {
        prompt: spec_sanitize(prompts[i]),
        category: spec_sanitize(cats[spec_category_index(i, cats.len() as int)]),
        round: round,
        value: spec_question_value(i, round),
        answer: if i < answers.len() {
            Some(spec_sanitize(answers[i]))
        } else {
            None
        },
    }
}

/// All questions of a round, one per extracted prompt, in board order.
pub open spec fn spec_round_questions(
    round: Round,
    cats: Seq<Seq<char>>,
    prompts: Seq<Seq<char>>,
    answers: Seq<Seq<char>>,
) -> Seq<QuestionModel> {
    Seq::new(prompts.len(), |i: int| spec_question_at(round, cats, prompts, answers, i))
}

/// The round record the document yields, assuming its anchor is present.
pub open spec fn spec_round_model(doc: Html, round: Round) -> RoundModel {
    RoundModel {
        questions: spec_round_questions(
            round,
            spec_categories(doc, round)->0,
            spec_prompts(doc, round)->0,
            spec_answers(doc, round)->0,
        ),
        round,
    }
}

/// The error one round contributes, if any: a missing anchor outranks an
/// unservable category position.
pub open spec fn spec_round_status(doc: Html, round: Round) -> Option<Error> {
    if !round_available(doc, round) {
        Some(Error::MissingRoundTable)
    } else if !round_well_indexed(
        spec_categories(doc, round)->0,
        spec_prompts(doc, round)->0.len() as int,
    ) {
        Some(Error::MalformedValue)
    } else {
        None
    }
}

/// The air-date separator in the title heading.
pub open spec fn date_separator() -> Seq<char> {
    seq![' ', '-', ' ']
}

/// The position of the first occurrence of the separator in `s`, or -1
/// when `s` holds none.
pub open spec fn spec_find_separator(s: Seq<char>) -> int
    decreases s.len(),
{
    if s.len() < 3 {
        -1
    } else if s.take(3) == date_separator() {
        0
    } else if spec_find_separator(s.skip(1)) < 0 {
        -1
    } else {
        1 + spec_find_separator(s.skip(1))
    }
}

/// The air date a title heading carries: everything after the first
/// separator, sanitized; absent when the heading holds no separator.
pub open spec fn spec_air_date_from_title(title: Seq<char>) -> Option<Seq<char>> {
    if spec_find_separator(title) < 0 {
        None
    } else {
        Some(spec_sanitize(title.skip(spec_find_separator(title) + 3)))
    }
}

/// The episode's air date: what the title heading yields, absent when the
/// heading itself is absent.
pub open spec fn spec_air_date(doc: Html) -> Option<Seq<char>> {
    match doc_first_inner_html(doc, spec_title_selector()) {
        Some(title) => spec_air_date_from_title(title),
        None => None,
    }
}

/// What `parse` returns for a document and episode number: the first
/// error of the rounds taken in play order, or the full episode record.
pub open spec fn spec_parse(doc: Html, id: u32) -> Result<EpisodeModel, Error> {
    if spec_round_status(doc, Round::Jeopardy) is Some {
        Err(spec_round_status(doc, Round::Jeopardy)->0)
    } else if spec_round_status(doc, Round::DoubleJeopardy) is Some {
        Err(spec_round_status(doc, Round::DoubleJeopardy)->0)
    } else if spec_round_status(doc, Round::FinalJeopardy) is Some {
        Err(spec_round_status(doc, Round::FinalJeopardy)->0)
    } else {
        Ok(
            EpisodeModel {
                air_date: spec_air_date(doc),
                rounds: (
                    spec_round_model(doc, Round::Jeopardy),
                    spec_round_model(doc, Round::DoubleJeopardy),
                    spec_round_model(doc, Round::FinalJeopardy),
                ),
                id,
            },
        )
    }
}

/// Every episode the parser yields satisfies the data model: its id is the
/// caller's episode number, the three rounds carry their tags in fixed play
/// order, every question's round matches its containing round, and a point
/// value is present exactly outside the final round.
pub proof fn lemma_episode_well_formed(doc: Html, id: u32)
    requires
        spec_parse(doc, id) is Ok,
    ensures
        ({
            let ep = spec_parse(doc, id)->Ok_0;
            &&& ep.id == id
            &&& ep.rounds.0.round == Round::Jeopardy
            &&& ep.rounds.1.round == Round::DoubleJeopardy
            &&& ep.rounds.2.round == Round::FinalJeopardy
            &&& forall|i: int|
                0 <= i < ep.rounds.0.questions.len()
                    ==> (#[trigger] ep.rounds.0.questions[i]).round == Round::Jeopardy
                    && ep.rounds.0.questions[i].value is Some
            &&& forall|i: int|
                0 <= i < ep.rounds.1.questions.len()
                    ==> (#[trigger] ep.rounds.1.questions[i]).round == Round::DoubleJeopardy
                    && ep.rounds.1.questions[i].value is Some
            &&& forall|i: int|
                0 <= i < ep.rounds.2.questions.len()
                    ==> (#[trigger] ep.rounds.2.questions[i]).round == Round::FinalJeopardy
                    && ep.rounds.2.questions[i].value is None
        }),
{
}

/// The document parser: one per fetched document, holding the parsed
/// markup tree and the externally supplied episode number.
pub struct JArchiveDocumentParser {
    pub document: Html,
    pub episode_no: u32,
}

impl JArchiveDocumentParser {
    /// Creates a new parser object for one document.
    pub fn new(document: Html, episode_no: u32) -> (r: Self)
        ensures
            r.document == document,
            r.episode_no == episode_no,
    {
        JArchiveDocumentParser { document, episode_no }
    }

    /// Extracts the round's category names, in board order.
    fn parse_categories(&self, round: Round) -> (r: Option<Vec<String>>)
        ensures
            texts_view(r) == spec_categories(self.document, round),
    {
        select_inner_htmls(&self.document, table_selector(round), category_selector())
    }

    /// Extracts the round's clue prompts, in board order.
    fn parse_prompts(&self, round: Round) -> (r: Option<Vec<String>>)
        ensures
            texts_view(r) == spec_prompts(self.document, round),
    {
        select_inner_htmls(&self.document, table_selector(round), prompt_selector())
    }

    /// Extracts the round's correct responses, in board order.
    fn parse_answers(&self, round: Round) -> (r: Option<Vec<String>>)
        ensures
            texts_view(r) == spec_answers(self.document, round),
    {
        select_texts(&self.document, table_selector(round), answer_selector(round))
    }

    /// The correct response standing at the clue's ordinal, if the round
    /// yielded one there: absence is a legitimate outcome, not an error.
    pub fn parse_answer(&self, answers: &Vec<String>, index: usize) -> (r: Option<String>)
        ensures
            match r {
                Some(a) => index < answers@.len() && a@ == answers@[index as int]@,
                None => index >= answers@.len(),
            },
    {
        if index < answers.len() {
            Some(answers[index].clone())
        } else {
            None
        }
    }

    /// Calculates the point value the clue's position implies.
    pub fn calculate_question_value(&self, index: usize, round: Round) -> (r: Option<u32>)
        ensures
            r == spec_question_value(index as int, round),
    {
        let base: u32 = if index <= 5 {
            200
        } else if index <= 11 {
            400
        } else if index <= 17 {
            600
        } else if index <= 23 {
            800
        } else if index <= 29 {
            1000
        } else {
            0
        };

        let value = if round == Round::DoubleJeopardy {
            base * 2
        } else {
            base
        };

        if round == Round::FinalJeopardy {
            None
        } else {
            Some(value)
        }
    }

    /// Zips the extracted lists of one round into its questions: for each
    /// prompt ordinal, the cycling category, the position's value and the
    /// ordinal's answer, all text sanitized. Fails with `MalformedValue`
    /// exactly when some ordinal's category position falls outside the
    /// category list.
    pub fn build_questions(
        &self,
        round: Round,
        categories: &Vec<String>,
        prompts: &Vec<String>,
        answers: &Vec<String>,
    ) -> (r: Result<Vec<JeopardyQuestion>, Error>)
        ensures
            match r {
                Ok(qs) => round_well_indexed(strs_view(*categories), prompts@.len() as int)
                    && qs@.map_values(|q: JeopardyQuestion| q@) == spec_round_questions(
                    round,
                    strs_view(*categories),
                    strs_view(*prompts),
                    strs_view(*answers),
                ),
                Err(e) => (e matches Error::MalformedValue) && !round_well_indexed(
                    strs_view(*categories),
                    prompts@.len() as int,
                ),
            },
    {
        let ghost cats = strs_view(*categories);
        let mut questions: Vec<JeopardyQuestion> = Vec::new();

        let n = prompts.len();
        let mut i: usize = 0;
        while i < n
            invariant
                n == prompts@.len(),
                i <= n,
                cats == strs_view(*categories),
                forall|k: int| 0 <= k < i ==> #[trigger] spec_category_index(k, cats.len() as int)
                    < cats.len(),
                questions@.len() == i,
                forall|k: int| 0 <= k < i ==> #[trigger] questions@[k]@ == spec_question_at(
                    round,
                    cats,
                    strs_view(*prompts),
                    strs_view(*answers),
                    k,
                ),
            decreases n - i,
        {
            let category_index: usize = if categories.len() == 1 {
                0
            } else {
                i % 6
            };
            proof {
                assert(category_index as int == spec_category_index(i as int, cats.len() as int));
            }
            if category_index >= categories.len() {
                proof {
                    assert(!(spec_category_index(i as int, cats.len() as int) < cats.len()));
                }
                return Err(Error::MalformedValue);
            }

            let prompt = sanitize(prompts[i].as_str());
            let category = sanitize(categories[category_index].as_str());
            let answer = if i < answers.len() {
                Some(sanitize(answers[i].as_str()))
            } else {
                None
            };
            let value = self.calculate_question_value(i, round);

            let mut builder = JeopardyQuestionBuilder::new();
            builder.set_answer(answer);
            builder.set_category(category);
            builder.set_prompt(prompt);
            builder.set_round(round);
            builder.set_value(value);
            let question = match builder.build() {
                Ok(q) => q,
                Err(_) => vstd::pervasive::unreached(),
            };

            questions.push(question);
            i = i + 1;
        }

        proof {
            assert(questions@.map_values(|q: JeopardyQuestion| q@) =~= spec_round_questions(
                round,
                cats,
                strs_view(*prompts),
                strs_view(*answers),
            ));
        }
        Ok(questions)
    }

    /// Extracts and assembles every question of one round. Fails with
    /// `MissingRoundTable` when the round's anchor is absent, and with
    /// `MalformedValue` when a category position cannot be served.
    fn parse_questions(&self, round: Round) -> (r: Result<Vec<JeopardyQuestion>, Error>)
        ensures
            match r {
                Ok(qs) => spec_round_status(self.document, round) is None && qs@.map_values(
                    |q: JeopardyQuestion| q@,
                ) == spec_round_model(self.document, round).questions,
                Err(e) => spec_round_status(self.document, round) == Some(e),
            },
    {
        let Some(categories) = self.parse_categories(round) else {
            return Err(Error::MissingRoundTable);
        };
        let Some(prompts) = self.parse_prompts(round) else {
            return Err(Error::MissingRoundTable);
        };
        let Some(answers) = self.parse_answers(round) else {
            return Err(Error::MissingRoundTable);
        };

        self.build_questions(round, &categories, &prompts, &answers)
    }

    /// Parses the three rounds in play order, failing fast on the first
    /// round that cannot be parsed.
    fn parse_rounds(&self) -> (r: Result<(JeopardyRound, JeopardyRound, JeopardyRound), Error>)
        ensures
            match r {
                Ok(t) => spec_round_status(self.document, Round::Jeopardy) is None
                    && spec_round_status(self.document, Round::DoubleJeopardy) is None
                    && spec_round_status(self.document, Round::FinalJeopardy) is None && t.0@
                    == spec_round_model(self.document, Round::Jeopardy) && t.1@ == spec_round_model(
                    self.document,
                    Round::DoubleJeopardy,
                ) && t.2@ == spec_round_model(self.document, Round::FinalJeopardy),
                Err(e) => spec_round_status(self.document, Round::Jeopardy) == Some(e) || (
                spec_round_status(self.document, Round::Jeopardy) is None && spec_round_status(
                    self.document,
                    Round::DoubleJeopardy,
                ) == Some(e)) || (spec_round_status(self.document, Round::Jeopardy) is None
                    && spec_round_status(self.document, Round::DoubleJeopardy) is None
                    && spec_round_status(self.document, Round::FinalJeopardy) == Some(e)),
            },
    {
        let jeopardy_questions = match self.parse_questions(Round::Jeopardy) {
            Ok(qs) => qs,
            Err(e) => return Err(e),
        };
        let double_jeopardy_questions = match self.parse_questions(Round::DoubleJeopardy) {
            Ok(qs) => qs,
            Err(e) => return Err(e),
        };
        let final_jeopardy_questions = match self.parse_questions(Round::FinalJeopardy) {
            Ok(qs) => qs,
            Err(e) => return Err(e),
        };

        let mut builder = JeopardyRoundBuilder::new();
        builder.set_questions(jeopardy_questions);
        builder.set_round(Round::Jeopardy);
        let jeopardy_round = match builder.build() {
            Ok(rd) => rd,
            Err(_) => vstd::pervasive::unreached(),
        };

        let mut builder = JeopardyRoundBuilder::new();
        builder.set_questions(double_jeopardy_questions);
        builder.set_round(Round::DoubleJeopardy);
        let double_jeopardy_round = match builder.build() {
            Ok(rd) => rd,
            Err(_) => vstd::pervasive::unreached(),
        };

        let mut builder = JeopardyRoundBuilder::new();
        builder.set_questions(final_jeopardy_questions);
        builder.set_round(Round::FinalJeopardy);
        let final_jeopardy_round = match builder.build() {
            Ok(rd) => rd,
            Err(_) => vstd::pervasive::unreached(),
        };

        Ok((jeopardy_round, double_jeopardy_round, final_jeopardy_round))
    }

    /// Finds the air-date separator in the title's characters.
    fn find_separator(&self, cs: &Vec<char>) -> (r: Option<usize>)
        ensures
            match r {
                Some(k) => spec_find_separator(cs@) == k && k + 3 <= cs@.len(),
                None => spec_find_separator(cs@) < 0,
            },
    {
        let mut separator: Vec<char> = Vec::new();
        separator.push(' ');
        separator.push('-');
        separator.push(' ');
        proof {
            assert(separator@ =~= date_separator());
        }

        let n = cs.len();
        let mut i: usize = 0;
        proof {
            assert(cs@.skip(0) =~= cs@);
        }
        while i < n && n - i >= 3
            invariant
                separator@ == date_separator(),
                n == cs@.len(),
                i <= cs@.len(),
                spec_find_separator(cs@) == if spec_find_separator(cs@.skip(i as int)) < 0 {
                    -1int
                } else {
                    i + spec_find_separator(cs@.skip(i as int))
                },
            decreases cs@.len() - i,
        {
            if matches_at(cs, &separator, i) {
                proof {
                    assert(cs@.skip(i as int).take(3) =~= cs@.subrange(i as int, i + 3));
                }
                return Some(i);
            }
            proof {
                let t = cs@.skip(i as int);
                assert(t.take(3) =~= cs@.subrange(i as int, i + 3));
                assert(t.skip(1) =~= cs@.skip(i + 1));
            }
            i = i + 1;
        }
        proof {
            assert(cs@.skip(i as int).len() < 3);
        }
        None
    }

    /// Parses the air date out of the title heading: everything after the
    /// first separator, sanitized. A missing heading or separator yields
    /// absence, which is not an error.
    fn parse_air_date(&self) -> (r: Option<String>)
        ensures
            (match r {
                Some(d) => Some(d@),
                None => None::<Seq<char>>,
            }) == spec_air_date(self.document),
    {
        let Some(title) = select_first_inner_html(&self.document, title_selector()) else {
            return None;
        };

        let cs = chars_of(title.as_str());
        let Some(k) = self.find_separator(&cs) else {
            return None;
        };

        let n = cs.len();
        let mut tail: Vec<char> = Vec::new();
        let mut j: usize = k + 3;
        while j < n
            invariant
                n == cs@.len(),
                k + 3 <= j <= cs@.len(),
                tail@ =~= cs@.subrange(k + 3, j as int),
            decreases cs@.len() - j,
        {
            tail.push(cs[j]);
            j = j + 1;
        }
        proof {
            assert(tail@ =~= cs@.skip(k + 3));
        }

        Some(sanitize_chars(&tail))
    }

    /// Parses the document into one full episode record, or the first
    /// structural error; no partial episode is ever produced.
    pub fn parse(&self) -> (r: Result<JeopardyEpisode, Error>)
        ensures
            (match r {
                Ok(ep) => Ok::<EpisodeModel, Error>(ep@),
                Err(e) => Err(e),
            }) == spec_parse(self.document, self.episode_no),
    {
        let rounds = match self.parse_rounds() {
            Ok(t) => t,
            Err(e) => return Err(e),
        };

        let mut builder = JeopardyEpisodeBuilder::new();
        builder.set_id(self.episode_no);
        builder.set_rounds(rounds);
        builder.set_air_date(self.parse_air_date());
        match builder.build() {
            Ok(episode) => Ok(episode),
            Err(_) => vstd::pervasive::unreached(),
        }
    }

    /// Concatenates the questions of the three rounds, in play order. The
    /// document must carry all three anchors, each with a category list
    /// that serves every prompt ordinal.
    pub fn parse_all_rounds(&self) -> (r: Vec<JeopardyQuestion>)
        requires
            spec_round_status(self.document, Round::Jeopardy) is None,
            spec_round_status(self.document, Round::DoubleJeopardy) is None,
            spec_round_status(self.document, Round::FinalJeopardy) is None,
        ensures
            r@.map_values(|q: JeopardyQuestion| q@) == spec_round_model(
                self.document,
                Round::Jeopardy,
            ).questions + spec_round_model(self.document, Round::DoubleJeopardy).questions
                + spec_round_model(self.document, Round::FinalJeopardy).questions,
    {
        let mut questions: Vec<JeopardyQuestion> = Vec::new();

        let mut jr_questions = match self.parse_questions(Round::Jeopardy) {
            Ok(qs) => qs,
            Err(_) => vstd::pervasive::unreached(),
        };
        let mut djr_questions = match self.parse_questions(Round::DoubleJeopardy) {
            Ok(qs) => qs,
            Err(_) => vstd::pervasive::unreached(),
        };
        let mut fjr_questions = match self.parse_questions(Round::FinalJeopardy) {
            Ok(qs) => qs,
            Err(_) => vstd::pervasive::unreached(),
        };

        questions.append(&mut jr_questions);
        questions.append(&mut djr_questions);
        questions.append(&mut fjr_questions);

        proof {
            assert(questions@.map_values(|q: JeopardyQuestion| q@) =~= spec_round_model(
                self.document,
                Round::Jeopardy,
            ).questions + spec_round_model(self.document, Round::DoubleJeopardy).questions
                + spec_round_model(self.document, Round::FinalJeopardy).questions);
        }
        questions
    }
}

} // verus!
