use jarchive::models::episode::JeopardyEpisodeBuilder;
use jarchive::models::error::Error;
use jarchive::models::question::{JeopardyQuestionBuilder, Round};
use jarchive::models::round::JeopardyRoundBuilder;
use jarchive::serializer::SerializerBuilder;

#[test]
fn question_builder_keeps_every_field() {
    let mut builder = JeopardyQuestionBuilder::new();
    builder.set_prompt("This man".to_string());
    builder.set_category("HISTORY".to_string());
    builder.set_round(Round::DoubleJeopardy);
    builder.set_value(Some(800));
    builder.set_answer(Some("Who is he?".to_string()));
    let question = builder.build().unwrap();

    assert_eq!(question.prompt, "This man");
    assert_eq!(question.category, "HISTORY");
    assert_eq!(question.round, Round::DoubleJeopardy);
    assert_eq!(question.value, Some(800));
    assert_eq!(question.answer, Some("Who is he?".to_string()));
}

#[test]
fn question_builder_defaults_value_and_answer_to_absent() {
    let mut builder = JeopardyQuestionBuilder::new();
    builder.set_prompt("This man".to_string());
    builder.set_category("HISTORY".to_string());
    builder.set_round(Round::FinalJeopardy);
    let question = builder.build().unwrap();

    assert_eq!(question.value, None);
    assert_eq!(question.answer, None);
}

#[test]
fn question_builder_names_the_missing_field() {
    let builder = JeopardyQuestionBuilder::new();
    let err = builder.build().unwrap_err();
    assert_eq!(err.msg, "Missing prompt");
    assert_eq!(
        err.message(),
        "Could not build jeopardy question from data: err=Missing prompt"
    );

    let mut builder = JeopardyQuestionBuilder::new();
    builder.set_prompt("p".to_string());
    let err = builder.build().unwrap_err();
    assert_eq!(err.msg, "Missing category");

    let mut builder = JeopardyQuestionBuilder::new();
    builder.set_prompt("p".to_string());
    builder.set_category("c".to_string());
    let err = builder.build().unwrap_err();
    assert_eq!(err.msg, "Missing round");
}

fn sample_round(round: Round) -> jarchive::models::round::JeopardyRound {
    let mut qb = JeopardyQuestionBuilder::new();
    qb.set_prompt("p".to_string());
    qb.set_category("c".to_string());
    qb.set_round(round);
    let question = qb.build().unwrap();

    let mut rb = JeopardyRoundBuilder::new();
    rb.set_questions(vec![question]);
    rb.set_round(round);
    rb.build().unwrap()
}

#[test]
fn round_builder_names_the_missing_field() {
    let builder = JeopardyRoundBuilder::new();
    let err = builder.build().unwrap_err();
    assert!(matches!(err, Error::MissingField("questions")));

    let mut builder = JeopardyRoundBuilder::new();
    builder.set_questions(Vec::new());
    let err = builder.build().unwrap_err();
    assert!(matches!(err, Error::MissingField("round")));
}

#[test]
fn round_builder_keeps_questions_and_round() {
    let round = sample_round(Round::Jeopardy);
    assert_eq!(round.round, Round::Jeopardy);
    assert_eq!(round.questions.len(), 1);
    assert_eq!(round.questions[0].prompt, "p");
}

#[test]
fn episode_builder_names_the_missing_field() {
    let builder = JeopardyEpisodeBuilder::new();
    let err = builder.build().unwrap_err();
    assert!(matches!(err, Error::MissingField("id")));

    let mut builder = JeopardyEpisodeBuilder::new();
    builder.set_id(42);
    let err = builder.build().unwrap_err();
    assert!(matches!(err, Error::MissingField("rounds")));
}

#[test]
fn episode_builder_assembles_the_record() {
    let rounds = (
        sample_round(Round::Jeopardy),
        sample_round(Round::DoubleJeopardy),
        sample_round(Round::FinalJeopardy),
    );
    let mut builder = JeopardyEpisodeBuilder::new();
    builder.set_id(4596);
    builder.set_rounds(rounds);
    builder.set_air_date(Some("Thursday, July 1, 2004".to_string()));
    let episode = builder.build().unwrap();

    assert_eq!(episode.id, 4596);
    assert_eq!(episode.air_date, Some("Thursday, July 1, 2004".to_string()));
    assert_eq!(episode.rounds.0.round, Round::Jeopardy);
    assert_eq!(episode.rounds.1.round, Round::DoubleJeopardy);
    assert_eq!(episode.rounds.2.round, Round::FinalJeopardy);
}

#[test]
fn episode_air_date_defaults_to_absent() {
    let rounds = (
        sample_round(Round::Jeopardy),
        sample_round(Round::DoubleJeopardy),
        sample_round(Round::FinalJeopardy),
    );
    let mut builder = JeopardyEpisodeBuilder::new();
    builder.set_id(1);
    builder.set_rounds(rounds);
    let episode = builder.build().unwrap();
    assert_eq!(episode.air_date, None);
}

#[test]
fn serializer_builder_requires_episodes() {
    let builder = SerializerBuilder::new();
    let err = builder.build().unwrap_err();
    assert!(matches!(err, Error::MissingField("episodes")));
}

#[test]
fn serializer_builder_keeps_episodes() {
    let rounds = (
        sample_round(Round::Jeopardy),
        sample_round(Round::DoubleJeopardy),
        sample_round(Round::FinalJeopardy),
    );
    let mut eb = JeopardyEpisodeBuilder::new();
    eb.set_id(9);
    eb.set_rounds(rounds);
    let episode = eb.build().unwrap();

    let mut builder = SerializerBuilder::new();
    builder.set_episodes(vec![episode]);
    let serializer = builder.build().unwrap();
    assert_eq!(serializer.episodes.len(), 1);
    assert_eq!(serializer.episodes[0].id, 9);
}
