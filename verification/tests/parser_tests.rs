use jarchive::models::error::Error;
use jarchive::models::question::Round;
use jarchive::parser::JArchiveDocumentParser;
use scraper::Html;

fn standard_round(id: &str, ncats: usize, nclues: usize, skip_answer_at: Option<usize>) -> String {
    let mut s = format!("<div id=\"{}\"><table><tr>", id);
    for c in 0..ncats {
        s.push_str(&format!(
            "<td class=\"category\"><table><tr><td class=\"category_name\">CAT{}</td></tr></table></td>",
            c
        ));
    }
    s.push_str("</tr>");
    for i in 0..nclues {
        s.push_str(&format!(
            "<tr><td class=\"clue\"><table><tr><td class=\"clue_text\">PROMPT{}</td></tr></table>",
            i
        ));
        if skip_answer_at != Some(i) {
            s.push_str(&format!("<em class=\"correct_response\">ANSWER{}</em>", i));
        }
        s.push_str("</td></tr>");
    }
    s.push_str("</table></div>");
    s
}

fn final_round(with_answer: bool) -> String {
    let mut s = String::from(
        "<div id=\"final_jeopardy_round\"><table><tr><td class=\"category\">\
         <table><tr><td class=\"category_name\">FINAL CAT</td></tr></table>",
    );
    if with_answer {
        s.push_str("<em class=\"correct_response\">final answer</em>");
    }
    s.push_str(
        "</td></tr><tr><td class=\"clue\"><table><tr>\
         <td class=\"clue_text\">final prompt</td></tr></table></td></tr></table></div>",
    );
    s
}

fn document_with(title: &str, rounds: &str) -> String {
    format!("<html><body>{}{}</body></html>", title, rounds)
}

fn full_document() -> String {
    let rounds = format!(
        "{}{}{}",
        standard_round("jeopardy_round", 6, 30, None),
        standard_round("double_jeopardy_round", 6, 30, None),
        final_round(true)
    );
    document_with(
        "<div id=\"game_title\"><h1>Show #4596 - Thursday, July 1, 2004</h1></div>",
        &rounds,
    )
}

#[test]
fn parses_full_episode() {
    let doc = Html::parse_document(&full_document());
    let parser = JArchiveDocumentParser::new(doc, 4596);
    let episode = parser.parse().unwrap();

    assert_eq!(episode.id, 4596);
    assert_eq!(episode.air_date, Some("Thursday, July 1, 2004".to_string()));
    assert_eq!(episode.rounds.0.questions.len(), 30);
    assert_eq!(episode.rounds.1.questions.len(), 30);
    assert_eq!(episode.rounds.2.questions.len(), 1);
    assert_eq!(episode.rounds.0.round, Round::Jeopardy);
    assert_eq!(episode.rounds.1.round, Round::DoubleJeopardy);
    assert_eq!(episode.rounds.2.round, Round::FinalJeopardy);

    for (i, q) in episode.rounds.0.questions.iter().enumerate() {
        assert_eq!(q.category, format!("CAT{}", i % 6));
        assert_eq!(q.prompt, format!("PROMPT{}", i));
        assert_eq!(q.answer, Some(format!("ANSWER{}", i)));
        assert_eq!(q.value, Some(200 * (i as u32 / 6 + 1)));
        assert_eq!(q.round, Round::Jeopardy);
    }
    for (i, q) in episode.rounds.1.questions.iter().enumerate() {
        assert_eq!(q.category, format!("CAT{}", i % 6));
        assert_eq!(q.value, Some(400 * (i as u32 / 6 + 1)));
        assert_eq!(q.round, Round::DoubleJeopardy);
    }

    let final_q = &episode.rounds.2.questions[0];
    assert_eq!(final_q.category, "FINAL CAT");
    assert_eq!(final_q.prompt, "final prompt");
    assert_eq!(final_q.answer, Some("final answer".to_string()));
    assert_eq!(final_q.value, None);
    assert_eq!(final_q.round, Round::FinalJeopardy);
}

#[test]
fn single_category_serves_every_ordinal() {
    let rounds = format!(
        "{}{}{}",
        standard_round("jeopardy_round", 1, 3, None),
        standard_round("double_jeopardy_round", 6, 30, None),
        final_round(true)
    );
    let doc = Html::parse_document(&document_with("", &rounds));
    let parser = JArchiveDocumentParser::new(doc, 1);
    let episode = parser.parse().unwrap();

    assert_eq!(episode.rounds.0.questions.len(), 3);
    for q in &episode.rounds.0.questions {
        assert_eq!(q.category, "CAT0");
    }
}

#[test]
fn missing_round_anchor_fails_the_parse() {
    let rounds = format!(
        "{}{}",
        standard_round("double_jeopardy_round", 6, 30, None),
        final_round(true)
    );
    let doc = Html::parse_document(&document_with("", &rounds));
    let parser = JArchiveDocumentParser::new(doc, 7);
    let err = parser.parse().unwrap_err();
    assert!(matches!(err, Error::MissingRoundTable));
}

#[test]
fn short_category_list_is_malformed() {
    // two categories cannot serve ordinal 2, and two is not the
    // single-category fallback
    let rounds = format!(
        "{}{}{}",
        standard_round("jeopardy_round", 2, 3, None),
        standard_round("double_jeopardy_round", 6, 30, None),
        final_round(true)
    );
    let doc = Html::parse_document(&document_with("", &rounds));
    let parser = JArchiveDocumentParser::new(doc, 7);
    let err = parser.parse().unwrap_err();
    assert!(matches!(err, Error::MalformedValue));
}

#[test]
fn absent_marker_yields_no_answer() {
    let rounds = format!(
        "{}{}{}",
        standard_round("jeopardy_round", 6, 30, Some(29)),
        standard_round("double_jeopardy_round", 6, 30, None),
        final_round(true)
    );
    let doc = Html::parse_document(&document_with("", &rounds));
    let parser = JArchiveDocumentParser::new(doc, 7);
    let episode = parser.parse().unwrap();

    assert_eq!(episode.rounds.0.questions[29].answer, None);
    assert_eq!(
        episode.rounds.0.questions[28].answer,
        Some("ANSWER28".to_string())
    );
}

#[test]
fn final_round_can_lack_an_answer() {
    let rounds = format!(
        "{}{}{}",
        standard_round("jeopardy_round", 6, 30, None),
        standard_round("double_jeopardy_round", 6, 30, None),
        final_round(false)
    );
    let doc = Html::parse_document(&document_with("", &rounds));
    let parser = JArchiveDocumentParser::new(doc, 7);
    let episode = parser.parse().unwrap();
    assert_eq!(episode.rounds.2.questions[0].answer, None);
}

#[test]
fn missing_title_heading_means_no_air_date() {
    let rounds = format!(
        "{}{}{}",
        standard_round("jeopardy_round", 6, 30, None),
        standard_round("double_jeopardy_round", 6, 30, None),
        final_round(true)
    );
    let doc = Html::parse_document(&document_with("", &rounds));
    let parser = JArchiveDocumentParser::new(doc, 7);
    let episode = parser.parse().unwrap();
    assert_eq!(episode.air_date, None);
}

#[test]
fn title_without_separator_means_no_air_date() {
    let rounds = format!(
        "{}{}{}",
        standard_round("jeopardy_round", 6, 30, None),
        standard_round("double_jeopardy_round", 6, 30, None),
        final_round(true)
    );
    let doc = Html::parse_document(&document_with(
        "<div id=\"game_title\"><h1>Show 4596</h1></div>",
        &rounds,
    ));
    let parser = JArchiveDocumentParser::new(doc, 7);
    let episode = parser.parse().unwrap();
    assert_eq!(episode.air_date, None);
}

#[test]
fn air_date_is_everything_after_the_first_separator() {
    let rounds = format!(
        "{}{}{}",
        standard_round("jeopardy_round", 6, 30, None),
        standard_round("double_jeopardy_round", 6, 30, None),
        final_round(true)
    );
    let doc = Html::parse_document(&document_with(
        "<div id=\"game_title\"><h1>Show #1 - Monday - July 1, 2004</h1></div>",
        &rounds,
    ));
    let parser = JArchiveDocumentParser::new(doc, 7);
    let episode = parser.parse().unwrap();
    assert_eq!(episode.air_date, Some("Monday - July 1, 2004".to_string()));
}

#[test]
fn calculates_question_values_by_band() {
    let parser = JArchiveDocumentParser::new(Html::parse_document(""), 1);
    for i in 0..30usize {
        let expected = 200 * (i as u32 / 6 + 1);
        assert_eq!(
            parser.calculate_question_value(i, Round::Jeopardy),
            Some(expected)
        );
        assert_eq!(
            parser.calculate_question_value(i, Round::DoubleJeopardy),
            Some(2 * expected)
        );
        assert_eq!(parser.calculate_question_value(i, Round::FinalJeopardy), None);
    }
    // a position outside a standard board falls back to 0
    assert_eq!(
        parser.calculate_question_value(30, Round::Jeopardy),
        Some(0)
    );
    assert_eq!(
        parser.calculate_question_value(31, Round::DoubleJeopardy),
        Some(0)
    );
    assert_eq!(parser.calculate_question_value(99, Round::FinalJeopardy), None);
}

#[test]
fn parse_all_rounds_concatenates_in_play_order() {
    let doc = Html::parse_document(&full_document());
    let parser = JArchiveDocumentParser::new(doc, 4596);
    let questions = parser.parse_all_rounds();

    assert_eq!(questions.len(), 61);
    assert_eq!(questions[0].round, Round::Jeopardy);
    assert_eq!(questions[0].prompt, "PROMPT0");
    assert_eq!(questions[29].round, Round::Jeopardy);
    assert_eq!(questions[30].round, Round::DoubleJeopardy);
    assert_eq!(questions[59].round, Round::DoubleJeopardy);
    assert_eq!(questions[60].round, Round::FinalJeopardy);
    assert_eq!(questions[60].prompt, "final prompt");
}

#[test]
fn build_questions_sanitizes_every_field() {
    let parser = JArchiveDocumentParser::new(Html::parse_document(""), 1);
    let categories = vec![" HISTORY &amp; LAW ".to_string()];
    let prompts = vec!["He won <em>twice</em>".to_string()];
    let answers = vec![" sotto vocce ".to_string()];
    let questions = parser
        .build_questions(Round::Jeopardy, &categories, &prompts, &answers)
        .unwrap();

    assert_eq!(questions.len(), 1);
    assert_eq!(questions[0].category, "HISTORY & LAW");
    assert_eq!(questions[0].prompt, "He won  twice");
    assert_eq!(questions[0].answer, Some("sotto vocce".to_string()));
}
