use txn_control::execute::TxnCall;
use txn_control::grammar;
use txn_control::grammar::{cancel, ParseError, Rule};
use txn_control::statement::CancelStatement;

#[test]
fn cancel_basic() {
    let sql = "CANCEL";
    let res = cancel(sql);
    assert!(res.is_ok());
    let out = res.unwrap().1;
    assert_eq!("CANCEL TRANSACTION", out.render())
}

#[test]
fn cancel_query() {
    let sql = "CANCEL TRANSACTION";
    let res = cancel(sql);
    assert!(res.is_ok());
    let out = res.unwrap().1;
    assert_eq!("CANCEL TRANSACTION", out.render())
}

#[test]
fn bare_keyword_consumes_everything() {
    let (rest, out) = cancel("CANCEL").unwrap();
    assert_eq!(rest, "");
    assert_eq!(out, CancelStatement);
}

#[test]
fn qualified_form_consumes_qualifier() {
    let (rest, out) = cancel("CANCEL TRANSACTION").unwrap();
    assert_eq!(rest, "");
    assert_eq!(out, CancelStatement);
}

#[test]
fn keyword_prefix_of_longer_word_fails() {
    assert_eq!(
        cancel("CANCELLATION"),
        Err(ParseError { rule: Rule::Boundary, pos: 6 })
    );
}

#[test]
fn other_keyword_fails() {
    assert_eq!(cancel("COMMIT"), Err(ParseError { rule: Rule::Keyword, pos: 0 }));
    assert_eq!(cancel(""), Err(ParseError { rule: Rule::Keyword, pos: 0 }));
    assert_eq!(cancel("CANCE"), Err(ParseError { rule: Rule::Keyword, pos: 0 }));
}

#[test]
fn keywords_ignore_case() {
    assert_eq!(cancel("cancel").unwrap().0, "");
    assert_eq!(cancel("CaNcEl tRaNsAcTiOn").unwrap().0, "");
}

#[test]
fn whitespace_between_tokens_is_any_run() {
    assert_eq!(cancel("CANCEL \t\r\n TRANSACTION;").unwrap().0, ";");
}

#[test]
fn trailing_input_is_handed_back() {
    assert_eq!(cancel("CANCEL;").unwrap().0, ";");
    assert_eq!(cancel("CANCEL TRANSACTION; SELECT 1").unwrap().0, "; SELECT 1");
    assert_eq!(cancel("CANCEL SELECT").unwrap().0, "SELECT");
}

#[test]
fn qualifier_must_end_at_boundary() {
    assert_eq!(cancel("CANCEL TRANSACTIONS").unwrap().0, "TRANSACTIONS");
}

#[test]
fn non_ascii_input_is_handled_by_characters() {
    assert_eq!(cancel("CANCEL \u{e9}t\u{e9}").unwrap().0, "\u{e9}t\u{e9}");
    assert_eq!(cancel("\u{e9}"), Err(ParseError { rule: Rule::Keyword, pos: 0 }));
}

#[test]
fn basic_form_stops_after_keyword() {
    assert_eq!(grammar::cancel_basic("CANCEL TRANSACTION").unwrap().0, " TRANSACTION");
    assert_eq!(
        grammar::cancel_basic("CANCELS"),
        Err(ParseError { rule: Rule::Boundary, pos: 6 })
    );
}

#[test]
fn query_form_needs_whitespace() {
    assert_eq!(grammar::cancel_query("CANCEL"), Err(ParseError { rule: Rule::Space, pos: 6 }));
    assert_eq!(grammar::cancel_query("CANCEL;"), Err(ParseError { rule: Rule::Space, pos: 6 }));
    assert_eq!(grammar::cancel_query("CANCEL  ;").unwrap().0, ";");
    assert_eq!(grammar::cancel_query("x"), Err(ParseError { rule: Rule::Keyword, pos: 0 }));
}

#[test]
fn rendered_text_parses_back() {
    let v = CancelStatement;
    let text = v.render();
    let (rest, out) = cancel(&text).unwrap();
    assert_eq!(rest, "");
    assert_eq!(out, v);
}

#[test]
fn cancel_without_transaction_calls_nothing_and_succeeds() {
    let stmt = CancelStatement;
    assert_eq!(stmt.call(false), None);
    assert_eq!(stmt.finish::<String>(None), Ok(()));
    assert_eq!(stmt.finish::<String>(None), Ok(()));
}

#[test]
fn cancel_with_transaction_calls_cancel() {
    let stmt = CancelStatement;
    assert_eq!(stmt.call(true), Some(TxnCall::Cancel));
    assert_eq!(stmt.finish::<String>(Some(Ok(()))), Ok(()));
}

#[test]
fn cancel_failure_is_returned_unchanged() {
    let stmt = CancelStatement;
    let err = String::from("storage unavailable");
    assert_eq!(stmt.finish(Some(Err(err.clone()))), Err(err));
}

#[test]
fn keyword_followed_by_non_ascii_letter_fails() {
    assert_eq!(
        cancel("CANCEL\u{e9}"),
        Err(ParseError { rule: Rule::Boundary, pos: 6 })
    );
    assert_eq!(
        cancel("cancel\u{f3}n"),
        Err(ParseError { rule: Rule::Boundary, pos: 6 })
    );
}

#[test]
fn keyword_followed_by_digit_or_underscore_fails() {
    assert_eq!(cancel("CANCEL1"), Err(ParseError { rule: Rule::Boundary, pos: 6 }));
    assert_eq!(cancel("CANCEL_x"), Err(ParseError { rule: Rule::Boundary, pos: 6 }));
    assert_eq!(
        cancel("CANCEL\u{0663}"),
        Err(ParseError { rule: Rule::Boundary, pos: 6 })
    );
}

#[test]
fn qualifier_followed_by_non_ascii_letter_is_left_over() {
    assert_eq!(
        cancel("CANCEL TRANSACTION\u{e9}").unwrap().0,
        "TRANSACTION\u{e9}"
    );
}

#[test]
fn punctuation_after_keyword_is_a_boundary() {
    assert_eq!(cancel("CANCEL\u{ff1b}").unwrap().0, "\u{ff1b}");
}
