use reflexer::engine::{
    option_label, place_gate, route_question, score_gate, EngineError, PlaceGate, QuestionKind,
    Route, SCORE_RUBRIC,
};
use reflexer::lane::{hold_swap, parse_label, LaneError};

#[test]
fn codes_per_refusal_class() {
    assert_eq!(EngineError::BadState("x".into()).code(), "bad_state");
    assert_eq!(
        EngineError::QuestionKind { id: "place".into(), kind: "choice" }.code(),
        "question_kind"
    );
    assert_eq!(EngineError::OptionsCount { want: 3, got: 2 }.code(), "options_count");
}

#[test]
fn refusal_messages() {
    assert_eq!(
        EngineError::BadState("row 3 has chars other than '#'/'.'".into()).message(),
        "state decode failed: row 3 has chars other than '#'/'.'"
    );
    assert_eq!(
        EngineError::QuestionKind { id: "place".into(), kind: "choice" }.message(),
        "question \"place\" must be a choice question"
    );
    assert_eq!(
        EngineError::OptionsCount { want: 34, got: 2 }.message(),
        "options diverged: engine expects 34, request carries 2 (place: the decide_scored candidate order — no-hold landing options first, then the hold swap; score: the canonical 5-level rubric)"
    );
}

#[test]
fn known_ids_route_by_kind_and_unknown_ids_abstain() {
    assert_eq!(route_question("place", QuestionKind::Choice), Ok(Route::Place));
    assert_eq!(route_question("state", QuestionKind::Score), Ok(Route::State));
    assert_eq!(route_question("survive", QuestionKind::Noul), Ok(Route::Survive));
    assert_eq!(route_question("totally-unknown", QuestionKind::Choice), Ok(Route::Abstain));
    assert_eq!(
        route_question("place", QuestionKind::Noul),
        Err(EngineError::QuestionKind { id: "place".into(), kind: "choice" })
    );
    assert_eq!(
        route_question("state", QuestionKind::Choice),
        Err(EngineError::QuestionKind { id: "state".into(), kind: "score" })
    );
    assert_eq!(
        route_question("survive", QuestionKind::Score),
        Err(EngineError::QuestionKind { id: "survive".into(), kind: "noul" })
    );
}

#[test]
fn place_and_score_gates() {
    assert_eq!(place_gate(0, 2), Ok(PlaceGate::Abstain));
    assert_eq!(place_gate(3, 3), Ok(PlaceGate::Answer));
    assert_eq!(place_gate(3, 2), Err(EngineError::OptionsCount { want: 3, got: 2 }));
    assert_eq!(score_gate(5), Ok(()));
    assert_eq!(score_gate(4), Err(EngineError::OptionsCount { want: 5, got: 4 }));
    assert_eq!(SCORE_RUBRIC, ["critical", "poor", "fair", "good", "excellent"]);
}

#[test]
fn labels_read_back() {
    assert_eq!(option_label(false, 0), "h0i0");
    assert_eq!(option_label(true, 17), "h1i17");
    for (h, i) in [(false, 0usize), (true, 9), (false, 10), (true, 123456), (false, usize::MAX)] {
        assert_eq!(parse_label(&option_label(h, i)), Ok((h, i)));
    }
    assert_eq!(parse_label("h1i+5"), Ok((true, 5)));
    let bad = |l: &str| Err(LaneError::Outcome(format!("bad label {l:?}")));
    for l in ["", "x0i1", "h2i1", "h01i1", "h0", "h0i", "h0i-1", "h0i+", "hi1", "h0i99999999999999999999999"] {
        assert_eq!(parse_label(l), bad(l), "{l}");
    }
}

#[test]
fn hold_rule() {
    let s = hold_swap(false, 'T', 'I', Some('Z'));
    assert_eq!((s.piece, s.held, s.draw_next), ('T', Some('Z'), false));
    let s = hold_swap(true, 'T', 'I', Some('Z'));
    assert_eq!((s.piece, s.held, s.draw_next), ('Z', Some('T'), false));
    let s = hold_swap(true, 'T', 'I', None);
    assert_eq!((s.piece, s.held, s.draw_next), ('I', Some('T'), true));
}
