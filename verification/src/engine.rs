//! The engine's question mapping and typed refusals: which answer a
//! question gets from its id and kind, the gates a `place` or `state`
//! question must pass, and the canonical `place` option labels.

use crate::proto::codes;
use crate::text::{debug_str, debug_text, decimal_spec, push_decimal};
use vstd::prelude::*;

verus! {

/// The rubric for `score` questions, lowest level first.
pub const SCORE_RUBRIC: [&'static str; 5] = ["critical", "poor", "fair", "good", "excellent"];

/// Engine-side typed failures, each mapped to a protocol error code.
#[derive(Clone, Debug, PartialEq)]
pub enum EngineError {
    /// The `state` field did not decode.
    BadState(String),
    /// A known question id arrived with the wrong kind.
    QuestionKind { id: String, kind: &'static str },
    /// A question's option count diverged from the engine's canonical
    /// enumeration.
    OptionsCount { want: usize, got: usize },
}

/// The text of an engine refusal.
pub open spec fn engine_error_text(e: EngineError) -> Seq<char> {
    match e {
        EngineError::BadState(s) => "state decode failed: "@ + s@,
        EngineError::QuestionKind { id, kind } => "question "@ + debug_text(id@) + " must be a "@
            + kind@ + " question"@,
        EngineError::OptionsCount { want, got } => "options diverged: engine expects "@
            + decimal_spec(want as nat) + ", request carries "@ + decimal_spec(got as nat)
            + OPTIONS_HINT@,
    }
}

/// What an options-count refusal says the canonical enumerations are.
pub const OPTIONS_HINT: &'static str =
    " (place: the decide_scored candidate order — no-hold landing options first, then the hold swap; score: the canonical 5-level rubric)";

impl EngineError {
    /// The protocol error code.
    pub fn code(&self) -> (c: &'static str)
        ensures
            c@ == match self {
                EngineError::BadState(_) => codes::BAD_STATE@,
                EngineError::QuestionKind { .. } => codes::QUESTION_KIND@,
                EngineError::OptionsCount { .. } => codes::OPTIONS_COUNT@,
            },
    {
        match self {
            EngineError::BadState(_) => codes::BAD_STATE,
            EngineError::QuestionKind { .. } => codes::QUESTION_KIND,
            EngineError::OptionsCount { .. } => codes::OPTIONS_COUNT,
        }
    }

    /// Human context for the refusal.
    pub fn message(&self) -> (m: String)
        ensures
            m@ == engine_error_text(*self),
    {
        match self {
            EngineError::BadState(e) => {
                let mut m = String::from_str("state decode failed: ");
                m.append(e.as_str());
                m
            },
            EngineError::QuestionKind { id, kind } => {
                let mut m = String::from_str("question ");
                let quoted = debug_str(id.as_str());
                m.append(quoted.as_str());
                m.append(" must be a ");
                m.append(kind);
                m.append(" question");
                m
            },
            EngineError::OptionsCount { want, got } => {
                let mut m = String::from_str("options diverged: engine expects ");
                push_decimal(&mut m, *want as u64);
                m.append(", request carries ");
                push_decimal(&mut m, *got as u64);
                m.append(OPTIONS_HINT);
                m
            },
        }
    }
}

/// The wire's question kinds.
#[derive(Clone, Copy, Debug, PartialEq, Eq, Structural)]
pub enum QuestionKind {
    Choice,
    Score,
    Noul,
}

/// Which answer a question gets.
#[derive(Clone, Copy, Debug, PartialEq, Eq, Structural)]
pub enum Route {
    /// `place`: the first strict argmax over the searched candidates.
    Place,
    /// `state`: the rubric level of the position's value-to-go.
    State,
    /// `survive`: whether a legal placement exists.
    Survive,
    /// An unknown question: abstain with confidence 0.
    Abstain,
}

/// Routing by id then kind: the three known ids answer only their own
/// kind (anything else is a typed refusal naming the kind they need);
/// every other id abstains.
pub open spec fn route_spec(id: Seq<char>, kind: QuestionKind) -> Result<Route, (Seq<char>, Seq<char>)> {
    if id == "place"@ {
        if kind == QuestionKind::Choice {
            Ok(Route::Place)
        } else {
            Err((id, "choice"@))
        }
    } else if id == "state"@ {
        if kind == QuestionKind::Score {
            Ok(Route::State)
        } else {
            Err((id, "score"@))
        }
    } else if id == "survive"@ {
        if kind == QuestionKind::Noul {
            Ok(Route::Survive)
        } else {
            Err((id, "noul"@))
        }
    } else {
        Ok(Route::Abstain)
    }
}

/// Routing law: the id `place` answers only a choice question, `state`
/// only a score question and `survive` only a noul question, each other
/// kind being refused with the kind the id needs; every other id
/// abstains, whatever its kind.
pub proof fn lemma_routing_by_id(id: Seq<char>, kind: QuestionKind)
    ensures
        id == seq!['p', 'l', 'a', 'c', 'e'] ==> route_spec(id, kind) == if kind
            == QuestionKind::Choice {
            Ok::<Route, (Seq<char>, Seq<char>)>(Route::Place)
        } else {
            Err((id, seq!['c', 'h', 'o', 'i', 'c', 'e']))
        },
        id == seq!['s', 't', 'a', 't', 'e'] ==> route_spec(id, kind) == if kind
            == QuestionKind::Score {
            Ok::<Route, (Seq<char>, Seq<char>)>(Route::State)
        } else {
            Err((id, seq!['s', 'c', 'o', 'r', 'e']))
        },
        id == seq!['s', 'u', 'r', 'v', 'i', 'v', 'e'] ==> route_spec(id, kind) == if kind
            == QuestionKind::Noul {
            Ok::<Route, (Seq<char>, Seq<char>)>(Route::Survive)
        } else {
            Err((id, seq!['n', 'o', 'u', 'l']))
        },
        id != seq!['p', 'l', 'a', 'c', 'e'] && id != seq!['s', 't', 'a', 't', 'e'] && id
            != seq!['s', 'u', 'r', 'v', 'i', 'v', 'e'] ==> route_spec(id, kind) == Ok::<
            Route,
            (Seq<char>, Seq<char>),
        >(Route::Abstain),
{
    reveal_strlit("place");
    reveal_strlit("state");
    reveal_strlit("survive");
    reveal_strlit("choice");
    reveal_strlit("score");
    reveal_strlit("noul");
    assert("place"@ =~= seq!['p', 'l', 'a', 'c', 'e']);
    assert("state"@ =~= seq!['s', 't', 'a', 't', 'e']);
    assert("survive"@ =~= seq!['s', 'u', 'r', 'v', 'i', 'v', 'e']);
    assert("choice"@ =~= seq!['c', 'h', 'o', 'i', 'c', 'e']);
    assert("score"@ =~= seq!['s', 'c', 'o', 'r', 'e']);
    assert("noul"@ =~= seq!['n', 'o', 'u', 'l']);
}

/// Routes one question by its id and kind.
pub fn route_question(id: &str, kind: QuestionKind) -> (r: Result<Route, EngineError>)
    ensures
        match r {
            Ok(route) => route_spec(id@, kind) == Ok::<Route, (Seq<char>, Seq<char>)>(route),
            Err(e) => e matches EngineError::QuestionKind { id: got, kind: want } && route_spec(
                id@,
                kind,
            ) == Err::<Route, (Seq<char>, Seq<char>)>((got@, want@)),
        },
{
    if crate::text::str_eq(id, "place") {
        if kind == QuestionKind::Choice {
            Ok(Route::Place)
        } else {
            Err(EngineError::QuestionKind { id: String::from_str(id), kind: "choice" })
        }
    } else if crate::text::str_eq(id, "state") {
        if kind == QuestionKind::Score {
            Ok(Route::State)
        } else {
            Err(EngineError::QuestionKind { id: String::from_str(id), kind: "score" })
        }
    } else if crate::text::str_eq(id, "survive") {
        if kind == QuestionKind::Noul {
            Ok(Route::Survive)
        } else {
            Err(EngineError::QuestionKind { id: String::from_str(id), kind: "noul" })
        }
    } else {
        Ok(Route::Abstain)
    }
}

/// What a `place` question gets once the state is searched.
#[derive(Clone, Copy, Debug, PartialEq, Eq, Structural)]
pub enum PlaceGate {
    /// No legal placement exists: abstain.
    Abstain,
    /// Answer with the first strict argmax over the candidates.
    Answer,
}

/// The `place` gate: with no candidates the question abstains; an option
/// count other than the candidate count is refused; otherwise it is
/// answered.
pub fn place_gate(candidates: usize, options: usize) -> (r: Result<PlaceGate, EngineError>)
    ensures
        r == if candidates == 0 {
            Ok::<PlaceGate, EngineError>(PlaceGate::Abstain)
        } else if options != candidates {
            Err(EngineError::OptionsCount { want: candidates, got: options })
        } else {
            Ok(PlaceGate::Answer)
        },
{
    if candidates == 0 {
        return Ok(PlaceGate::Abstain);
    }
    if options != candidates {
        return Err(EngineError::OptionsCount { want: candidates, got: options });
    }
    Ok(PlaceGate::Answer)
}

/// The `state` gate: the options must be the canonical 5-level rubric.
pub fn score_gate(options: usize) -> (r: Result<(), EngineError>)
    ensures
        r == if options != 5 {
            Err(EngineError::OptionsCount { want: 5, got: options })
        } else {
            Ok::<(), EngineError>(())
        },
{
    if options != SCORE_RUBRIC.len() {
        return Err(EngineError::OptionsCount { want: SCORE_RUBRIC.len(), got: options });
    }
    Ok(())
}

/// The canonical `place` option label `h{hold}i{index}`.
pub open spec fn label_text(use_hold: bool, index: nat) -> Seq<char> {
    seq![
        'h',
        if use_hold {
            '1'
        } else {
            '0'
        },
        'i',
    ] + decimal_spec(index)
}

/// The `place` option label of one searched candidate.
pub fn option_label(use_hold: bool, index: usize) -> (s: String)
    ensures
        s@ == label_text(use_hold, index as nat),
{
    let mut s = if use_hold {
        proof {
            reveal_strlit("h1i");
        }
        String::from_str("h1i")
    } else {
        proof {
            reveal_strlit("h0i");
        }
        String::from_str("h0i")
    };
    push_decimal(&mut s, index as u64);
    assert(s@ =~= label_text(use_hold, index as nat));
    s
}

} // verus!
