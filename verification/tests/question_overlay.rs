use minmax_code::engine::{AgentQuestion, AgentQuestionBatch};
use minmax_code::question::{
    question_overlay_key, AgentQuestionState, OverlayFocus, QuestionAction, QuestionView,
};
use minmax_code::ui::Key;

fn make_question() -> AgentQuestion {
    AgentQuestion {
        header: "Approach".to_string(),
        question: "Which approach do you prefer?".to_string(),
        options: vec!["Option A".to_string(), "Option B".to_string(), "Option C".to_string()],
        allow_custom: true,
    }
}

fn make_single_batch() -> AgentQuestionBatch {
    AgentQuestionBatch { questions: vec![make_question()] }
}

fn make_multi_batch() -> AgentQuestionBatch {
    AgentQuestionBatch {
        questions: vec![
            AgentQuestion {
                header: "Framework".to_string(),
                question: "Which framework?".to_string(),
                options: vec!["Next.js".to_string(), "Remix".to_string()],
                allow_custom: true,
            },
            AgentQuestion {
                header: "Database".to_string(),
                question: "Which database?".to_string(),
                options: vec!["PostgreSQL".to_string(), "SQLite".to_string()],
                allow_custom: false,
            },
            AgentQuestion {
                header: "Auth".to_string(),
                question: "Which auth method?".to_string(),
                options: vec!["JWT".to_string(), "Session".to_string()],
                allow_custom: true,
            },
        ],
    }
}

#[test]
fn single_state_starts_at_selecting_view() {
    let state = AgentQuestionState::new(make_single_batch());
    assert!(state.is_single());
    assert_eq!(state.states[0].view, QuestionView::Selecting);
    assert_eq!(state.states[0].selected, 0);
    assert_eq!(state.states[0].item_count(&state.questions[0]), 4);
}

#[test]
fn single_navigate_down_and_up() {
    let mut state = AgentQuestionState::new(make_single_batch());
    let action = question_overlay_key(&mut state, Key::Down);
    assert_eq!(action, QuestionAction::Stay);
    assert_eq!(state.states[0].selected, 1);

    let action = question_overlay_key(&mut state, Key::Up);
    assert_eq!(action, QuestionAction::Stay);
    assert_eq!(state.states[0].selected, 0);

    let action = question_overlay_key(&mut state, Key::Up);
    assert_eq!(action, QuestionAction::Stay);
    assert_eq!(state.states[0].selected, 0);
}

#[test]
fn single_cannot_go_past_last_item() {
    let mut state = AgentQuestionState::new(make_single_batch());
    for _ in 0..10 {
        question_overlay_key(&mut state, Key::Down);
    }
    assert_eq!(state.states[0].selected, 3);
}

#[test]
fn single_select_predefined_option() {
    let mut state = AgentQuestionState::new(make_single_batch());
    state.states[0].selected = 1;
    let action = question_overlay_key(&mut state, Key::Enter);
    assert_eq!(action, QuestionAction::SubmitAll(vec!["Option B".to_string()]));
}

#[test]
fn single_select_other_opens_custom_input() {
    let mut state = AgentQuestionState::new(make_single_batch());
    state.states[0].selected = 3;
    let action = question_overlay_key(&mut state, Key::Enter);
    assert_eq!(action, QuestionAction::Stay);
    assert_eq!(state.states[0].view, QuestionView::CustomInput);
}

#[test]
fn single_custom_input_submit() {
    let mut state = AgentQuestionState::new(make_single_batch());
    state.states[0].view = QuestionView::CustomInput;
    for c in "hello".chars() {
        question_overlay_key(&mut state, Key::Char(c));
    }
    assert_eq!(state.states[0].custom_text, "hello");

    let action = question_overlay_key(&mut state, Key::Enter);
    assert_eq!(action, QuestionAction::SubmitAll(vec!["hello".to_string()]));
}

#[test]
fn single_custom_input_empty_does_not_submit() {
    let mut state = AgentQuestionState::new(make_single_batch());
    state.states[0].view = QuestionView::CustomInput;
    let action = question_overlay_key(&mut state, Key::Enter);
    assert_eq!(action, QuestionAction::Stay);
}

#[test]
fn single_custom_input_esc_returns_to_selecting() {
    let mut state = AgentQuestionState::new(make_single_batch());
    state.states[0].view = QuestionView::CustomInput;
    let action = question_overlay_key(&mut state, Key::Esc);
    assert_eq!(action, QuestionAction::Stay);
    assert_eq!(state.states[0].view, QuestionView::Selecting);
}

#[test]
fn no_custom_option_when_disabled() {
    let batch = AgentQuestionBatch {
        questions: vec![AgentQuestion {
            header: "Pick".to_string(),
            question: "Pick one".to_string(),
            options: vec!["A".to_string(), "B".to_string()],
            allow_custom: false,
        }],
    };
    let state = AgentQuestionState::new(batch);
    assert_eq!(state.states[0].item_count(&state.questions[0]), 2);
}

#[test]
fn single_backspace_in_custom_input() {
    let mut state = AgentQuestionState::new(make_single_batch());
    state.states[0].view = QuestionView::CustomInput;
    for c in "ab".chars() {
        question_overlay_key(&mut state, Key::Char(c));
    }
    assert_eq!(state.states[0].custom_text, "ab");

    question_overlay_key(&mut state, Key::Backspace);
    assert_eq!(state.states[0].custom_text, "a");
    assert_eq!(state.states[0].custom_cursor, 1);
}

#[test]
fn multi_starts_on_first_tab() {
    let state = AgentQuestionState::new(make_multi_batch());
    assert!(!state.is_single());
    assert_eq!(state.active_tab, 0);
    assert_eq!(state.focus, OverlayFocus::Questions);
    assert_eq!(state.questions.len(), 3);
    assert_eq!(state.states.len(), 3);
}

#[test]
fn multi_tab_navigates_forward() {
    let mut state = AgentQuestionState::new(make_multi_batch());
    question_overlay_key(&mut state, Key::Tab);
    assert_eq!(state.active_tab, 1);
    assert_eq!(state.focus, OverlayFocus::Questions);

    question_overlay_key(&mut state, Key::Tab);
    assert_eq!(state.active_tab, 2);

    question_overlay_key(&mut state, Key::Tab);
    assert_eq!(state.focus, OverlayFocus::Submit);
}

#[test]
fn multi_backtab_navigates_backward() {
    let mut state = AgentQuestionState::new(make_multi_batch());
    state.focus = OverlayFocus::Submit;

    question_overlay_key(&mut state, Key::BackTab);
    assert_eq!(state.focus, OverlayFocus::Questions);
    assert_eq!(state.active_tab, 2);

    question_overlay_key(&mut state, Key::BackTab);
    assert_eq!(state.active_tab, 1);

    question_overlay_key(&mut state, Key::BackTab);
    assert_eq!(state.active_tab, 0);

    question_overlay_key(&mut state, Key::BackTab);
    assert_eq!(state.active_tab, 0);
}

#[test]
fn multi_answer_question_advances_to_next() {
    let mut state = AgentQuestionState::new(make_multi_batch());

    let action = question_overlay_key(&mut state, Key::Enter);
    assert_eq!(action, QuestionAction::Stay);
    assert_eq!(state.states[0].answer, Some("Next.js".to_string()));
    assert_eq!(state.active_tab, 1);
}

#[test]
fn multi_submit_requires_all_answered() {
    let mut state = AgentQuestionState::new(make_multi_batch());
    state.focus = OverlayFocus::Submit;

    let action = question_overlay_key(&mut state, Key::Enter);
    assert_eq!(action, QuestionAction::Stay);
    assert_eq!(state.focus, OverlayFocus::Questions);
    assert_eq!(state.active_tab, 0);
}

#[test]
fn multi_submit_works_when_all_answered() {
    let mut state = AgentQuestionState::new(make_multi_batch());

    state.states[0].answer = Some("Next.js".to_string());
    state.states[1].answer = Some("PostgreSQL".to_string());
    state.states[2].answer = Some("JWT".to_string());

    state.focus = OverlayFocus::Submit;

    let action = question_overlay_key(&mut state, Key::Enter);
    assert_eq!(
        action,
        QuestionAction::SubmitAll(vec![
            "Next.js".to_string(),
            "PostgreSQL".to_string(),
            "JWT".to_string(),
        ])
    );
}

#[test]
fn multi_full_flow() {
    let mut state = AgentQuestionState::new(make_multi_batch());

    question_overlay_key(&mut state, Key::Enter);
    assert_eq!(state.states[0].answer, Some("Next.js".to_string()));
    assert_eq!(state.active_tab, 1);

    question_overlay_key(&mut state, Key::Down);
    question_overlay_key(&mut state, Key::Enter);
    assert_eq!(state.states[1].answer, Some("SQLite".to_string()));
    assert_eq!(state.active_tab, 2);

    question_overlay_key(&mut state, Key::Down);
    question_overlay_key(&mut state, Key::Enter);
    assert_eq!(state.states[2].answer, Some("Session".to_string()));
    assert_eq!(state.focus, OverlayFocus::Submit);

    let action = question_overlay_key(&mut state, Key::Enter);
    assert_eq!(
        action,
        QuestionAction::SubmitAll(vec![
            "Next.js".to_string(),
            "SQLite".to_string(),
            "Session".to_string(),
        ])
    );
}
