//! The interactive-question overlay state machine: navigating one or more
//! questions, answering each exactly once, and submitting all answers
//! together.

use vstd::prelude::*;

use crate::engine::{AgentQuestion, AgentQuestionBatch};
use crate::text::{
    append_chars, chars_of, slice_range_to_vec, spec_trim, string_from_chars, trim_chars,
};
use crate::ui::Key;

verus! {

/// What part of one question the user is working in.
#[derive(Debug, Clone, Copy, PartialEq, Eq, Structural)]
pub enum QuestionView {
    Selecting,
    CustomInput,
}

/// Which part of the overlay has focus.
#[derive(Debug, Clone, Copy, PartialEq, Eq, Structural)]
pub enum OverlayFocus {
    Questions,
    Submit,
}

/// Per-question state: the option cursor, the custom-answer draft with its
/// caret in characters, and the confirmed answer once one exists.
#[derive(Debug, Clone)]
pub struct SingleQuestionState {
    pub view: QuestionView,
    pub selected: usize,
    pub custom_text: String,
    pub custom_cursor: usize,
    pub answer: Option<String>,
}

impl SingleQuestionState {
    /// A fresh, unanswered question state.
    pub fn new() -> (r: SingleQuestionState)
        ensures
            r.view is Selecting,
            r.selected == 0,
            r.custom_text@.len() == 0,
            r.custom_cursor == 0,
            r.answer is None,
    {
        SingleQuestionState {
            view: QuestionView::Selecting,
            selected: 0,
            custom_text: String::new(),
            custom_cursor: 0,
            answer: None,
        }
    }

    /// The caret sits inside the draft.
    pub open spec fn wf(&self) -> bool {
        self.custom_cursor <= self.custom_text@.len()
    }

    /// How many items the question lists: its options, and one more for the
    /// custom answer when allowed.
    pub fn item_count(&self, question: &AgentQuestion) -> (r: usize)
        ensures
            question.allow_custom && question.options@.len() < usize::MAX ==> r
                == question.options@.len() + 1,
            !question.allow_custom ==> r == question.options@.len(),
    {
        let n = question.options.len();
        if question.allow_custom && n < usize::MAX {
            n + 1
        } else {
            n
        }
    }
}

/// The whole overlay: the questions, one state each, the active tab, and
/// the focus.
#[derive(Debug, Clone)]
pub struct AgentQuestionState {
    pub questions: Vec<AgentQuestion>,
    pub states: Vec<SingleQuestionState>,
    pub active_tab: usize,
    pub focus: OverlayFocus,
}

/// Whether every question carries a confirmed answer.
pub open spec fn spec_all_answered(states: Seq<SingleQuestionState>) -> bool {
    forall|k: int| 0 <= k < states.len() ==> states[k].answer is Some
}

impl AgentQuestionState {
    /// One state per question, the active tab inside the batch, and every
    /// draft caret inside its draft.
    pub open spec fn wf(&self) -> bool {
        &&& self.questions@.len() >= 1
        &&& self.states@.len() == self.questions@.len()
        &&& (self.active_tab as int) < self.states@.len()
        &&& forall|k: int| 0 <= k < self.states@.len() ==> (#[trigger] self.states@[k]).wf()
    }

    /// Open the overlay for a batch: one fresh state per question, the
    /// first tab active.
    pub fn new(batch: AgentQuestionBatch) -> (r: AgentQuestionState)
        requires
            batch.questions@.len() >= 1,
        ensures
            r.wf(),
            r.questions@ == batch.questions@,
            r.active_tab == 0,
            r.focus is Questions,
            forall|k: int| 0 <= k < r.states@.len() ==> (#[trigger] r.states@[k]).answer is None
                && r.states@[k].view is Selecting && r.states@[k].selected == 0,
    {
        let count = batch.questions.len();
        let mut states: Vec<SingleQuestionState> = Vec::new();
        let mut i: usize = 0;
        while i < count
            invariant
                0 <= i <= count,
                states@.len() == i,
                forall|k: int| 0 <= k < i ==> (#[trigger] states@[k]).answer is None
                    && states@[k].view is Selecting && states@[k].selected == 0 && states@[k].wf(),
            decreases count - i,
        {
            states.push(SingleQuestionState::new());
            i += 1;
        }
        AgentQuestionState {
            states,
            questions: batch.questions,
            active_tab: 0,
            focus: OverlayFocus::Questions,
        }
    }

    /// Whether this is a single-question batch with no tab bar.
    pub fn is_single(&self) -> (r: bool)
        ensures
            r == (self.questions@.len() == 1),
    {
        self.questions.len() == 1
    }

    /// Whether all questions have been answered.
    pub fn all_answered(&self) -> (r: bool)
        ensures
            r == spec_all_answered(self.states@),
    {
        let mut k: usize = 0;
        while k < self.states.len()
            invariant
                0 <= k <= self.states@.len(),
                forall|j: int| 0 <= j < k ==> self.states@[j].answer is Some,
            decreases self.states@.len() - k,
        {
            match self.states[k].answer {
                Some(_) => {},
                None => {
                    return false;
                },
            }
            k += 1;
        }
        true
    }

    /// All answers in question order; an unanswered question reads empty.
    pub fn collect_answers(&self) -> (r: Vec<String>)
        ensures
            r@.len() == self.states@.len(),
            forall|k: int|
                0 <= k < r@.len() ==> (#[trigger] r@[k])@ == (match self.states@[k].answer {
                    Some(a) => a@,
                    None => Seq::<char>::empty(),
                }),
    {
        let mut r: Vec<String> = Vec::new();
        let mut k: usize = 0;
        while k < self.states.len()
            invariant
                0 <= k <= self.states@.len(),
                r@.len() == k,
                forall|j: int|
                    0 <= j < k ==> (#[trigger] r@[j])@ == (match self.states@[j].answer {
                        Some(a) => a@,
                        None => Seq::<char>::empty(),
                    }),
            decreases self.states@.len() - k,
        {
            match &self.states[k].answer {
                Some(a) => r.push(a.clone()),
                None => r.push(String::new()),
            }
            k += 1;
        }
        r
    }

    /// The first unanswered question, scanning from the front.
    fn first_unanswered(&self) -> (r: Option<usize>)
        ensures
            r is None ==> spec_all_answered(self.states@),
            r matches Some(k) ==> (k as int) < self.states@.len() && self.states@[
                k as int].answer is None,
    {
        let mut k: usize = 0;
        while k < self.states.len()
            invariant
                0 <= k <= self.states@.len(),
                forall|j: int| 0 <= j < k ==> self.states@[j].answer is Some,
            decreases self.states@.len() - k,
        {
            match self.states[k].answer {
                Some(_) => {},
                None => {
                    return Some(k);
                },
            }
            k += 1;
        }
        None
    }
}

/// What a key did to the overlay.
#[derive(Debug, Clone, PartialEq)]
pub enum QuestionAction {
    Stay,
    SubmitAll(Vec<String>),
}

/// Drive the overlay with one key. A submission carries exactly one answer
/// per question; in a multi-question batch it only happens from the submit
/// control once every question is answered.
pub fn question_overlay_key(state: &mut AgentQuestionState, key: Key) -> (r: QuestionAction)
    requires
        old(state).wf(),
    ensures
        final(state).wf(),
        final(state).questions@ == old(state).questions@,
        r matches QuestionAction::SubmitAll(answers) ==> answers@.len() == (if old(
            state,
        ).questions@.len() == 1 {
            1int
        } else {
            old(state).questions@.len() as int
        }),
        old(state).questions@.len() > 1 && r is SubmitAll ==> spec_all_answered(old(state).states@),
{
    if state.questions.len() == 1 {
        handle_single_key(state, key)
    } else {
        handle_multi_key(state, key)
    }
}

/// Single-question mode: no tab bar; selecting an option submits at once,
/// and the custom item opens the draft.
fn handle_single_key(state: &mut AgentQuestionState, key: Key) -> (r: QuestionAction)
    requires
        old(state).wf(),
        old(state).questions@.len() == 1,
    ensures
        final(state).wf(),
        final(state).questions@ == old(state).questions@,
        r matches QuestionAction::SubmitAll(answers) ==> answers@.len() == 1,
{
    let in_custom = match state.states[0].view {
        QuestionView::CustomInput => true,
        QuestionView::Selecting => false,
    };
    if in_custom {
        let action = custom_input_key(&mut state.states[0], key);
        proof {
            assert(forall|k: int|
                0 <= k < state.states@.len() ==> (#[trigger] state.states@[k]).wf());
        }
        return action;
    }
    match key {
        Key::Up => {
            if state.states[0].selected > 0 {
                let s = &mut state.states[0];
                s.selected = s.selected - 1;
            }
            QuestionAction::Stay
        },
        Key::Down => {
            let count = state.states[0].item_count(&state.questions[0]);
            let limit: usize = if count > 0 {
                count - 1
            } else {
                0
            };
            if state.states[0].selected < limit {
                let s = &mut state.states[0];
                s.selected = s.selected + 1;
            }
            QuestionAction::Stay
        },
        Key::Enter => {
            if state.states[0].selected < state.questions[0].options.len() {
                let choice = state.questions[0].options[state.states[0].selected].clone();
                let mut answers: Vec<String> = Vec::new();
                answers.push(choice);
                QuestionAction::SubmitAll(answers)
            } else {
                let s = &mut state.states[0];
                s.view = QuestionView::CustomInput;
                QuestionAction::Stay
            }
        },
        _ => QuestionAction::Stay,
    }
}

/// Multi-question mode: tabs move between questions and the submit control;
/// answering a question confirms it and advances to the next unanswered one.
fn handle_multi_key(state: &mut AgentQuestionState, key: Key) -> (r: QuestionAction)
    requires
        old(state).wf(),
        old(state).questions@.len() > 1,
    ensures
        final(state).wf(),
        final(state).questions@ == old(state).questions@,
        r matches QuestionAction::SubmitAll(answers) ==> answers@.len() == old(
            state,
        ).questions@.len() && spec_all_answered(old(state).states@),
{
    let tab = state.active_tab;
    let in_custom = match state.focus {
        OverlayFocus::Questions => match state.states[tab].view {
            QuestionView::CustomInput => true,
            QuestionView::Selecting => false,
        },
        OverlayFocus::Submit => false,
    };
    if in_custom {
        let action = custom_input_key(&mut state.states[tab], key);
        proof {
            assert(forall|k: int|
                0 <= k < state.states@.len() ==> (#[trigger] state.states@[k]).wf());
        }
        match action {
            QuestionAction::SubmitAll(answers) => {
                // Confirming a custom draft only answers this question.
                let s = &mut state.states[tab];
                s.answer = Some(answers[0].clone());
                s.view = QuestionView::Selecting;
                advance_to_next(state);
                return QuestionAction::Stay;
            },
            QuestionAction::Stay => {
                return QuestionAction::Stay;
            },
        }
    }
    match key {
        Key::Tab | Key::Right => {
            match state.focus {
                OverlayFocus::Questions => {
                    let n = state.questions.len();
                    if state.active_tab < n - 1 {
                        state.active_tab = state.active_tab + 1;
                    } else {
                        state.focus = OverlayFocus::Submit;
                    }
                },
                OverlayFocus::Submit => {},
            }
            QuestionAction::Stay
        },
        Key::BackTab | Key::Left => {
            match state.focus {
                OverlayFocus::Submit => {
                    state.focus = OverlayFocus::Questions;
                    state.active_tab = state.questions.len() - 1;
                },
                OverlayFocus::Questions => {
                    if state.active_tab > 0 {
                        state.active_tab = state.active_tab - 1;
                    }
                },
            }
            QuestionAction::Stay
        },
        Key::Up => {
            match state.focus {
                OverlayFocus::Questions => {
                    let s = &mut state.states[tab];
                    if s.selected > 0 {
                        s.selected = s.selected - 1;
                    }
                },
                OverlayFocus::Submit => {},
            }
            QuestionAction::Stay
        },
        Key::Down => {
            match state.focus {
                OverlayFocus::Questions => {
                    let count = state.states[tab].item_count(&state.questions[tab]);
                    let limit: usize = if count > 0 {
                        count - 1
                    } else {
                        0
                    };
                    if state.states[tab].selected < limit {
                        let s = &mut state.states[tab];
                        s.selected = s.selected + 1;
                    }
                },
                OverlayFocus::Submit => {},
            }
            QuestionAction::Stay
        },
        Key::Enter => {
            match state.focus {
                OverlayFocus::Submit => {
                    if state.all_answered() {
                        QuestionAction::SubmitAll(state.collect_answers())
                    } else {
                        match state.first_unanswered() {
                            Some(idx) => {
                                state.active_tab = idx;
                                state.focus = OverlayFocus::Questions;
                            },
                            None => {},
                        }
                        QuestionAction::Stay
                    }
                },
                OverlayFocus::Questions => {
                    if state.states[tab].selected < state.questions[tab].options.len() {
                        let choice =
                            state.questions[tab].options[state.states[tab].selected].clone();
                        let s = &mut state.states[tab];
                        s.answer = Some(choice);
                        advance_to_next(state);
                    } else if state.questions[tab].allow_custom {
                        let s = &mut state.states[tab];
                        s.view = QuestionView::CustomInput;
                    }
                    QuestionAction::Stay
                },
            }
        },
        _ => QuestionAction::Stay,
    }
}

/// After answering, move to the next unanswered question, wrapping to the
/// front; with everything answered, focus the submit control.
fn advance_to_next(state: &mut AgentQuestionState)
    requires
        old(state).wf(),
    ensures
        final(state).wf(),
        final(state).questions@ == old(state).questions@,
        final(state).states@ == old(state).states@,
{
    let n = state.states.len();
    let mut i: usize = state.active_tab + 1;
    while i < state.states.len()
        invariant
            old(state).wf(),
            old(state).active_tab < i,
            *state == *old(state),
        decreases state.states@.len() - i,
    {
        match state.states[i].answer {
            None => {
                state.active_tab = i;
                state.focus = OverlayFocus::Questions;
                return ;
            },
            Some(_) => {},
        }
        i += 1;
    }
    let mut j: usize = 0;
    while j < state.active_tab
        invariant
            old(state).wf(),
            *state == *old(state),
            j <= state.active_tab,
        decreases state.active_tab - j,
    {
        match state.states[j].answer {
            None => {
                state.active_tab = j;
                state.focus = OverlayFocus::Questions;
                return ;
            },
            Some(_) => {},
        }
        j += 1;
    }
    state.focus = OverlayFocus::Submit;
}

/// Drive the custom-answer draft with one key: enter submits the trimmed
/// draft when it holds anything, escape returns to the option list, and the
/// rest edit the draft at the caret.
fn custom_input_key(s: &mut SingleQuestionState, key: Key) -> (r: QuestionAction)
    requires
        old(s).wf(),
    ensures
        final(s).wf(),
        final(s).answer == old(s).answer,
        r matches QuestionAction::SubmitAll(answers) ==> answers@.len() == 1 && answers@[0]@
            == spec_trim(old(s).custom_text@) && spec_trim(old(s).custom_text@).len() > 0,
{
    match key {
        Key::Enter => {
            let tv = chars_of(s.custom_text.as_str());
            let trimmed = trim_chars(tv.as_slice());
            if trimmed.len() > 0 {
                let mut answers: Vec<String> = Vec::new();
                answers.push(string_from_chars(trimmed.as_slice()));
                QuestionAction::SubmitAll(answers)
            } else {
                QuestionAction::Stay
            }
        },
        Key::Esc => {
            s.view = QuestionView::Selecting;
            QuestionAction::Stay
        },
        Key::Char(c) => {
            let tv = chars_of(s.custom_text.as_str());
            let mut out = slice_range_to_vec(tv.as_slice(), 0, s.custom_cursor);
            out.push(c);
            let tail = slice_range_to_vec(tv.as_slice(), s.custom_cursor, tv.len());
            append_chars(&mut out, tail.as_slice());
            let grown = out.len();
            proof {
                assert(old(s).custom_cursor < grown);
            }
            s.custom_text = string_from_chars(out.as_slice());
            s.custom_cursor = s.custom_cursor + 1;
            QuestionAction::Stay
        },
        Key::Backspace => {
            if s.custom_cursor > 0 {
                let tv = chars_of(s.custom_text.as_str());
                let mut out = slice_range_to_vec(tv.as_slice(), 0, s.custom_cursor - 1);
                let tail = slice_range_to_vec(tv.as_slice(), s.custom_cursor, tv.len());
                append_chars(&mut out, tail.as_slice());
                s.custom_text = string_from_chars(out.as_slice());
                s.custom_cursor = s.custom_cursor - 1;
            }
            QuestionAction::Stay
        },
        Key::Left => {
            if s.custom_cursor > 0 {
                s.custom_cursor = s.custom_cursor - 1;
            }
            QuestionAction::Stay
        },
        Key::Right => {
            let tv = chars_of(s.custom_text.as_str());
            if s.custom_cursor < tv.len() {
                s.custom_cursor = s.custom_cursor + 1;
            }
            QuestionAction::Stay
        },
        Key::Home => {
            s.custom_cursor = 0;
            QuestionAction::Stay
        },
        Key::End => {
            let tv = chars_of(s.custom_text.as_str());
            s.custom_cursor = tv.len();
            QuestionAction::Stay
        },
        _ => QuestionAction::Stay,
    }
}

} // verus!
