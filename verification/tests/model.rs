use kenlm::error::KenlmError;
use kenlm::model::{Model, ModelFacts, SentenceWalk, State, WalkStep, WordIndex};
use kenlm::text::c_string_bytes;
use kenlm::text::split_words;

const STATE_SIZE: usize = 8;
const LOOKING: WordIndex = 7;

fn test_facts() -> ModelFacts {
    ModelFacts {
        state_size: STATE_SIZE,
        order: 5,
        begin_sentence_index: 1,
        end_sentence_index: 2,
        not_found_index: 0,
        begin_sentence_context: vec![1, 0, 0, 0, 1, 0, 0, 0],
        null_context: vec![0; STATE_SIZE],
    }
}

fn test_model(token: u64) -> Model {
    Model::new(token, Ok(test_facts())).unwrap()
}

#[test]
fn model_facts_give_order_and_vocabulary() {
    let model = test_model(1);

    assert!(model.order() > 0);
    assert!(model.contains(Ok(LOOKING)).unwrap());
    assert!(!model.contains(Ok(model.not_found_index())).unwrap());

}

#[test]
fn transitions_keep_states_with_their_model() {
    let model = test_model(1);

    let mut state = model.begin_sentence_state();
    let mut out = model.null_context_state();
    assert!(model.check_transition(&state, &out).is_ok());

    // KenLM writes the next state into `out`.
    out.store(vec![9, 9, 9, 9, 0, 0, 0, 0]);
    std::mem::swap(&mut state, &mut out);
    assert_eq!(state.bytes(), &[9, 9, 9, 9, 0, 0, 0, 0]);
    assert!(model.check_transition(&state, &out).is_ok());
    assert_eq!(model.end_sentence_index(), 2);
}

#[test]
fn rejects_states_with_another_token() {
    let first = test_model(1);
    let second = test_model(2);

    let state = first.begin_sentence_state();
    let out = second.null_context_state();

    let error = second.check_transition(&state, &out).unwrap_err();
    assert!(matches!(error, KenlmError::StateModelMismatch));
}

#[test]
fn rejects_output_state_from_other_model() {
    let first = test_model(1);
    let second = test_model(2);
    let state = second.begin_sentence_state();
    let out = first.empty_state();
    assert!(matches!(
        second.check_transition(&state, &out),
        Err(KenlmError::StateModelMismatch)
    ));
    assert!(first.validate_state(&out).is_ok());
}

#[test]
fn failed_load_reports_kenlm_message() {
    match Model::new(3, Err("cannot open lm/missing.arpa".to_string())) {
        Err(KenlmError::Load(message)) => assert_eq!(message, "cannot open lm/missing.arpa"),
        _ => panic!("expected a load error"),
    }
    match Model::new(3, Err(String::new())) {
        Err(KenlmError::Load(message)) => assert_eq!(message, "unknown KenLM error"),
        _ => panic!("expected a load error"),
    }
}

#[test]
fn special_indices_come_from_kenlm() {
    let model = test_model(4);
    assert_eq!(model.begin_sentence_index(), 1);
    assert_eq!(model.end_sentence_index(), 2);
    assert_eq!(model.not_found_index(), 0);
    assert_eq!(model.order(), 5);
    assert!(model.is_unknown(0));
    assert!(!model.is_unknown(LOOKING));
}

#[test]
fn contains_passes_lookup_errors_on() {
    let model = test_model(5);
    let lookup = c_string_bytes("lo\0oking").map(|_| 0);
    let result = model.contains(lookup);
    assert!(matches!(result, Err(KenlmError::InteriorNul(e)) if e.nul_position() == 2));
}

#[test]
fn initial_states_follow_bos() {
    let model = test_model(6);
    assert_eq!(model.initial_state(true), model.begin_sentence_state());
    assert_eq!(model.initial_state(false), model.null_context_state());
    assert_eq!(model.initial_state(true).bytes(), &[1, 0, 0, 0, 1, 0, 0, 0]);
    assert_eq!(model.initial_state(false).bytes(), &[0; STATE_SIZE]);
    assert_ne!(model.begin_sentence_state(), model.null_context_state());
}

#[test]
fn empty_state_is_zeroed_and_sized() {
    let model = test_model(7);
    let state = model.empty_state();
    assert_eq!(state.bytes(), &[0; STATE_SIZE]);
    assert!(model.validate_state(&state).is_ok());
}

#[test]
fn states_of_equal_bytes_differ_across_models() {
    let first = test_model(8);
    let second = test_model(9);
    let a = first.null_context_state();
    let b = second.null_context_state();
    assert_eq!(a.bytes(), b.bytes());
    assert_ne!(a, b);
    assert!(!a.same_as(&b));
    assert!(a.same_as(&a.clone()));
    assert_eq!(a.clone(), a);
}

#[test]
fn wrongly_sized_state_is_refused() {
    let small = Model::new(
        10,
        Ok(ModelFacts {
            state_size: 2,
            order: 3,
            begin_sentence_index: 1,
            end_sentence_index: 2,
            not_found_index: 0,
            begin_sentence_context: vec![1, 1],
            null_context: vec![0, 0],
        }),
    )
    .unwrap();
    let large = Model::new(10, Ok(test_facts())).unwrap();
    let state: State = large.begin_sentence_state();
    assert!(matches!(small.validate_state(&state), Err(KenlmError::StateModelMismatch)));
}

/// Run a walk the way the scoring functions do, with KenLM's transitions
/// replaced by writing the scored index into the first byte of the state.
fn walk_sentence(model: &Model, indices: &[WordIndex], bos: bool, eos: bool) -> Vec<(WordIndex, bool)> {
    let mut walk = SentenceWalk::start(model, indices.len(), bos, eos);
    let mut scored = Vec::new();
    loop {
        let index = match walk.step(model) {
            WalkStep::Word(position) => indices[position],
            WalkStep::End(index) => index,
            WalkStep::Finished => break,
        };
        assert!(model.check_transition(walk.current(), walk.next()).is_ok());
        let mut written = walk.next().bytes().to_vec();
        written[0] = index as u8;
        let oov = walk.record(model, index, written);
        assert_eq!(walk.current().bytes()[0], index as u8);
        scored.push((index, oov));
    }
    scored
}

#[test]
fn walk_scores_every_word_then_end_of_sentence() {
    let model = test_model(11);
    let words = split_words("looking on a little");
    let indices = [LOOKING, 0, 12, 13];
    assert_eq!(words.len(), indices.len());
    let scored = walk_sentence(&model, &indices, true, true);
    assert_eq!(scored.len(), 5);
    assert_eq!(
        scored,
        vec![(LOOKING, false), (0, true), (12, false), (13, false), (2, false)]
    );
}

#[test]
fn walk_without_end_scores_only_words() {
    let model = test_model(12);
    assert_eq!(walk_sentence(&model, &[0, 0], false, false), vec![(0, true), (0, true)]);
    assert_eq!(walk_sentence(&model, &[], true, false), vec![]);
    assert_eq!(walk_sentence(&model, &[], true, true), vec![(2, false)]);
}

#[test]
fn walk_starts_from_context_chosen_by_bos() {
    let model = test_model(13);
    let with_bos = SentenceWalk::start(&model, 1, true, true);
    assert_eq!(with_bos.current(), &model.begin_sentence_state());
    assert_eq!(with_bos.next(), &model.empty_state());
    let without = SentenceWalk::start(&model, 1, false, true);
    assert_eq!(without.current(), &model.null_context_state());
    assert_eq!(without.step(&model), WalkStep::Word(0));
}

#[test]
fn walk_moves_written_state_to_current_and_old_current_to_next() {
    let model = test_model(14);
    let mut walk = SentenceWalk::start(&model, 1, true, true);
    let begin = walk.current().clone();
    walk.record(&model, LOOKING, vec![5; STATE_SIZE]);
    assert_eq!(walk.current().bytes(), &[5; STATE_SIZE]);
    assert_eq!(walk.next(), &begin);
    assert_eq!(walk.step(&model), WalkStep::End(2));
    assert!(!walk.record(&model, model.end_sentence_index(), vec![6; STATE_SIZE]));
    assert_eq!(walk.step(&model), WalkStep::Finished);
    assert!(model.validate_state(walk.current()).is_ok());
    assert!(model.validate_state(walk.next()).is_ok());
}
