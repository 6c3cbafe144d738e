//! Loaded models and the scoring states that belong to them.
//!
//! A [`Model`] holds what stays fixed about a language model once KenLM has
//! loaded it: its order, its special vocabulary indices, the size of its
//! scoring states, and the two states that sentences start from. Every model
//! carries an identity token, and every [`State`] carries the token of the
//! model that made it. A model refuses every state whose token is not its own
//! (or whose size is not its state size) before KenLM would read it; giving
//! each loaded model a fresh token is the duty of the code that loads models.
//!
//! A [`SentenceWalk`] decides how a sentence is scored: it starts from the
//! beginning-of-sentence or the null context, makes one transition per word
//! from the state the previous transition wrote, and one more for `</s>` when
//! the sentence is to be ended.

use vstd::prelude::*;
use crate::error::{failure, failure_text, KenlmError};

verus! {

/// KenLM vocabulary index.
pub type WordIndex = u32;

/// What KenLM reports about a model it has just loaded.
#[derive(Debug)]
pub struct ModelFacts {
    /// Size in bytes of one scoring state of this model.
    pub state_size: usize,
    /// The n-gram order of the model.
    pub order: u8,
    /// Vocabulary index of `<s>`.
    pub begin_sentence_index: WordIndex,
    /// Vocabulary index of `</s>`.
    pub end_sentence_index: WordIndex,
    /// Vocabulary index given to out-of-vocabulary words.
    pub not_found_index: WordIndex,
    /// The state KenLM writes for the beginning-of-sentence context.
    pub begin_sentence_context: Vec<u8>,
    /// The state KenLM writes for the null context.
    pub null_context: Vec<u8>,
}

impl ModelFacts {
    /// Both context states have the size of a state of this model.
    pub open spec fn consistent(&self) -> bool {
        &&& self.begin_sentence_context@.len() == self.state_size
        &&& self.null_context@.len() == self.state_size
    }
}

/// The mathematical content of a model.
pub struct ModelView {
    pub token: u64,
    pub state_size: nat,
    pub order: u8,
    pub begin_sentence_index: WordIndex,
    pub end_sentence_index: WordIndex,
    pub not_found_index: WordIndex,
    pub begin_sentence_context: Seq<u8>,
    pub null_context: Seq<u8>,
}

/// The mathematical content of a scoring state: its owner's token and its bytes.
pub struct StateView {
    pub owner: u64,
    pub bytes: Seq<u8>,
}

/// A KenLM model, as far as the bindings decide things about it.
#[derive(Debug)]
pub struct Model {
    token: u64,
    facts: ModelFacts,
}

/// Opaque KenLM state memory used for incremental scoring.
#[derive(Debug)]
pub struct State {
    bytes: Vec<u8>,
    owner: u64,
}

impl View for Model {
    type V = ModelView;

    closed spec fn view(&self) -> ModelView {
        ModelView {
            token: self.token,
            state_size: self.facts.state_size as nat,
            order: self.facts.order,
            begin_sentence_index: self.facts.begin_sentence_index,
            end_sentence_index: self.facts.end_sentence_index,
            not_found_index: self.facts.not_found_index,
            begin_sentence_context: self.facts.begin_sentence_context@,
            null_context: self.facts.null_context@,
        }
    }
}

impl View for State {
    type V = StateView;

    closed spec fn view(&self) -> StateView {
        StateView { owner: self.owner, bytes: self.bytes@ }
    }
}

/// The model whose view is `m` may use the state whose view is `s`: the state
/// was made for it and has its size.
pub open spec fn accepts(m: ModelView, s: StateView) -> bool {
    &&& s.owner == m.token
    &&& s.bytes.len() == m.state_size
}

/// The view of a model built with `token` from `facts`.
pub open spec fn model_from(token: u64, facts: ModelFacts) -> ModelView {
    ModelView {
        token,
        state_size: facts.state_size as nat,
        order: facts.order,
        begin_sentence_index: facts.begin_sentence_index,
        end_sentence_index: facts.end_sentence_index,
        not_found_index: facts.not_found_index,
        begin_sentence_context: facts.begin_sentence_context@,
        null_context: facts.null_context@,
    }
}

/// A model made from what KenLM reported reports exactly that: its token, its
/// state size, its order, its special indices and its two context states.
pub proof fn lemma_model_reports_its_facts(token: u64, facts: ModelFacts)
    ensures
        model_from(token, facts).token == token,
        model_from(token, facts).state_size == facts.state_size,
        model_from(token, facts).order == facts.order,
        model_from(token, facts).begin_sentence_index == facts.begin_sentence_index,
        model_from(token, facts).end_sentence_index == facts.end_sentence_index,
        model_from(token, facts).not_found_index == facts.not_found_index,
        model_from(token, facts).begin_sentence_context == facts.begin_sentence_context@,
        model_from(token, facts).null_context == facts.null_context@,
{
}

impl Model {
    #[verifier::type_invariant]
    spec fn well_formed(self) -> bool {
        self.facts.consistent()
    }

    /// Make a model from what KenLM reported after loading it, or report the
    /// failure KenLM gave. `token` identifies this model among all loaded ones.
    pub fn new(token: u64, loaded: Result<ModelFacts, String>) -> (result: Result<Model, KenlmError>)
        requires
            loaded matches Ok(facts) ==> facts.consistent(),
        ensures
            loaded is Ok <==> result is Ok,
            loaded matches Ok(facts) ==> result matches Ok(m) && m@ == model_from(token, facts),
            loaded matches Ok(facts) ==> result matches Ok(m) && {
                &&& m@.token == token
                &&& m@.state_size == facts.state_size
                &&& m@.order == facts.order
                &&& m@.begin_sentence_index == facts.begin_sentence_index
                &&& m@.end_sentence_index == facts.end_sentence_index
                &&& m@.not_found_index == facts.not_found_index
                &&& m@.begin_sentence_context == facts.begin_sentence_context@
                &&& m@.null_context == facts.null_context@
            },
            loaded matches Err(message) ==> result matches Err(KenlmError::Load(text)) && text@
                == failure_text(message@),
    {
        match loaded {
            Ok(facts) => Ok(Model { token, facts }),
            Err(message) => Err(failure(message)),
        }
    }

    /// Return the n-gram order of the model.
    pub fn order(&self) -> (order: u8)
        ensures
            order == self@.order,
    {
        self.facts.order
    }

    /// Return the index for `<s>`.
    pub fn begin_sentence_index(&self) -> (index: WordIndex)
        ensures
            index == self@.begin_sentence_index,
    {
        self.facts.begin_sentence_index
    }

    /// Return the index for `</s>`.
    pub fn end_sentence_index(&self) -> (index: WordIndex)
        ensures
            index == self@.end_sentence_index,
    {
        self.facts.end_sentence_index
    }

    /// Return the vocabulary index used for out-of-vocabulary words.
    pub fn not_found_index(&self) -> (index: WordIndex)
        ensures
            index == self@.not_found_index,
    {
        self.facts.not_found_index
    }

    /// Whether `index` is the index KenLM gives to words outside the vocabulary.
    pub fn is_unknown(&self, index: WordIndex) -> (unknown: bool)
        ensures
            unknown == (index == self@.not_found_index),
    {
        index == self.facts.not_found_index
    }

    /// Whether the word whose lookup gave `index` exists in the model
    /// vocabulary; a failed lookup is passed on.
    pub fn contains(&self, index: Result<WordIndex, KenlmError>) -> (result: Result<bool, KenlmError>)
        ensures
            index is Ok <==> result is Ok,
            index matches Ok(i) ==> result == Ok::<bool, KenlmError>(i != self@.not_found_index),
            index matches Err(e) ==> result == Err::<bool, KenlmError>(e),
    {
        match index {
            Ok(i) => Ok(!self.is_unknown(i)),
            Err(e) => Err(e),
        }
    }

    /// Create a state initialized to beginning-of-sentence context.
    pub fn begin_sentence_state(&self) -> (state: State)
        ensures
            state@ == (StateView { owner: self@.token, bytes: self@.begin_sentence_context }),
            accepts(self@, state@),
    {
        proof {
            use_type_invariant(self);
        }
        State { bytes: self.facts.begin_sentence_context.clone(), owner: self.token }
    }

    /// Create a state initialized to null context.
    pub fn null_context_state(&self) -> (state: State)
        ensures
            state@ == (StateView { owner: self@.token, bytes: self@.null_context }),
            accepts(self@, state@),
    {
        proof {
            use_type_invariant(self);
        }
        State { bytes: self.facts.null_context.clone(), owner: self.token }
    }

    /// The state a sentence starts from: beginning of sentence with `bos`,
    /// null context without.
    pub fn initial_state(&self, bos: bool) -> (state: State)
        ensures
            state@ == (StateView {
                owner: self@.token,
                bytes: if bos {
                    self@.begin_sentence_context
                } else {
                    self@.null_context
                },
            }),
            accepts(self@, state@),
    {
        if bos {
            self.begin_sentence_state()
        } else {
            self.null_context_state()
        }
    }

    /// A zeroed state of this model, for KenLM to write into.
    pub fn empty_state(&self) -> (state: State)
        ensures
            state@.owner == self@.token,
            state@.bytes == Seq::new(self@.state_size, |i: int| 0u8),
            accepts(self@, state@),
    {
        let bytes = vec![0u8; self.facts.state_size];
        assert(bytes@ =~= Seq::new(self@.state_size, |i: int| 0u8));
        State { bytes, owner: self.token }
    }

    /// Refuse a state that another model made, or that has another size.
    pub fn validate_state(&self, state: &State) -> (result: Result<(), KenlmError>)
        ensures
            result is Ok <==> accepts(self@, state@),
            result matches Err(e) ==> e == KenlmError::StateModelMismatch,
    {
        if state.bytes.len() != self.facts.state_size || state.owner != self.token {
            return Err(KenlmError::StateModelMismatch);
        }
        Ok(())
    }

    /// Decide whether KenLM may be asked to score a word from `in_state`,
    /// writing the next state into `out_state`: both must belong to this model.
    pub fn check_transition(&self, in_state: &State, out_state: &State) -> (result: Result<(), KenlmError>)
        ensures
            result is Ok <==> accepts(self@, in_state@) && accepts(self@, out_state@),
            result matches Err(e) ==> e == KenlmError::StateModelMismatch,
    {
        self.validate_state(in_state)?;
        self.validate_state(out_state)?;
        Ok(())
    }
}

impl State {
    /// The bytes of this state, for KenLM to read.
    pub fn bytes(&self) -> (bytes: &[u8])
        ensures
            bytes@ == self@.bytes,
    {
        self.bytes.as_slice()
    }

    /// Replace the bytes of this state with those KenLM wrote for it; the
    /// state keeps its owner and its size.
    pub fn store(&mut self, bytes: Vec<u8>)
        requires
            bytes@.len() == old(self)@.bytes.len(),
        ensures
            final(self)@ == (StateView { owner: old(self)@.owner, bytes: bytes@ }),
    {
        self.bytes = bytes;
    }

    /// Whether `self` and `other` hold the same bytes for the same model.
    pub fn same_as(&self, other: &State) -> (same: bool)
        ensures
            same == (self@ == other@),
    {
        if self.owner != other.owner || self.bytes.len() != other.bytes.len() {
            return false;
        }
        let mut i: usize = 0;
        while i < self.bytes.len()
            invariant
                self.bytes@.len() == other.bytes@.len(),
                i <= self.bytes@.len(),
                forall|j: int| 0 <= j < i ==> self.bytes@[j] == other.bytes@[j],
            decreases self.bytes@.len() - i,
        {
            if self.bytes[i] != other.bytes[i] {
                return false;
            }
            i = i + 1;
        }
        assert(self.bytes@ =~= other.bytes@);
        true
    }
}

impl Clone for State {
    fn clone(&self) -> (copy: Self)
        ensures
            copy@ == self@,
    {
        State { bytes: self.bytes.clone(), owner: self.owner }
    }
}

impl PartialEq for State {
    fn eq(&self, other: &Self) -> (same: bool) {
        self.same_as(other)
    }
}

impl vstd::std_specs::cmp::PartialEqSpecImpl for State {
    open spec fn obeys_eq_spec() -> bool {
        true
    }

    open spec fn eq_spec(&self, other: &Self) -> bool {
        self@ == other@
    }
}

impl Eq for State {

}

/// A state made by one model is refused by every model with another token.
pub proof fn lemma_foreign_state_refused(maker: ModelView, other: ModelView, s: StateView)
    requires
        s.owner == maker.token,
        other.token != maker.token,
    ensures
        !accepts(other, s),
{
}

/// KenLM writing a state's bytes keeps the state usable by the model that may use it.
pub proof fn lemma_store_keeps_acceptance(m: ModelView, before: StateView, bytes: Seq<u8>)
    requires
        accepts(m, before),
        bytes.len() == before.bytes.len(),
    ensures
        accepts(m, StateView { owner: before.owner, bytes }),
{
}

} // verus!

verus! {

/// The next thing a sentence walk asks for.
#[derive(Debug, PartialEq, Eq, Structural)]
pub enum WalkStep {
    /// Score the word at this position of the sentence.
    Word(usize),
    /// Score `</s>`, whose vocabulary index this is.
    End(WordIndex),
    /// Every token has been scored.
    Finished,
}

/// One transition of a sentence walk: the vocabulary index KenLM scored, the
/// state it scored from, the state it wrote, and whether the token was a word
/// outside the vocabulary.
pub struct TransitionView {
    pub index: WordIndex,
    pub from: StateView,
    pub to: StateView,
    pub oov: bool,
}

/// The scoring of one sentence, token by token.
pub struct SentenceWalk {
    current: State,
    next: State,
    done: usize,
    words: usize,
    end_owed: bool,
    model: Ghost<ModelView>,
    eos: Ghost<bool>,
    first: Ghost<StateView>,
    log: Ghost<Seq<TransitionView>>,
}

/// The mathematical content of a sentence walk.
pub struct WalkView {
    /// The state the next transition starts from.
    pub current: StateView,
    /// The state the next transition writes into.
    pub next: StateView,
    /// How many words have been scored.
    pub done: nat,
    /// How many words the sentence has.
    pub words: nat,
    /// Whether `</s>` is still to be scored.
    pub end_owed: bool,
    /// The model the walk scores with.
    pub model: ModelView,
    /// Whether the sentence is ended by `</s>`.
    pub eos: bool,
    /// The state the walk started from.
    pub first: StateView,
    /// Every transition made so far, in order.
    pub log: Seq<TransitionView>,
}

impl View for SentenceWalk {
    type V = WalkView;

    closed spec fn view(&self) -> WalkView {
        WalkView {
            current: self.current@,
            next: self.next@,
            done: self.done as nat,
            words: self.words as nat,
            end_owed: self.end_owed,
            model: self.model@,
            eos: self.eos@,
            first: self.first@,
            log: self.log@,
        }
    }
}

/// What a walk asks for next, with `end` the index of `</s>`.
pub open spec fn step_of(w: WalkView, end: WordIndex) -> WalkStep {
    if w.done < w.words {
        WalkStep::Word(w.done as usize)
    } else if w.end_owed {
        WalkStep::End(end)
    } else {
        WalkStep::Finished
    }
}

/// How many transitions a walk still has to make.
pub open spec fn tokens_left(w: WalkView) -> int {
    (w.words - w.done) + if w.end_owed {
        1int
    } else {
        0int
    }
}

/// One for a sentence ended by `</s>`, zero otherwise.
pub open spec fn end_tokens(eos: bool) -> nat {
    if eos {
        1nat
    } else {
        0nat
    }
}

/// The transitions of a walk form a run over its sentence: each word is
/// scored once, in order, then `</s>` once when the sentence is ended; every
/// transition starts from the state the one before wrote (the first from the
/// walk's first state); a transition is marked out of vocabulary exactly when
/// it scored a word whose index is the model's not-found index.
pub open spec fn run_so_far(w: WalkView) -> bool {
    &&& w.done <= w.words
    &&& w.end_owed ==> w.eos
    &&& w.eos && !w.end_owed ==> w.done == w.words
    &&& w.log.len() == w.done + end_tokens(w.eos && !w.end_owed)
    &&& w.current == if w.log.len() == 0 {
        w.first
    } else {
        w.log.last().to
    }
    &&& w.current.owner == w.first.owner
    &&& w.next.owner == w.first.owner
    &&& w.next.bytes.len() == w.current.bytes.len()
    &&& forall|i: int| 0 < i < w.log.len() ==> (#[trigger] w.log[i]).from == w.log[i - 1].to
    &&& w.log.len() > 0 ==> w.log[0].from == w.first
    &&& forall|i: int|
        0 <= i < w.log.len() ==> (#[trigger] w.log[i]).oov == (i < w.words && w.log[i].index
            == w.model.not_found_index)
    &&& forall|i: int|
        w.words <= i < w.log.len() ==> (#[trigger] w.log[i]).index
            == w.model.end_sentence_index
}

/// The counters of a walk after one more transition.
pub open spec fn advanced(w: WalkView) -> WalkView {
    if w.done < w.words {
        WalkView { done: w.done + 1, ..w }
    } else {
        WalkView { end_owed: false, ..w }
    }
}

/// The counters of a walk after `k` more transitions.
pub open spec fn advanced_by(w: WalkView, k: nat) -> WalkView
    decreases k,
{
    if k == 0 {
        w
    } else {
        advanced(advanced_by(w, (k - 1) as nat))
    }
}

impl SentenceWalk {
    #[verifier::type_invariant]
    spec fn well_formed(self) -> bool {
        &&& self.done <= self.words
        &&& run_so_far(self@)
    }

    /// Start scoring a sentence of `words` words with `model`: from the
    /// beginning-of-sentence context with `bos`, from the null context without;
    /// with `eos`, `</s>` is scored after the last word.
    pub fn start(model: &Model, words: usize, bos: bool, eos: bool) -> (w: SentenceWalk)
        ensures
            w@.current == (StateView {
                owner: model@.token,
                bytes: if bos {
                    model@.begin_sentence_context
                } else {
                    model@.null_context
                },
            }),
            w@.next == (StateView {
                owner: model@.token,
                bytes: Seq::new(model@.state_size, |i: int| 0u8),
            }),
            accepts(model@, w@.current),
            accepts(model@, w@.next),
            w@.done == 0,
            w@.words == words,
            w@.end_owed == eos,
            w@.model == model@,
            w@.eos == eos,
            w@.first == w@.current,
            w@.log.len() == 0,
            run_so_far(w@),
            tokens_left(w@) == words + end_tokens(eos),
    {
        let current = model.initial_state(bos);
        let next = model.empty_state();
        SentenceWalk {
            current,
            next,
            done: 0,
            words,
            end_owed: eos,
            model: Ghost(model@),
            eos: Ghost(eos),
            first: Ghost(current@),
            log: Ghost(Seq::empty()),
        }
    }

    /// The state the next transition starts from.
    pub fn current(&self) -> (state: &State)
        ensures
            state@ == self@.current,
    {
        &self.current
    }

    /// The state the next transition writes into.
    pub fn next(&self) -> (state: &State)
        ensures
            state@ == self@.next,
    {
        &self.next
    }

    /// What the walk asks for next.
    pub fn step(&self, model: &Model) -> (s: WalkStep)
        ensures
            s == step_of(self@, model@.end_sentence_index),
            s == WalkStep::Finished <==> tokens_left(self@) == 0,
            self@.done <= self@.words,
            run_so_far(self@),
            s matches WalkStep::Word(p) ==> p == self@.log.len() && p < self@.words,
            s matches WalkStep::End(e) ==> e == model@.end_sentence_index && self@.log.len()
                == self@.words && self@.eos,
    {
        proof {
            use_type_invariant(self);
        }
        if self.done < self.words {
            WalkStep::Word(self.done)
        } else if self.end_owed {
            WalkStep::End(model.end_sentence_index())
        } else {
            WalkStep::Finished
        }
    }

    /// Record the transition the walk asked for: KenLM scored `index` from
    /// the current state and wrote `written` as the next one, which becomes
    /// current. Tells whether the token was a word outside the vocabulary.
    pub fn record(&mut self, model: &Model, index: WordIndex, written: Vec<u8>) -> (oov: bool)
        requires
            tokens_left(old(self)@) > 0,
            model@ == old(self)@.model,
            old(self)@.done >= old(self)@.words ==> index == model@.end_sentence_index,
            written@.len() == old(self)@.current.bytes.len(),
        ensures
            final(self)@.current == (StateView { owner: old(self)@.current.owner, bytes: written@ }),
            final(self)@.next == old(self)@.current,
            final(self)@.done == advanced(old(self)@).done,
            final(self)@.words == old(self)@.words,
            final(self)@.end_owed == advanced(old(self)@).end_owed,
            final(self)@.model == old(self)@.model,
            final(self)@.eos == old(self)@.eos,
            final(self)@.first == old(self)@.first,
            final(self)@.log == old(self)@.log.push(
                TransitionView {
                    index,
                    from: old(self)@.current,
                    to: final(self)@.current,
                    oov,
                },
            ),
            tokens_left(final(self)@) == tokens_left(old(self)@) - 1,
            final(self)@.done <= final(self)@.words,
            run_so_far(final(self)@),
            oov == (old(self)@.done < old(self)@.words && index == model@.not_found_index),
            accepts(model@, old(self)@.current) ==> accepts(model@, final(self)@.current)
                && accepts(model@, final(self)@.next),
    {
        proof {
            use_type_invariant(&*self);
        }
        let owner = self.current.owner;
        let oov = if self.done < self.words {
            model.is_unknown(index)
        } else {
            false
        };
        let placeholder = State { bytes: Vec::new(), owner };
        let mut walk = SentenceWalk {
            current: placeholder.clone(),
            next: placeholder,
            done: 0,
            words: 0,
            end_owed: false,
            model: Ghost(self.model@),
            eos: Ghost(false),
            first: Ghost(StateView { owner, bytes: Seq::empty() }),
            log: Ghost(Seq::empty()),
        };
        std::mem::swap(self, &mut walk);
        proof {
            use_type_invariant(&walk);
        }
        let SentenceWalk { current, next: _, done, words, end_owed, model: walk_model, eos, first, log } =
            walk;
        let ghost from = current@;
        let ghost old_log = log@;
        let ghost n = old_log.len() as int;
        let fresh = State { bytes: written, owner };
        let ghost new_log = old_log.push(TransitionView { index, from, to: fresh@, oov });
        assert(forall|i: int| 0 <= i < n ==> new_log[i] == old_log[i]);
        let (done, end_owed) = if done < words {
            (done + 1, end_owed)
        } else {
            (done, false)
        };
        *self = SentenceWalk {
            current: fresh,
            next: current,
            done,
            words,
            end_owed,
            model: walk_model,
            eos,
            first,
            log: Ghost(new_log),
        };
        oov
    }
}

/// A finished walk has made one transition per word, then one for `</s>`
/// when the sentence was ended: the run of the whole sentence. Each of them
/// started from the state the one before wrote, the first from the walk's
/// first state, and exactly the words whose index is the not-found index were
/// marked out of vocabulary, `</s>` never.
pub proof fn lemma_finished_walk(w: WalkView)
    requires
        run_so_far(w),
        tokens_left(w) == 0,
    ensures
        w.log.len() == w.words + end_tokens(w.eos),
        forall|i: int| 0 < i < w.log.len() ==> (#[trigger] w.log[i]).from == w.log[i - 1].to,
        w.log.len() > 0 ==> w.log[0].from == w.first,
        w.current == if w.log.len() == 0 {
            w.first
        } else {
            w.log.last().to
        },
        forall|i: int|
            0 <= i < w.words ==> (#[trigger] w.log[i]).oov == (w.log[i].index
                == w.model.not_found_index),
        w.eos ==> w.log[w.words as int].index == w.model.end_sentence_index && !w.log[w.words as int].oov,
{
}

/// A walk makes exactly as many transitions as it has tokens left: after
/// fewer it still asks for one, after that many it is finished.
pub proof fn lemma_walk_length(w: WalkView, k: nat)
    requires
        w.done <= w.words,
        k <= tokens_left(w),
    ensures
        tokens_left(advanced_by(w, k)) == tokens_left(w) - k,
        advanced_by(w, k).done <= advanced_by(w, k).words,
        advanced_by(w, k).words == w.words,
        k <= w.words - w.done ==> advanced_by(w, k).done == w.done + k,
        k < tokens_left(w) ==> step_of(advanced_by(w, k), 0) != WalkStep::Finished,
        k == tokens_left(w) ==> step_of(advanced_by(w, k), 0) == WalkStep::Finished,
    decreases k,
{
    if k > 0 {
        lemma_walk_length(w, (k - 1) as nat);
    }
}

/// A sentence of `words` words is scored in exactly `words` transitions, plus
/// one for `</s>` when it is ended; after `k` transitions with `k < words`
/// the walk asks for the word at position `k`, and after all the words it
/// asks for `</s>` when the sentence is ended.
pub proof fn lemma_sentence_token_count(model: ModelView, w: WalkView, words: nat, eos: bool)
    requires
        w.done == 0,
        w.words == words,
        w.end_owed == eos,
    ensures
        forall|k: nat|
            k < words + (if eos {
                1nat
            } else {
                0nat
            }) ==> step_of(#[trigger] advanced_by(w, k), model.end_sentence_index)
                != WalkStep::Finished,
        step_of(
            advanced_by(
                w,
                words + (if eos {
                    1nat
                } else {
                    0nat
                }),
            ),
            model.end_sentence_index,
        ) == WalkStep::Finished,
        forall|k: nat|
            k < words ==> step_of(#[trigger] advanced_by(w, k), model.end_sentence_index)
                == WalkStep::Word(k as usize),
        eos ==> step_of(advanced_by(w, words), model.end_sentence_index) == WalkStep::End(
            model.end_sentence_index,
        ),
{
    assert forall|k: nat| k < words implies step_of(
        #[trigger] advanced_by(w, k),
        model.end_sentence_index,
    ) == WalkStep::Word(k as usize) by {
        lemma_walk_length(w, k);
    }
    lemma_walk_length(w, words);
    assert forall|k: nat|
        k < words + (if eos {
            1nat
        } else {
            0nat
        }) implies step_of(#[trigger] advanced_by(w, k), model.end_sentence_index)
        != WalkStep::Finished by {
        lemma_walk_length(w, k);
    }
    lemma_walk_length(
        w,
        words + (if eos {
            1nat
        } else {
            0nat
        }),
    );
}

} // verus!
