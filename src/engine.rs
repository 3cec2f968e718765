use vstd::prelude::*;
use vstd::string::*;
use crate::automaton::{DFA, DfaView};

verus! {

/// How a run of the automaton on a word ends, as the model sees it.
pub enum Run {
    /// Every character was consumed; the run ended in this state.
    Done(Seq<char>),
    /// The character at this position had no transition from this state.
    Stuck(int, Seq<char>),
}

/// The run of `a` on `w`: from the start state, one transition per character,
/// halting at the first character that has none.
pub open spec fn run(a: DfaView, w: Seq<char>) -> Run
    decreases w.len(),
{
    if w.len() == 0 {
        Run::Done(a.start)
    } else {
        match run(a, w.drop_last()) {
            Run::Done(q) => match a.step(q, w.last()) {
                Some(t) => Run::Done(t),
                None => Run::Stuck(w.len() - 1, q),
            },
            Run::Stuck(k, q) => Run::Stuck(k, q),
        }
    }
}

/// Whether `a` accepts `w`: the run consumes the whole word and ends in an
/// accepting state.
pub open spec fn accepts(a: DfaView, w: Seq<char>) -> bool {
    match run(a, w) {
        Run::Done(q) => a.is_accepting(q),
        Run::Stuck(_, _) => false,
    }
}

/// The result of evaluating a word.
#[derive(Clone, Debug, PartialEq, Eq)]
pub enum Evaluation {
    /// The whole word was consumed and the run ended in `state`.
    Finished { state: String, accepted: bool },
    /// `symbol`, at character `position` of the word, has no transition from `state`.
    Stuck { state: String, position: usize, symbol: char },
}

impl Evaluation {
    /// Whether this evaluation is the run `r` of `a` on `w`.
    pub open spec fn describes(&self, a: DfaView, w: Seq<char>, r: Run) -> bool {
        match (r, *self) {
            (Run::Done(q), Evaluation::Finished { state, accepted }) => state@ == q && accepted
                == a.is_accepting(q),
            (Run::Stuck(k, q), Evaluation::Stuck { state, position, symbol }) => state@ == q
                && position == k && symbol == w[k],
            _ => false,
        }
    }
}

/// Runs `dfa` on `word`, reporting where it stopped.
pub fn evaluate(word: &str, dfa: &DFA) -> (r: Evaluation)
    ensures
        r.describes(dfa@, word@, run(dfa@, word@)),
{
    let n = word.unicode_len();
    let mut current = dfa.start.clone();
    let mut i: usize = 0;
    while i < n
        invariant
            n == word@.len(),
            i <= n,
            run(dfa@, word@.take(i as int)) == Run::Done(current@),
        decreases n - i,
    {
        let c = word.get_char(i);
        assert(word@.take(i + 1).drop_last() =~= word@.take(i as int));
        match dfa.step(&current, c) {
            Some(t) => {
                current = t;
            },
            None => {
                proof {
                    assert(word@.take(i + 1).len() == i + 1);
                    lemma_run_stuck_extends(dfa@, word@.take(i + 1), word@.skip(i + 1));
                    assert(word@.take(i + 1) + word@.skip(i + 1) =~= word@);
                }
                return Evaluation::Stuck { state: current, position: i, symbol: c };
            },
        }
        i = i + 1;
    }
    assert(word@.take(n as int) =~= word@);
    let accepted = dfa.is_accepting(&current);
    Evaluation::Finished { state: current, accepted }
}

/// Whether `dfa` accepts `word`.
pub fn check_word(word: &str, dfa: &DFA) -> (r: bool)
    ensures
        r == accepts(dfa@, word@),
{
    match evaluate(word, dfa) {
        Evaluation::Finished { accepted, .. } => accepted,
        Evaluation::Stuck { .. } => false,
    }
}

/// Once a run is stuck, appending characters to the word leaves it stuck at
/// the same position and state, and the longer word is rejected too.
pub proof fn lemma_run_stuck_extends(a: DfaView, w: Seq<char>, s: Seq<char>)
    requires
        run(a, w) is Stuck,
    ensures
        run(a, w + s) == run(a, w),
        !accepts(a, w + s),
    decreases s.len(),
{
    if s.len() == 0 {
        assert(w + s =~= w);
    } else {
        lemma_run_stuck_extends(a, w, s.drop_last());
        assert((w + s).drop_last() =~= w + s.drop_last());
    }
}

/// The empty word is accepted exactly when the start state is accepting.
pub proof fn lemma_empty_word(a: DfaView)
    ensures
        accepts(a, Seq::empty()) == a.is_accepting(a.start),
{
}

/// Acceptance depends on the automaton and the word alone: any two results
/// that `check_word` may return for them are equal.
pub proof fn lemma_accepts_deterministic(a: DfaView, w: Seq<char>, r1: bool, r2: bool)
    requires
        r1 == accepts(a, w),
        r2 == accepts(a, w),
    ensures
        r1 == r2,
{
}

/// Whether every character of `w` is a symbol of the alphabet of `a`.
pub open spec fn over_alphabet(a: DfaView, w: Seq<char>) -> bool {
    forall|i: int| 0 <= i < w.len() ==> a.alphabet.contains(seq![#[trigger] w[i]])
}

/// On a total automaton a word over the alphabet is consumed whole: the run
/// never gets stuck, and it ends in a state.
pub proof fn lemma_total_runs_to_end(a: DfaView, w: Seq<char>)
    requires
        a.is_total(),
        over_alphabet(a, w),
    ensures
        run(a, w) is Done,
        a.states.contains(run(a, w)->Done_0),
    decreases w.len(),
{
    if w.len() > 0 {
        let p = w.drop_last();
        assert forall|i: int| 0 <= i < p.len() implies a.alphabet.contains(seq![#[trigger] p[i]]) by {
            assert(p[i] == w[i]);
        }
        lemma_total_runs_to_end(a, p);
        assert(a.alphabet.contains(seq![w[w.len() - 1]]));
        let q = run(a, p)->Done_0;
        assert(a.target(q, seq![w.last()]) is Some);
    }
}

} // verus!
