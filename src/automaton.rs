use vstd::prelude::*;
use vstd::string::*;

verus! {

/// A table of entries keyed by name, as the model sees it.
pub type Entries<V> = Seq<(Seq<char>, V)>;

/// What is stored under `key`: the value of the last entry with that key,
/// so that a later entry overrides an earlier one, as inserting the entries
/// into a map one by one would.
pub open spec fn lookup<V>(entries: Entries<V>, key: Seq<char>) -> Option<V>
    decreases entries.len(),
{
    if entries.len() == 0 {
        None
    } else if entries.last().0 == key {
        Some(entries.last().1)
    } else {
        lookup(entries.drop_last(), key)
    }
}

/// The mathematical model of an automaton: every name as a character sequence.
pub struct DfaView {
    pub states: Seq<Seq<char>>,
    pub alphabet: Seq<Seq<char>>,
    pub func: Entries<Entries<Seq<char>>>,
    pub start: Seq<char>,
    pub end: Seq<Seq<char>>,
}

impl DfaView {
    /// The target of the transition from `q` on the symbol `sym`, if there is one.
    pub open spec fn target(self, q: Seq<char>, sym: Seq<char>) -> Option<Seq<char>> {
        match lookup(self.func, q) {
            Some(row) => lookup(row, sym),
            None => None,
        }
    }

    /// The target of the transition from `q` on the character `c`, if there is one.
    pub open spec fn step(self, q: Seq<char>, c: char) -> Option<Seq<char>> {
        self.target(q, seq![c])
    }

    /// Every state and symbol has a transition, and every transition from a
    /// state leads to a state; the start is a state.
    pub open spec fn is_total(self) -> bool {
        &&& self.states.contains(self.start)
        &&& forall|q: Seq<char>, sym: Seq<char>|
            self.states.contains(q) && self.alphabet.contains(sym) ==> {
                &&& #[trigger] self.target(q, sym) is Some
                &&& self.states.contains(self.target(q, sym)->0)
            }
    }

    /// Whether `q` is one of the accepting states.
    pub open spec fn is_accepting(self, q: Seq<char>) -> bool {
        self.end.contains(q)
    }
}

/// A deterministic finite automaton.
///
/// `func` maps a state to its row of transitions, and a row maps a symbol to
/// the target state. A state or a symbol listed twice keeps its last entry.
/// The transition function need not be total: a missing entry stands for a
/// rejecting dead state.
#[derive(Clone, Debug)]
pub struct DFA {
    pub states: Vec<String>,
    pub alphabet: Vec<String>,
    pub func: Vec<(String, Vec<(String, String)>)>,
    pub start: String,
    pub end: Vec<String>,
}

impl View for DFA {
    type V = DfaView;

    open spec fn view(&self) -> DfaView {
        DfaView {
            states: self.states.deep_view(),
            alphabet: self.alphabet.deep_view(),
            func: self.func.deep_view(),
            start: self.start@,
            end: self.end.deep_view(),
        }
    }
}

/// Entries past `n` whose keys all differ from `key` do not change what
/// `key` looks up to.
pub(crate) proof fn lemma_lookup_take<V>(entries: Entries<V>, key: Seq<char>, n: int)
    requires
        0 <= n <= entries.len(),
        forall|j: int| n <= j < entries.len() ==> #[trigger] entries[j].0 != key,
    ensures
        lookup(entries, key) == lookup(entries.take(n), key),
    decreases entries.len() - n,
{
    if n < entries.len() {
        assert(entries.drop_last() =~= entries.take(entries.len() - 1));
        assert(entries.take(entries.len() - 1).take(n) =~= entries.take(n));
        lemma_lookup_take(entries.drop_last(), key, n);
    } else {
        assert(entries.take(n) =~= entries);
    }
}

/// The index of the entry that `key` looks up to.
pub(crate) fn find_last<V: DeepView>(entries: &Vec<(String, V)>, key: &String) -> (r: Option<usize>)
    ensures
        match r {
            Some(i) => i < entries.len() && lookup(entries.deep_view(), key@) == Some(
                entries@[i as int].1.deep_view(),
            ),
            None => lookup(entries.deep_view(), key@) is None,
        },
{
    let ghost dv = entries.deep_view();
    let mut i: usize = entries.len();
    while i > 0
        invariant
            i <= entries.len(),
            dv == entries.deep_view(),
            forall|j: int| i <= j < dv.len() ==> #[trigger] dv[j].0 != key@,
        decreases i,
    {
        i = i - 1;
        if entries[i].0 == *key {
            proof {
                lemma_lookup_take(dv, key@, i + 1);
                assert(dv.take(i + 1).drop_last() =~= dv.take(i as int));
            }
            return Some(i);
        }
    }
    proof {
        lemma_lookup_take(dv, key@, 0);
    }
    None
}

/// Whether `key` is the one-character symbol `c`.
fn is_symbol(key: &String, c: char) -> (r: bool)
    ensures
        r == (key@ == seq![c]),
{
    let k = key.as_str();
    if k.unicode_len() == 1 {
        let first = k.get_char(0);
        if first == c {
            assert(key@ =~= seq![c]);
            true
        } else {
            false
        }
    } else {
        false
    }
}

/// The index of the entry that the one-character symbol `c` looks up to.
pub(crate) fn find_symbol(row: &Vec<(String, String)>, c: char) -> (r: Option<usize>)
    ensures
        match r {
            Some(i) => i < row.len() && lookup(row.deep_view(), seq![c]) == Some(row@[i as int].1@),
            None => lookup(row.deep_view(), seq![c]) is None,
        },
{
    let ghost dv = row.deep_view();
    let ghost key = seq![c];
    let mut i: usize = row.len();
    while i > 0
        invariant
            i <= row.len(),
            dv == row.deep_view(),
            key == seq![c],
            forall|j: int| i <= j < dv.len() ==> #[trigger] dv[j].0 != key,
        decreases i,
    {
        i = i - 1;
        if is_symbol(&row[i].0, c) {
            proof {
                lemma_lookup_take(dv, key, i + 1);
                assert(dv.take(i + 1).drop_last() =~= dv.take(i as int));
            }
            return Some(i);
        }
    }
    proof {
        lemma_lookup_take(dv, key, 0);
    }
    None
}

impl DFA {
    /// Builds an automaton from its parts, unchanged.
    pub fn new(
        states: Vec<String>,
        alphabet: Vec<String>,
        func: Vec<(String, Vec<(String, String)>)>,
        start: String,
        end: Vec<String>,
    ) -> (r: DFA)
        ensures
            r.states == states,
            r.alphabet == alphabet,
            r.func == func,
            r.start == start,
            r.end == end,
    {
        DFA { states, alphabet, func, start, end }
    }

    /// The target of the transition from `q` on the symbol `c`, if there is one.
    pub fn step(&self, q: &String, c: char) -> (r: Option<String>)
        ensures
            match r {
                Some(t) => self@.step(q@, c) == Some(t@),
                None => self@.step(q@, c) is None,
            },
    {
        match find_last(&self.func, q) {
            Some(i) => match find_symbol(&self.func[i].1, c) {
                Some(j) => Some(self.func[i].1[j].1.clone()),
                None => None,
            },
            None => None,
        }
    }

    /// Whether `q` is one of the accepting states.
    pub fn is_accepting(&self, q: &String) -> (r: bool)
        ensures
            r == self@.is_accepting(q@),
    {
        let ghost dv = self.end.deep_view();
        let mut i: usize = 0;
        while i < self.end.len()
            invariant
                i <= self.end.len(),
                dv == self.end.deep_view(),
                forall|j: int| 0 <= j < i ==> #[trigger] dv[j] != q@,
            decreases self.end.len() - i,
        {
            if self.end[i] == *q {
                assert(dv[i as int] == q@);
                return true;
            }
            i = i + 1;
        }
        false
    }
}

} // verus!
