use vstd::prelude::*;
use vstd::string::*;
use crate::automaton::{find_last, DFA, DfaView};

verus! {

/// What a cell shows for a missing transition: a lambda.
pub open spec fn placeholder() -> Seq<char> {
    seq!['\u{3bb}']
}

/// The cell of the table for state `q` and symbol `sym`.
pub open spec fn cell(a: DfaView, q: Seq<char>, sym: Seq<char>) -> Seq<char> {
    match a.target(q, sym) {
        Some(t) => t,
        None => placeholder(),
    }
}

/// The pieces of `parts`, one after another.
pub open spec fn concat(parts: Seq<Seq<char>>) -> Seq<char>
    decreases parts.len(),
{
    if parts.len() == 0 {
        Seq::empty()
    } else {
        concat(parts.drop_last()) + parts.last()
    }
}

/// The header line: each symbol followed by a space.
pub open spec fn header_line(a: DfaView) -> Seq<char> {
    concat(a.alphabet.map_values(|sym: Seq<char>| sym + seq![' '])) + seq!['\n']
}

/// The line of state `q`: its name, a colon, then each cell between spaces.
pub open spec fn state_line(a: DfaView, q: Seq<char>) -> Seq<char> {
    q + seq![':'] + concat(a.alphabet.map_values(|sym: Seq<char>| seq![' '] + cell(a, q, sym) + seq![' ']))
        + seq!['\n']
}

/// The whole table: a delta line, the header line, and one line per state.
pub open spec fn table_text(a: DfaView) -> Seq<char> {
    seq!['\u{3b4}', '\n'] + header_line(a) + concat(a.states.map_values(|q: Seq<char>| state_line(a, q)))
}

/// The text of the placeholder cell.
fn placeholder_string() -> (r: String)
    ensures
        r@ == placeholder(),
{
    let r = String::from_str("\u{3bb}");
    proof {
        reveal_strlit("\u{3bb}");
    }
    assert(r@ =~= placeholder());
    r
}

/// The cell for state `q` and symbol `sym`.
fn cell_of(dfa: &DFA, q: &String, sym: &String) -> (r: String)
    ensures
        r@ == cell(dfa@, q@, sym@),
{
    match find_last(&dfa.func, q) {
        Some(i) => match find_last(&dfa.func[i].1, sym) {
            Some(j) => dfa.func[i].1[j].1.clone(),
            None => placeholder_string(),
        },
        None => placeholder_string(),
    }
}

/// The transition table as a grid: one row per state and one cell per symbol,
/// each the target state or the placeholder.
pub fn func_table(dfa: &DFA) -> (r: Vec<Vec<String>>)
    ensures
        r.len() == dfa.states.len(),
        forall|i: int| 0 <= i < r.len() ==> #[trigger] r[i].len() == dfa.alphabet.len(),
        forall|i: int, j: int|
            0 <= i < r.len() && 0 <= j < dfa.alphabet.len() ==> #[trigger] r[i][j]@ == cell(
                dfa@,
                dfa@.states[i],
                dfa@.alphabet[j],
            ),
{
    let mut rows: Vec<Vec<String>> = Vec::new();
    let mut i: usize = 0;
    while i < dfa.states.len()
        invariant
            i <= dfa.states.len(),
            rows.len() == i,
            forall|k: int| 0 <= k < i ==> #[trigger] rows[k].len() == dfa.alphabet.len(),
            forall|k: int, j: int|
                0 <= k < i && 0 <= j < dfa.alphabet.len() ==> #[trigger] rows[k][j]@ == cell(
                    dfa@,
                    dfa@.states[k],
                    dfa@.alphabet[j],
                ),
        decreases dfa.states.len() - i,
    {
        let mut row: Vec<String> = Vec::new();
        let mut j: usize = 0;
        while j < dfa.alphabet.len()
            invariant
                i < dfa.states.len(),
                j <= dfa.alphabet.len(),
                row.len() == j,
                forall|m: int| 0 <= m < j ==> #[trigger] row[m]@ == cell(
                    dfa@,
                    dfa@.states[i as int],
                    dfa@.alphabet[m],
                ),
            decreases dfa.alphabet.len() - j,
        {
            row.push(cell_of(dfa, &dfa.states[i], &dfa.alphabet[j]));
            j = j + 1;
        }
        rows.push(row);
        i = i + 1;
    }
    rows
}

/// The header line of the table.
fn header_text(dfa: &DFA) -> (r: String)
    ensures
        r@ == header_line(dfa@),
{
    let ghost parts = dfa@.alphabet.map_values(|sym: Seq<char>| sym + seq![' ']);
    let mut out = String::new();
    let mut j: usize = 0;
    while j < dfa.alphabet.len()
        invariant
            j <= dfa.alphabet.len(),
            parts == dfa@.alphabet.map_values(|sym: Seq<char>| sym + seq![' ']),
            out@ == concat(parts.take(j as int)),
        decreases dfa.alphabet.len() - j,
    {
        assert(parts.take(j + 1).drop_last() =~= parts.take(j as int));
        out.append(dfa.alphabet[j].as_str());
        out.append(" ");
        proof {
            reveal_strlit(" ");
        }
        assert(out@ =~= concat(parts.take(j + 1)));
        j = j + 1;
    }
    assert(parts.take(j as int) =~= parts);
    out.append("\n");
    proof {
        reveal_strlit("\n");
    }
    out
}

/// The line of state `q` in the table.
fn state_text(dfa: &DFA, q: &String) -> (r: String)
    ensures
        r@ == state_line(dfa@, q@),
{
    let ghost parts = dfa@.alphabet.map_values(
        |sym: Seq<char>| seq![' '] + cell(dfa@, q@, sym) + seq![' '],
    );
    let mut out = q.clone();
    out.append(":");
    proof {
        reveal_strlit(":");
    }
    let mut j: usize = 0;
    while j < dfa.alphabet.len()
        invariant
            j <= dfa.alphabet.len(),
            parts == dfa@.alphabet.map_values(
                |sym: Seq<char>| seq![' '] + cell(dfa@, q@, sym) + seq![' '],
            ),
            out@ == q@ + seq![':'] + concat(parts.take(j as int)),
        decreases dfa.alphabet.len() - j,
    {
        assert(parts.take(j + 1).drop_last() =~= parts.take(j as int));
        let c = cell_of(dfa, q, &dfa.alphabet[j]);
        assert(parts[j as int] == seq![' '] + c@ + seq![' ']);
        out.append(" ");
        out.append(c.as_str());
        out.append(" ");
        proof {
            reveal_strlit(" ");
        }
        assert(out@ =~= q@ + seq![':'] + concat(parts.take(j + 1)));
        j = j + 1;
    }
    assert(parts.take(j as int) =~= parts);
    out.append("\n");
    proof {
        reveal_strlit("\n");
    }
    out
}

/// The transition table as text: a delta line, a line of the symbols, and
/// one line per state with the target of each symbol or the placeholder.
pub fn render_table(dfa: &DFA) -> (r: String)
    ensures
        r@ == table_text(dfa@),
{
    let ghost parts = dfa@.states.map_values(|q: Seq<char>| state_line(dfa@, q));
    let mut out = String::from_str("\u{3b4}\n");
    proof {
        reveal_strlit("\u{3b4}\n");
    }
    let header = header_text(dfa);
    out.append(header.as_str());
    let ghost top = out@;
    assert(top =~= seq!['\u{3b4}', '\n'] + header_line(dfa@));
    let mut i: usize = 0;
    while i < dfa.states.len()
        invariant
            i <= dfa.states.len(),
            parts == dfa@.states.map_values(|q: Seq<char>| state_line(dfa@, q)),
            out@ == top + concat(parts.take(i as int)),
        decreases dfa.states.len() - i,
    {
        assert(parts.take(i + 1).drop_last() =~= parts.take(i as int));
        let line = state_text(dfa, &dfa.states[i]);
        out.append(line.as_str());
        assert(out@ =~= top + concat(parts.take(i + 1)));
        i = i + 1;
    }
    assert(parts.take(i as int) =~= parts);
    out
}

/// With every transition leading to a state, each cell of the table names a
/// state or is the placeholder.
pub proof fn lemma_cells_are_states(a: DfaView, q: Seq<char>, sym: Seq<char>)
    requires
        forall|p: Seq<char>, s: Seq<char>| #[trigger] a.target(p, s) is Some ==> a.states.contains(
            a.target(p, s)->0,
        ),
    ensures
        cell(a, q, sym) == placeholder() || a.states.contains(cell(a, q, sym)),
{
}

} // verus!
