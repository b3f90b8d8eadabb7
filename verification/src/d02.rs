//! Day 2: the first opcode machine, with add, multiply and halt only.
use vstd::prelude::*;

verus! {

/// The result of the gravity-assist machine run from `st` at cursor `c`:
/// the final memory image, or nothing on any invalid access, invalid
/// opcode, or arithmetic past `usize` range.
pub open spec fn spec_run2(st: Seq<usize>, c: nat) -> Option<Seq<usize>>
    decreases st.len() - c,
    when c <= st.len()
{
    if c >= st.len() {
        None
    } else if st[c as int] == 99 {
        Some(st)
    } else if (st[c as int] == 1 || st[c as int] == 2) && c + 4 <= st.len() {
        let a = st[c as int + 1];
        let b = st[c as int + 2];
        let o = st[c as int + 3];
        if a < st.len() && b < st.len() && o < st.len() {
            let v = if st[c as int] == 1 {
                st[a as int] + st[b as int]
            } else {
                st[a as int] * st[b as int]
            };
            if v <= usize::MAX {
                spec_run2(st.update(o as int, v as usize), (c + 4) as nat)
            } else {
                None
            }
        } else {
            None
        }
    } else {
        None
    }
}

/// Run a copy of `initial` with its noun and verb cells replaced.
pub fn run_program(initial: &Vec<usize>, noun: usize, verb: usize) -> (r: Option<Vec<usize>>)
    requires
        initial@.len() >= 3,
        noun < initial@.len(),
        verb < initial@.len(),
    ensures
        match r {
            Some(out) => Some(out@) == spec_run2(initial@.update(1, noun).update(2, verb), 0)
                && out@.len() == initial@.len(),
            None => spec_run2(initial@.update(1, noun).update(2, verb), 0) is None,
        },
{
    let mut state = initial.clone();
    state.set(1, noun);
    state.set(2, verb);
    let ghost seed = initial@.update(1, noun).update(2, verb);
    proof {
        assert(state@ =~= seed);
    }
    let mut cursor: usize = 0;
    loop
        invariant
            cursor <= state@.len(),
            state@.len() == initial@.len(),
            seed == initial@.update(1, noun).update(2, verb),
            spec_run2(seed, 0) == spec_run2(state@, cursor as nat),
        decreases state@.len() - cursor,
    {
        if cursor >= state.len() {
            return None;
        }
        let op = state[cursor];
        if op == 99 {
            return Some(state);
        }
        if (op != 1 && op != 2) || state.len() - cursor < 4 {
            return None;
        }
        let a = state[cursor + 1];
        let b = state[cursor + 2];
        let o = state[cursor + 3];
        if a >= state.len() || b >= state.len() || o >= state.len() {
            return None;
        }
        let v = if op == 1 {
            state[a].checked_add(state[b])
        } else {
            state[a].checked_mul(state[b])
        };
        match v {
            Some(v) => {
                state.set(o, v);
                cursor = cursor + 4;
            },
            None => {
                return None;
            },
        }
    }
}

/// Part one: the value left in cell 0 after running with noun 12, verb 2.
pub fn d02a(initial: &Vec<usize>) -> (r: Option<usize>)
    requires
        initial@.len() >= 3,
        12 < initial@.len(),
    ensures
        match r {
            Some(v) => spec_run2(initial@.update(1, 12).update(2, 2), 0) matches Some(out) && v
                == out[0],
            None => spec_run2(initial@.update(1, 12).update(2, 2), 0) is None,
        },
{
    match run_program(initial, 12, 2) {
        Some(out) => Some(out[0]),
        None => None,
    }
}

/// The run with this noun and verb leaves the target in cell 0.
pub open spec fn d02_hits(cells: Seq<usize>, noun: int, verb: int, target: usize) -> bool {
    spec_run2(cells.update(1, noun as usize).update(2, verb as usize), 0) matches Some(out)
        && out[0] == target
}

/// Part two: the noun and verb, combined as `100 * noun + verb`, for which
/// the run leaves the target value in cell 0 — the first such pair in scan
/// order, verbs outermost.
pub fn d02b(initial: &Vec<usize>, target: usize) -> (r: Option<usize>)
    requires
        initial@.len() >= 100,
    ensures
        match r {
            Some(ans) => exists|noun: int, verb: int|
                0 <= noun < 100 && 0 <= verb < 100 && ans == 100 * noun + verb && #[trigger] d02_hits(
                    initial@,
                    noun,
                    verb,
                    target,
                ) && (forall|n2: int, v2: int|
                    0 <= n2 < 100 && 0 <= v2 < 100 && (v2 < verb || (v2 == verb && n2 < noun))
                        ==> !#[trigger] d02_hits(initial@, n2, v2, target)),
            None => forall|noun: int, verb: int|
                0 <= noun < 100 && 0 <= verb < 100 ==> !#[trigger] d02_hits(
                    initial@,
                    noun,
                    verb,
                    target,
                ),
        },
{
    let mut verb: usize = 0;
    while verb < 100
        invariant
            verb <= 100,
            initial@.len() >= 100,
            forall|n: int, v: int|
                0 <= n < 100 && 0 <= v < verb ==> !#[trigger] d02_hits(initial@, n, v, target),
        decreases 100 - verb,
    {
        let mut noun: usize = 0;
        while noun < 100
            invariant
                noun <= 100,
                verb < 100,
                initial@.len() >= 100,
                forall|n: int, v: int|
                    0 <= n < 100 && 0 <= v < verb ==> !#[trigger] d02_hits(initial@, n, v, target),
                forall|n: int|
                    0 <= n < noun ==> !#[trigger] d02_hits(initial@, n, verb as int, target),
            decreases 100 - noun,
        {
            match run_program(initial, noun, verb) {
                Some(out) => {
                    if out[0] == target {
                        let ans = 100 * noun + verb;
                        proof {
                            assert(d02_hits(initial@, noun as int, verb as int, target));
                        }
                        return Some(ans);
                    }
                },
                None => {},
            }
            noun = noun + 1;
        }
        verb = verb + 1;
    }
    None
}

} // verus!
