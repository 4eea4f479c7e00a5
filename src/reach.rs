//! Which shapes need serialization (reachable from an operation's input) and
//! which need deserialization (reachable from an operation's output).

use vstd::prelude::*;
use crate::model::{Operation, Service, successors, successors_of};

verus! {

/// The input shape of an operation, or its output shape when `outputs` holds.
pub open spec fn root_of(op: Operation, outputs: bool) -> Option<usize> {
    if outputs {
        op.output
    } else {
        op.input
    }
}

/// Shape `x` is the input (or output) shape of some operation.
pub open spec fn is_root(s: &Service, outputs: bool, x: int) -> bool {
    exists|o: int|
        0 <= o < s.operations@.len() && (#[trigger] root_of(s.operations@[o], outputs)) is Some
            && root_of(s.operations@[o], outputs)->0 as int == x
}

/// Shape `x` is reached from a root in at most `k` references.
pub open spec fn reach_within(s: &Service, outputs: bool, x: int, k: nat) -> bool
    decreases k,
{
    if k == 0 {
        0 <= x < s.shapes@.len() && is_root(s, outputs, x)
    } else {
        reach_within(s, outputs, x, (k - 1) as nat) || exists|y: int|
            #[trigger] s.edge(y, x) && reach_within(s, outputs, y, (k - 1) as nat)
    }
}

/// Shape `x` is transitively referenced from an operation's input (or output).
pub open spec fn reachable(s: &Service, outputs: bool, x: int) -> bool {
    exists|k: nat| reach_within(s, outputs, x, k)
}

/// Shape `c` is waiting on the work stack.
spec fn on_stack(stack: Seq<usize>, c: int) -> bool {
    exists|t: int| 0 <= t < stack.len() && #[trigger] stack[t] as int == c
}

spec fn count_false(s: Seq<bool>) -> nat
    decreases s.len(),
{
    if s.len() == 0 {
        0
    } else {
        count_false(s.drop_last()) + if s.last() {
            0nat
        } else {
            1nat
        }
    }
}

proof fn lemma_count_false_set(s: Seq<bool>, i: int)
    requires
        0 <= i < s.len(),
        !s[i],
    ensures
        count_false(s.update(i, true)) + 1 == count_false(s),
    decreases s.len(),
{
    if i == s.len() - 1 {
        assert(s.update(i, true).drop_last() =~= s.drop_last());
    } else {
        lemma_count_false_set(s.drop_last(), i);
        assert(s.update(i, true).drop_last() =~= s.drop_last().update(i, true));
    }
}

proof fn lemma_edge_in_bounds(s: &Service, a: int, b: int)
    requires
        s.wf(),
        s.edge(a, b),
    ensures
        0 <= b < s.shapes@.len(),
{
    let succ = successors_of(s.shapes@[a].body);
    let j = choose|j: int| 0 <= j < succ.len() && #[trigger] succ[j] as int == b;
    assert(succ[j] < s.shapes@.len());
}

proof fn lemma_closed_holds_reachable(s: &Service, outputs: bool, marked: Seq<bool>, x: int, k: nat)
    requires
        s.wf(),
        marked.len() == s.shapes@.len(),
        forall|p: int|
            0 <= p < s.operations@.len() && (#[trigger] root_of(s.operations@[p], outputs)) is Some
                ==> marked[root_of(s.operations@[p], outputs)->0 as int],
        forall|a: int, b: int|
            0 <= a < marked.len() && 0 <= b < marked.len() && marked[a] && #[trigger] s.edge(a, b)
                ==> marked[b],
        reach_within(s, outputs, x, k),
    ensures
        0 <= x < marked.len(),
        marked[x],
    decreases k,
{
    if k == 0 {
        let p = choose|p: int|
            0 <= p < s.operations@.len() && (#[trigger] root_of(s.operations@[p], outputs)) is Some
                && root_of(s.operations@[p], outputs)->0 as int == x;
    } else if reach_within(s, outputs, x, (k - 1) as nat) {
        lemma_closed_holds_reachable(s, outputs, marked, x, (k - 1) as nat);
    } else {
        let y = choose|y: int| #[trigger] s.edge(y, x) && reach_within(s, outputs, y, (k - 1) as nat);
        lemma_closed_holds_reachable(s, outputs, marked, y, (k - 1) as nat);
        lemma_edge_in_bounds(s, y, x);
    }
}

/// Marks every shape reachable from an operation's input, or from its output
/// when `outputs` holds; the walk keeps a visited mark per shape, so it ends on
/// cyclic shape graphs.
pub fn reachable_shapes(service: &Service, outputs: bool) -> (r: Vec<bool>)
    requires
        service.wf(),
    ensures
        r@.len() == service.shapes@.len(),
        forall|x: int| 0 <= x < r@.len() ==> r@[x] == reachable(service, outputs, x),
{
    let n = service.shapes.len();
    let mut marked: Vec<bool> = Vec::new();
    while marked.len() < n
        invariant
            marked@.len() <= n,
            forall|i: int| 0 <= i < marked@.len() ==> !marked@[i],
        decreases n - marked@.len(),
    {
        marked.push(false);
    }
    let mut stack: Vec<usize> = Vec::new();
    let mut o: usize = 0;
    while o < service.operations.len()
        invariant
            service.wf(),
            n == service.shapes@.len(),
            marked@.len() == n,
            o <= service.operations@.len(),
            forall|t: int| 0 <= t < stack@.len() ==> stack@[t] < n && marked@[stack@[t] as int],
            forall|x: int| 0 <= x < n && marked@[x] ==> reachable(service, outputs, x),
            forall|p: int|
                0 <= p < o && (#[trigger] root_of(service.operations@[p], outputs)) is Some
                    ==> marked@[root_of(service.operations@[p], outputs)->0 as int],
            forall|a: int, b: int|
                0 <= a < n && 0 <= b < n && marked@[a] && !on_stack(stack@, a)
                    && #[trigger] service.edge(a, b) ==> marked@[b],
        decreases service.operations@.len() - o,
    {
        let op = &service.operations[o];
        let root = if outputs {
            op.output
        } else {
            op.input
        };
        assert(root == root_of(service.operations@[o as int], outputs));
        if let Some(x) = root {
            if !marked[x] {
                let ghost before = stack@;
                marked[x] = true;
                stack.push(x);
                proof {
                    assert(stack@[stack@.len() - 1] as int == x as int);
                    assert(reach_within(service, outputs, x as int, 0));
                    assert forall|c: int| #[trigger] on_stack(before, c) implies on_stack(stack@, c) by {
                        let t = choose|t: int| 0 <= t < before.len() && before[t] as int == c;
                        assert(stack@[t] as int == c);
                    }
                }
            }
        }
        o += 1;
    }
    while stack.len() > 0
        invariant
            service.wf(),
            n == service.shapes@.len(),
            marked@.len() == n,
            forall|t: int| 0 <= t < stack@.len() ==> stack@[t] < n && marked@[stack@[t] as int],
            forall|x: int| 0 <= x < n && marked@[x] ==> reachable(service, outputs, x),
            forall|p: int|
                0 <= p < service.operations@.len() && (#[trigger] root_of(
                    service.operations@[p],
                    outputs,
                )) is Some ==> marked@[root_of(service.operations@[p], outputs)->0 as int],
            forall|a: int, b: int|
                0 <= a < n && 0 <= b < n && marked@[a] && !on_stack(stack@, a)
                    && #[trigger] service.edge(a, b) ==> marked@[b],
        decreases 2 * count_false(marked@) + stack@.len(),
    {
        let ghost measure = 2 * count_false(marked@) + stack@.len();
        let ghost full = stack@;
        let a = stack.pop().unwrap();
        proof {
            assert(full =~= stack@.push(a));
            assert forall|c: int, b: int|
                0 <= c < n && 0 <= b < n && c != a && marked@[c] && !on_stack(stack@, c)
                    && #[trigger] service.edge(c, b) implies marked@[b] by {
                if on_stack(full, c) {
                    let t = choose|t: int| 0 <= t < full.len() && full[t] as int == c;
                    assert(stack@[t] as int == c);
                }
            }
        }
        let succ = successors(&service.shapes[a].body);
        let mut j: usize = 0;
        while j < succ.len()
            invariant
                service.wf(),
                n == service.shapes@.len(),
                marked@.len() == n,
                a < n,
                marked@[a as int],
                succ@ == successors_of(service.shapes@[a as int].body),
                j <= succ@.len(),
                forall|t: int| 0 <= t < j ==> marked@[succ@[t] as int],
                forall|t: int|
                    0 <= t < stack@.len() ==> stack@[t] < n && marked@[stack@[t] as int],
                forall|x: int| 0 <= x < n && marked@[x] ==> reachable(service, outputs, x),
                forall|p: int|
                    0 <= p < service.operations@.len() && (#[trigger] root_of(
                        service.operations@[p],
                        outputs,
                    )) is Some ==> marked@[root_of(service.operations@[p], outputs)->0 as int],
                forall|c: int, b: int|
                    0 <= c < n && 0 <= b < n && c != a && marked@[c] && !on_stack(stack@, c) && #[trigger] service.edge(c, b)
                        ==> marked@[b],
                2 * count_false(marked@) + stack@.len() < measure,
            decreases succ@.len() - j,
        {
            let b = succ[j];
            proof {
                assert(succ@[j as int] == b);
                assert(service.edge(a as int, b as int));
                lemma_edge_in_bounds(service, a as int, b as int);
            }
            if !marked[b] {
                let ghost before_marks = marked@;
                let ghost before = stack@;
                proof {
                    lemma_count_false_set(marked@, b as int);
                    let k = choose|k: nat| reach_within(service, outputs, a as int, k);
                    assert(reach_within(service, outputs, b as int, k + 1));
                }
                marked[b] = true;
                stack.push(b);
                proof {
                    assert(stack@[stack@.len() - 1] as int == b as int);
                    assert(marked@ == before_marks.update(b as int, true));
                    assert forall|c: int| #[trigger] on_stack(before, c) implies on_stack(stack@, c) by {
                        let t = choose|t: int| 0 <= t < before.len() && before[t] as int == c;
                        assert(stack@[t] as int == c);
                    }
                }
            }
            j += 1;
        }
        proof {
            assert forall|c: int, b: int|
                0 <= c < n && 0 <= b < n && marked@[c] && !on_stack(stack@, c)
                    && #[trigger] service.edge(c, b) implies marked@[b] by {
                if c == a {
                    let t = choose|t: int| 0 <= t < succ@.len() && #[trigger] succ@[t] as int == b;
                }
            }
        }
    }
    proof {
        assert forall|x: int| 0 <= x < n implies marked@[x] == reachable(service, outputs, x) by {
            if reachable(service, outputs, x) {
                let k = choose|k: nat| reach_within(service, outputs, x, k);
                lemma_closed_holds_reachable(service, outputs, marked@, x, k);
            }
        }
    }
    marked
}

/// The shapes that need serialization and those that need deserialization.
pub fn filter_types(service: &Service) -> (r: (Vec<bool>, Vec<bool>))
    requires
        service.wf(),
    ensures
        r.0@.len() == service.shapes@.len(),
        r.1@.len() == service.shapes@.len(),
        forall|x: int| 0 <= x < r.0@.len() ==> r.0@[x] == reachable(service, false, x),
        forall|x: int| 0 <= x < r.1@.len() ==> r.1@[x] == reachable(service, true, x),
{
    (reachable_shapes(service, false), reachable_shapes(service, true))
}

/// An operation's input (or output) shape needs serialization (or
/// deserialization), and so does every shape referenced from one that does;
/// a shape reached both from an input and from an output is in both sets.
pub proof fn lemma_reachable_closed(s: &Service, outputs: bool, o: int, a: int, b: int)
    requires
        s.wf(),
        0 <= o < s.operations@.len(),
    ensures
        root_of(s.operations@[o], outputs) is Some ==> reachable(
            s,
            outputs,
            root_of(s.operations@[o], outputs)->0 as int,
        ),
        reachable(s, outputs, a) && s.edge(a, b) ==> reachable(s, outputs, b),
{
    if root_of(s.operations@[o], outputs) is Some {
        let x = root_of(s.operations@[o], outputs)->0 as int;
        assert(reach_within(s, outputs, x, 0));
    }
    if reachable(s, outputs, a) && s.edge(a, b) {
        let k = choose|k: nat| reach_within(s, outputs, a, k);
        assert(reach_within(s, outputs, b, k + 1));
    }
}

} // verus!
