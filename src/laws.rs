//! Facts about sequences of store operations, stated over the relations that
//! the operations' contracts use.
use vstd::prelude::*;
use crate::store::{has_zero_id, max_id, todos_map};
use crate::todo::{
    adds, lists, removes, state_wf, updates, StoreState, TodoView, UpdateTodoView, MAX_ID,
};

verus! {

/// One operation on a store together with what it returned.
pub enum Step {
    Add(Seq<char>, Option<TodoView>),
    Remove(u8, Option<TodoView>),
    Update(UpdateTodoView, Option<TodoView>),
}

/// `step` took the store from `before` to `after`.
pub open spec fn takes_step(before: StoreState, step: Step, after: StoreState) -> bool {
    match step {
        Step::Add(name, r) => adds(before, name, r, after),
        Step::Remove(id, r) => removes(before, id, r, after),
        Step::Update(u, r) => updates(before, u, r, after),
    }
}

/// `states[i + 1]` is what `steps[i]` made of `states[i]`.
pub open spec fn is_run(states: Seq<StoreState>, steps: Seq<Step>) -> bool {
    &&& states.len() == steps.len() + 1
    &&& forall|i: int|
        #![trigger steps[i]]
        0 <= i < steps.len() ==> takes_step(states[i], steps[i], states[i + 1])
}

/// A store that has issued nothing and holds nothing.
pub open spec fn empty_state() -> StoreState {
    StoreState { todos: Map::empty(), issued: 0 }
}

/// The number of `add` calls in `steps` that succeeded.
pub open spec fn successful_adds(steps: Seq<Step>) -> nat
    decreases steps.len(),
{
    if steps.len() == 0 {
        0
    } else {
        successful_adds(steps.drop_last()) + match steps.last() {
            Step::Add(_, Some(_)) => 1nat,
            _ => 0nat,
        }
    }
}

proof fn lemma_issued_counts_adds(states: Seq<StoreState>, steps: Seq<Step>, i: int)
    requires
        is_run(states, steps),
        states[0] == empty_state(),
        0 <= i <= steps.len(),
    ensures
        states[i].issued == successful_adds(steps.take(i)),
    decreases i,
{
    if i == 0 {
        assert(steps.take(0).len() == 0);
    } else {
        lemma_issued_counts_adds(states, steps, i - 1);
        assert(steps.take(i).drop_last() =~= steps.take(i - 1));
        assert(steps.take(i).last() == steps[i - 1]);
        assert(takes_step(states[i - 1], steps[i - 1], states[i]));
    }
}

/// Starting from an empty store, whatever removals and updates come between,
/// the k-th `add` that succeeds returns identifier k: the identifiers handed
/// out are 1, 2, 3, ... in order, and the counter is the number of them.
pub proof fn lemma_add_ids_count_up(states: Seq<StoreState>, steps: Seq<Step>)
    requires
        is_run(states, steps),
        states[0] == empty_state(),
    ensures
        states.last().issued == successful_adds(steps),
        forall|i: int|
            #![trigger steps[i]]
            0 <= i < steps.len() ==> (steps[i] matches Step::Add(_, Some(t)) ==> t.id
                == successful_adds(steps.take(i)) + 1),
{
    lemma_issued_counts_adds(states, steps, steps.len() as int);
    assert(steps.take(steps.len() as int) =~= steps);
    assert forall|i: int|
        #![trigger steps[i]]
        0 <= i < steps.len() implies (steps[i] matches Step::Add(_, Some(t)) ==> t.id
            == successful_adds(steps.take(i)) + 1) by {
        lemma_issued_counts_adds(states, steps, i);
        assert(takes_step(states[i], steps[i], states[i + 1]));
    }
}

/// Starting from an empty store, once `MAX_ID` calls of `add` have succeeded,
/// whatever removals came between, the next `add` fails and changes nothing.
pub proof fn lemma_exhausted_after_max_adds(
    states: Seq<StoreState>,
    steps: Seq<Step>,
    name: Seq<char>,
    r: Option<TodoView>,
    after: StoreState,
)
    requires
        is_run(states, steps),
        states[0] == empty_state(),
        successful_adds(steps) == MAX_ID,
        adds(states.last(), name, r, after),
    ensures
        r is None,
        after == states.last(),
{
    lemma_add_ids_count_up(states, steps);
}

/// Removing an identifier that is not there returns nothing and changes
/// nothing; removing the same identifier twice, the second call returns
/// nothing and changes nothing.
pub proof fn lemma_remove_absent_idempotent(
    s0: StoreState,
    id: u8,
    r1: Option<TodoView>,
    s1: StoreState,
    r2: Option<TodoView>,
    s2: StoreState,
)
    requires
        removes(s0, id, r1, s1),
        removes(s1, id, r2, s2),
    ensures
        !s0.todos.contains_key(id) ==> r1 is None && s1 == s0,
        r2 is None,
        s2 == s1,
{
    assert(s1.todos.remove(id) =~= s1.todos);
    if !s0.todos.contains_key(id) {
        assert(s0.todos.remove(id) =~= s0.todos);
    }
}

/// Updating an identifier that is not there fails and changes nothing.
pub proof fn lemma_update_missing(s0: StoreState, u: UpdateTodoView, r: Option<TodoView>, s1: StoreState)
    requires
        updates(s0, u, r, s1),
        !s0.todos.contains_key(u.id),
    ensures
        r is None,
        s1 == s0,
{
}

/// An update keeps each field that it does not supply, and sets each one it
/// does.
pub proof fn lemma_update_keeps_unsupplied(
    s0: StoreState,
    u: UpdateTodoView,
    r: Option<TodoView>,
    s1: StoreState,
)
    requires
        state_wf(s0),
        updates(s0, u, r, s1),
        s0.todos.contains_key(u.id),
    ensures
        r is Some,
        s1.todos[u.id] == r->0,
        r->0.id == u.id,
        u.name is None ==> r->0.name == s0.todos[u.id].name,
        u.status is None ==> r->0.status == s0.todos[u.id].status,
        u.name matches Some(n) ==> r->0.name == n,
        u.status matches Some(st) ==> r->0.status == st,
{
}

proof fn lemma_todos_map_of_distinct(s: Seq<TodoView>)
    requires
        forall|i: int, j: int| 0 <= i < j < s.len() ==> s[i].id != s[j].id,
    ensures
        forall|k: u8| #[trigger]
            todos_map(s).contains_key(k) <==> exists|i: int| 0 <= i < s.len() && s[i].id == k,
        forall|i: int| 0 <= i < s.len() ==> #[trigger] todos_map(s)[s[i].id] == s[i],
    decreases s.len(),
{
    if s.len() > 0 {
        let p = s.drop_last();
        lemma_todos_map_of_distinct(p);
        assert forall|k: u8| #[trigger]
            todos_map(s).contains_key(k) implies exists|i: int| 0 <= i < s.len() && s[i].id == k by {
            if k == s.last().id {
                assert(s[s.len() - 1].id == k);
            } else {
                assert(todos_map(p).contains_key(k));
                let i = choose|i: int| 0 <= i < p.len() && p[i].id == k;
                assert(s[i] == p[i]);
            }
        }
        assert forall|k: u8|
            (exists|i: int| 0 <= i < s.len() && s[i].id == k) implies #[trigger] todos_map(
            s,
        ).contains_key(k) by {
            let i = choose|i: int| 0 <= i < s.len() && s[i].id == k;
            if i < p.len() {
                assert(p[i] == s[i]);
                assert(todos_map(p).contains_key(k));
            }
        }
        assert forall|i: int| 0 <= i < s.len() implies #[trigger] todos_map(s)[s[i].id] == s[i] by {
            if i < p.len() {
                assert(p[i] == s[i]);
                assert(todos_map(p)[p[i].id] == p[i]);
            }
        }
    }
}

proof fn lemma_max_id_bounds(s: Seq<TodoView>)
    ensures
        forall|i: int| 0 <= i < s.len() ==> #[trigger] s[i].id <= max_id(s),
        s.len() == 0 ==> max_id(s) == 0,
        s.len() > 0 ==> exists|i: int| 0 <= i < s.len() && s[i].id == max_id(s),
    decreases s.len(),
{
    if s.len() > 0 {
        let p = s.drop_last();
        lemma_max_id_bounds(p);
        assert forall|i: int| 0 <= i < s.len() implies #[trigger] s[i].id <= max_id(s) by {
            if i < p.len() {
                assert(p[i] == s[i]);
            }
        }
        if s.last().id as nat <= max_id(p) && p.len() > 0 {
            let i = choose|i: int| 0 <= i < p.len() && p[i].id == max_id(p);
            assert(s[i] == p[i]);
        }
        if p.len() == 0 {
            assert(s[0] == s.last());
        }
    }
}

/// Saving then loading gives back the same records: what `get_all` lists,
/// read back by `load`, rebuilds exactly the map the store held (no record
/// has identifier 0, so the load succeeds), and the allocator resumes after
/// the largest identifier present, or at 0 when there is none.
pub proof fn lemma_save_load_round_trip(st: StoreState, listed: Seq<TodoView>)
    requires
        state_wf(st),
        lists(listed, st.todos),
    ensures
        !has_zero_id(listed),
        todos_map(listed) == st.todos,
        max_id(listed) <= st.issued,
        forall|k: u8| #[trigger] st.todos.contains_key(k) ==> k <= max_id(listed),
        listed.len() == 0 ==> max_id(listed) == 0,
        listed.len() > 0 ==> st.todos.contains_key(max_id(listed) as u8),
{
    lemma_todos_map_of_distinct(listed);
    lemma_max_id_bounds(listed);
    assert(!has_zero_id(listed)) by {
        assert forall|i: int| 0 <= i < listed.len() implies #[trigger] listed[i].id != 0 by {
            assert(st.todos.contains_key(listed[i].id));
        }
    }
    assert(todos_map(listed) =~= st.todos) by {
        assert forall|k: u8| #[trigger] todos_map(listed).contains_key(k) == st.todos.contains_key(k) by {
            if st.todos.contains_key(k) {
                let i = choose|i: int| 0 <= i < listed.len() && listed[i].id == k;
            }
            if todos_map(listed).contains_key(k) {
                let i = choose|i: int| 0 <= i < listed.len() && listed[i].id == k;
                assert(st.todos.contains_key(listed[i].id));
            }
        }
        assert forall|k: u8| #[trigger] todos_map(listed).contains_key(k) implies todos_map(listed)[k]
            == st.todos[k] by {
            let i = choose|i: int| 0 <= i < listed.len() && listed[i].id == k;
            assert(todos_map(listed)[listed[i].id] == listed[i]);
            assert(st.todos.contains_key(listed[i].id));
        }
    }
    assert forall|k: u8| #[trigger] st.todos.contains_key(k) implies k <= max_id(listed) by {
        let i = choose|i: int| 0 <= i < listed.len() && listed[i].id == k;
        assert(listed[i].id <= max_id(listed));
    }
    if listed.len() > 0 {
        let i = choose|i: int| 0 <= i < listed.len() && listed[i].id == max_id(listed);
        assert(st.todos.contains_key(listed[i].id));
    }
}

} // verus!
