use std::collections::HashMap;
use vstd::prelude::*;
use crate::todo::{
    apply_update, state_wf, views, StoreState, Todo, TodoStatus, TodoStore, TodoView,
    UpdateTodo, MAX_ID,
};

verus! {

broadcast use vstd::std_specs::hash::group_hash_axioms;

/// What can go wrong in the store and in its persistence.
#[derive(Debug)]
pub enum StoreHashmapError {
    /// Every identifier has been handed out.
    CounterError,
    /// No record has the identifier asked for.
    NotFound,
    /// The store file could not be opened.
    FileError,
    /// The records could not be encoded.
    SerializationError,
    /// Reading or writing the store file failed.
    IoError(std::io::Error),
    /// The store file does not hold a well-formed list of records.
    DeserializationError,
}

/// Relies on `std::io::Error` only as an opaque value carried in an error.
#[verifier::external_type_specification]
#[verifier::external_body]
pub struct ExIoError(std::io::Error);

/// The store: records in a hash map keyed by identifier, and the allocator.
#[derive(Debug)]
pub struct StoreHashmap {
    store: HashMap<u8, Todo>,
    counter: u8,
}

impl View for StoreHashmap {
    type V = StoreState;

    closed spec fn view(&self) -> StoreState {
        StoreState { todos: self.store@.map_values(|t: Todo| t@), issued: self.counter as nat }
    }
}

/// The map that inserting the records of `s` one after another gives; a
/// later record replaces an earlier one with the same identifier.
pub open spec fn todos_map(s: Seq<TodoView>) -> Map<u8, TodoView>
    decreases s.len(),
{
    if s.len() == 0 {
        Map::empty()
    } else {
        todos_map(s.drop_last()).insert(s.last().id, s.last())
    }
}

/// The largest identifier in `s`, or 0 when `s` is empty.
pub open spec fn max_id(s: Seq<TodoView>) -> nat
    decreases s.len(),
{
    if s.len() == 0 {
        0
    } else {
        let m = max_id(s.drop_last());
        if s.last().id as nat > m {
            s.last().id as nat
        } else {
            m
        }
    }
}

/// Some record of `s` has the identifier 0, which is never issued.
pub open spec fn has_zero_id(s: Seq<TodoView>) -> bool {
    exists|i: int| 0 <= i < s.len() && #[trigger] s[i].id == 0
}

impl StoreHashmap {
    /// An empty store; no identifier issued yet.
    pub fn new() -> (r: StoreHashmap)
        ensures
            state_wf(r@),
            r@ == (StoreState { todos: Map::empty(), issued: 0 }),
    {
        let r = StoreHashmap { store: HashMap::new(), counter: 0 };
        assert(r@.todos =~= Map::<u8, TodoView>::empty());
        r
    }

    /// Issues the next identifier, or fails once `MAX_ID` has been issued.
    pub fn get_counter(&mut self) -> (r: Result<u8, StoreHashmapError>)
        requires
            state_wf(old(self)@),
        ensures
            state_wf(final(self)@),
            final(self)@.todos == old(self)@.todos,
            r is Ok <==> old(self)@.issued < MAX_ID,
            match r {
                Ok(id) => id == old(self)@.issued + 1 && final(self)@.issued == id,
                Err(e) => e is CounterError && final(self)@.issued == old(self)@.issued,
            },
    {
        if self.counter == MAX_ID {
            return Err(StoreHashmapError::CounterError);
        }
        self.counter = self.counter + 1;
        Ok(self.counter)
    }

    /// The highest identifier issued so far.
    pub fn counter(&self) -> (r: u8)
        ensures
            r == self@.issued,
    {
        self.counter
    }

    /// Rebuilds a store from the records read back from the store file.
    ///
    /// A later record replaces an earlier one with the same identifier. The
    /// allocator resumes after the largest identifier read, and at 0 when
    /// there is none, as in a fresh store. A record with identifier 0, which
    /// is never issued, makes the file malformed.
    pub fn load(values: Vec<Todo>) -> (r: Result<StoreHashmap, StoreHashmapError>)
        ensures
            r is Err <==> has_zero_id(views(values@)),
            match r {
                Ok(st) => {
                    &&& state_wf(st@)
                    &&& st@ == (StoreState {
                        todos: todos_map(views(values@)),
                        issued: max_id(views(values@)),
                    })
                },
                Err(e) => e is DeserializationError,
            },
    {
        let ghost vs = views(values@);
        let mut store: HashMap<u8, Todo> = HashMap::new();
        let mut counter: u8 = 0;
        let mut i: usize = 0;
        while i < values.len()
            invariant
                i <= values@.len(),
                vs == views(values@),
                forall|j: int| 0 <= j < i ==> #[trigger] vs[j].id != 0,
                store@.map_values(|t: Todo| t@) == todos_map(vs.take(i as int)),
                counter as nat == max_id(vs.take(i as int)),
                forall|k: u8| #[trigger]
                    store@.contains_key(k) ==> store@[k].id == k && 1 <= k <= counter,
            decreases values@.len() - i,
        {
            let t = &values[i];
            if t.id == 0 {
                assert(vs[i as int].id == 0);
                return Err(StoreHashmapError::DeserializationError);
            }
            if t.id > counter {
                counter = t.id;
            }
            store.insert(t.id, t.duplicate());
            proof {
                assert(vs.take(i + 1).drop_last() =~= vs.take(i as int));
                assert(vs.take(i + 1).last() == t@);
                assert(store@.map_values(|t: Todo| t@) =~= todos_map(vs.take(i + 1)));
            }
            i = i + 1;
        }
        assert(vs.take(i as int) =~= vs);
        let r = StoreHashmap { store, counter };
        assert(r@.todos == todos_map(vs));
        Ok(r)
    }

    /// The store to start from: the one read back when reading and decoding
    /// the store file succeeded and the records are well formed, otherwise
    /// an empty one. Why reading failed is not kept.
    pub fn load_or_new(decoded: Result<Vec<Todo>, StoreHashmapError>) -> (r: StoreHashmap)
        ensures
            state_wf(r@),
            r@ == match decoded {
                Ok(v) => if has_zero_id(views(v@)) {
                    StoreState { todos: Map::empty(), issued: 0 }
                } else {
                    StoreState { todos: todos_map(views(v@)), issued: max_id(views(v@)) }
                },
                Err(_) => StoreState { todos: Map::empty(), issued: 0 },
            },
    {
        match decoded {
            Ok(v) => match StoreHashmap::load(v) {
                Ok(st) => st,
                Err(_) => StoreHashmap::new(),
            },
            Err(_) => StoreHashmap::new(),
        }
    }

    /// The number of records held.
    pub fn len(&self) -> (r: usize)
        ensures
            r == self@.todos.len(),
    {
        assert(self@.todos.dom() =~= self.store@.dom());
        self.store.len()
    }
}

impl TodoStore<StoreHashmapError> for StoreHashmap {
    open spec fn state(&self) -> StoreState {
        self@
    }

    open spec fn inv(&self) -> bool {
        state_wf(self@)
    }

    open spec fn is_exhausted(e: StoreHashmapError) -> bool {
        e is CounterError
    }

    open spec fn is_not_found(e: StoreHashmapError) -> bool {
        e is NotFound
    }

    fn add(&mut self, name: String) -> (r: Result<Todo, StoreHashmapError>) {
        let counter = match self.get_counter() {
            Ok(c) => c,
            Err(e) => {
                return Err(e);
            },
        };
        let todo = Todo { id: counter, name, status: TodoStatus::TODO };
        self.store.insert(counter, todo.duplicate());
        assert(self@.todos =~= old(self)@.todos.insert(todo.id, todo@));
        assert(self@ == (StoreState {
            todos: old(self)@.todos.insert(todo.id, todo@),
            issued: old(self)@.issued + 1,
        }));
        Ok(todo)
    }

    fn remove(&mut self, id: u8) -> (r: Option<Todo>) {
        let r = self.store.remove(&id);
        assert(self@.todos =~= old(self)@.todos.remove(id));
        assert(self@ == (StoreState {
            todos: old(self)@.todos.remove(id),
            issued: old(self)@.issued,
        }));
        r
    }

    fn update(&mut self, todo: UpdateTodo) -> (r: Result<Todo, StoreHashmapError>) {
        let ghost u = todo@;
        match self.get(todo.id) {
            Some(old_todo) => {
                let new_todo = Todo {
                    id: todo.id,
                    name: match todo.name {
                        Some(n) => n,
                        None => old_todo.name,
                    },
                    status: match todo.status {
                        Some(st) => st,
                        None => old_todo.status,
                    },
                };
                self.store.insert(todo.id, new_todo.duplicate());
                assert(new_todo@ == apply_update(old(self)@.todos[u.id], u));
                assert(self@.todos =~= old(self)@.todos.insert(u.id, new_todo@));
                assert(self@ == (StoreState {
                    todos: old(self)@.todos.insert(u.id, new_todo@),
                    issued: old(self)@.issued,
                }));
                Ok(new_todo)
            },
            None => Err(StoreHashmapError::NotFound),
        }
    }

    fn get(&self, id: u8) -> (r: Option<Todo>) {
        match self.store.get(&id) {
            Some(t) => Some(t.duplicate()),
            None => None,
        }
    }

    fn get_all(&self) -> (r: Vec<Todo>) {
        let mut out: Vec<Todo> = Vec::new();
        let mut id: u16 = 1;
        while id <= self.counter as u16
            invariant
                state_wf(self@),
                1 <= id <= self.counter as u16 + 1,
                forall|i: int, j: int| 0 <= i < j < out@.len() ==> out@[i].id < out@[j].id,
                forall|i: int|
                    #![trigger out@[i]]
                    0 <= i < out@.len() ==> out@[i].id < id && self@.todos.contains_key(out@[i].id)
                        && self@.todos[out@[i].id] == out@[i]@,
                forall|k: u8|
                    #[trigger] self@.todos.contains_key(k) && k < id ==> exists|i: int|
                        0 <= i < out@.len() && out@[i].id == k,
            decreases self.counter as u16 + 1 - id,
        {
            let ghost prev = out@;
            match self.store.get(&(id as u8)) {
                Some(t) => {
                    assert(self.store@.contains_key(id as u8) && self.store@[id as u8] == *t);
                    assert(self@.todos.contains_key(id as u8) && self@.todos[id as u8] == t@);
                    out.push(t.duplicate());
                    assert(out@[out@.len() - 1].id as u16 == id);
                    assert(out@[out@.len() - 1]@ == self@.todos[id as u8]);
                    assert(out@.len() == prev.len() + 1);
                },
                None => {
                    assert(out@ == prev);
                },
            }
            proof {
                assert forall|i: int| 0 <= i < prev.len() implies out@[i] == prev[i] by {}
                assert forall|i: int| 0 <= i < out@.len() implies out@[i].id < id + 1
                    && #[trigger] self@.todos.contains_key(out@[i].id) && self@.todos[out@[i].id]
                    == out@[i]@ by {
                    if i < prev.len() {
                        assert(out@[i] == prev[i]);
                        assert(prev[i].id < id);
                        assert(self@.todos.contains_key(prev[i].id));
                        assert(self@.todos[prev[i].id] == prev[i]@);
                    } else {
                        assert(i == prev.len());
                        assert(out@[i].id as u16 == id);
                        assert(self@.todos.contains_key(out@[i].id));
                        assert(self@.todos[out@[i].id] == out@[i]@);
                    }
                }
                assert forall|i: int, j: int| 0 <= i < j < out@.len() implies out@[i].id
                    < out@[j].id by {
                    if j < prev.len() {
                        assert(out@[i] == prev[i]);
                        assert(out@[j] == prev[j]);
                    } else {
                        assert(out@[i] == prev[i]);
                    }
                }
                assert forall|k: u8|
                    #[trigger] self@.todos.contains_key(k) && k < id + 1 implies exists|i: int|
                    0 <= i < out@.len() && out@[i].id == k by {
                    if k as u16 == id {
                        assert(out@[out@.len() - 1].id == k);
                    } else {
                        let i = choose|i: int| 0 <= i < prev.len() && prev[i].id == k;
                        assert(out@[i] == prev[i]);
                    }
                }
            }
            id = id + 1;
        }
        proof {
            let vs = views(out@);
            assert forall|k: u8| #[trigger] self@.todos.contains_key(k) implies exists|i: int|
                0 <= i < vs.len() && vs[i].id == k by {
                let i = choose|i: int| 0 <= i < out@.len() && out@[i].id == k;
                assert(vs[i].id == k);
            }
            assert forall|i: int| 0 <= i < vs.len() implies #[trigger] self@.todos.contains_key(
                vs[i].id,
            ) && self@.todos[vs[i].id] == vs[i] by {
                assert(vs[i] == out@[i]@);
            }
        }
        out
    }
}

} // verus!
