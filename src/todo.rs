use vstd::prelude::*;
use vstd::string::StringExecFns;
use crate::text::push_char;

verus! {

/// Whether a todo is still open or has been completed.
#[derive(Clone, Copy, Debug, PartialEq, Eq, Structural)]
pub enum TodoStatus {
    DONE,
    TODO,
}

/// One record of the list.
#[derive(Clone, Debug)]
pub struct Todo {
    pub id: u8,
    pub name: String,
    pub status: TodoStatus,
}

/// The mathematical value of a `Todo`.
pub struct TodoView {
    pub id: u8,
    pub name: Seq<char>,
    pub status: TodoStatus,
}

impl View for Todo {
    type V = TodoView;

    open spec fn view(&self) -> TodoView {
        TodoView { id: self.id, name: self.name@, status: self.status }
    }
}

impl Todo {
    /// A field-by-field copy, with its contents stated.
    pub fn duplicate(&self) -> (r: Todo)
        ensures
            r@ == self@,
    {
        Todo { id: self.id, name: self.name.clone(), status: self.status }
    }

    /// The line shown for a todo: `Id: 1, Name: milk, Status: TODO`.
    pub fn describe(&self) -> (r: String)
        ensures
            r@ == describe_spec(self@),
    {
        proof {
            reveal_strlit("Id: ");
            reveal_strlit(", Name: ");
            reveal_strlit(", Status: ");
        }
        let mut s = String::from_str("Id: ");
        s.append(u8_to_decimal(self.id).as_str());
        s.append(", Name: ");
        s.append(self.name.as_str());
        s.append(", Status: ");
        s.append(status_word(self.status));
        assert(s@ =~= describe_spec(self@));
        s
    }
}

impl PartialEq for Todo {
    fn eq(&self, o: &Todo) -> (r: bool) {
        self.id == o.id && self.name == o.name && self.status == o.status
    }
}

impl vstd::std_specs::cmp::PartialEqSpecImpl for Todo {
    open spec fn obeys_eq_spec() -> bool {
        true
    }

    open spec fn eq_spec(&self, o: &Todo) -> bool {
        self@ == o@
    }
}

/// The word for a status, as it is printed and stored.
pub open spec fn status_word_spec(s: TodoStatus) -> Seq<char> {
    match s {
        TodoStatus::DONE => seq!['D', 'O', 'N', 'E'],
        TodoStatus::TODO => seq!['T', 'O', 'D', 'O'],
    }
}

pub fn status_word(s: TodoStatus) -> (r: &'static str)
    ensures
        r@ == status_word_spec(s),
{
    match s {
        TodoStatus::DONE => {
            proof {
                reveal_strlit("DONE");
            }
            "DONE"
        },
        TodoStatus::TODO => {
            proof {
                reveal_strlit("TODO");
            }
            "TODO"
        },
    }
}

/// The decimal digits of `n`, most significant first, without leading zeros.
pub open spec fn decimal_spec(n: nat) -> Seq<char>
    decreases n,
{
    if n < 10 {
        seq![digit_char(n)]
    } else {
        decimal_spec(n / 10).push(digit_char(n % 10))
    }
}

pub open spec fn digit_char(d: nat) -> char {
    ((d + '0' as nat) as u32) as char
}

pub open spec fn describe_spec(t: TodoView) -> Seq<char> {
    seq!['I', 'd', ':', ' '] + decimal_spec(t.id as nat) + seq![',', ' ', 'N', 'a', 'm', 'e', ':', ' ']
        + t.name + seq![',', ' ', 'S', 't', 'a', 't', 'u', 's', ':', ' '] + status_word_spec(t.status)
}

/// Writes `n` in decimal.
pub fn u8_to_decimal(n: u8) -> (r: String)
    ensures
        r@ == decimal_spec(n as nat),
{
    proof {
        reveal_with_fuel(decimal_spec, 3);
    }
    let mut s = String::new();
    if n >= 100 {
        push_char(&mut s, char_of_digit(n / 100));
    }
    if n >= 10 {
        push_char(&mut s, char_of_digit((n / 10) % 10));
    }
    push_char(&mut s, char_of_digit(n % 10));
    proof {
        if n >= 100 {
            assert((n / 10) / 10 == n / 100);
        }
        assert(s@ =~= decimal_spec(n as nat));
    }
    s
}

fn char_of_digit(d: u8) -> (c: char)
    requires
        d < 10,
    ensures
        c == digit_char(d as nat),
{
    (d + 48) as char
}

/// A partial change: fields left `None` are kept as they were.
pub struct UpdateTodo {
    pub id: u8,
    pub name: Option<String>,
    pub status: Option<TodoStatus>,
}

/// The mathematical value of an `UpdateTodo`.
pub struct UpdateTodoView {
    pub id: u8,
    pub name: Option<Seq<char>>,
    pub status: Option<TodoStatus>,
}

impl View for UpdateTodo {
    type V = UpdateTodoView;

    open spec fn view(&self) -> UpdateTodoView {
        UpdateTodoView {
            id: self.id,
            name: match self.name {
                Some(n) => Some(n@),
                None => None,
            },
            status: self.status,
        }
    }
}

/// The highest identifier the allocator hands out; identifiers are one byte.
pub const MAX_ID: u8 = 255;

/// The record that `add` creates for identifier `id`.
pub open spec fn new_todo(id: nat, name: Seq<char>) -> TodoView {
    TodoView { id: id as u8, name, status: TodoStatus::TODO }
}

/// `t` with the fields that `u` supplies replaced.
pub open spec fn apply_update(t: TodoView, u: UpdateTodoView) -> TodoView {
    TodoView {
        id: t.id,
        name: match u.name {
            Some(n) => n,
            None => t.name,
        },
        status: match u.status {
            Some(st) => st,
            None => t.status,
        },
    }
}

/// The values of a sequence of todos.
pub open spec fn views(v: Seq<Todo>) -> Seq<TodoView> {
    v.map_values(|t: Todo| t@)
}

/// `s` holds each record of `m` exactly once, and nothing else.
pub open spec fn lists(s: Seq<TodoView>, m: Map<u8, TodoView>) -> bool {
    &&& forall|i: int, j: int| 0 <= i < j < s.len() ==> s[i].id != s[j].id
    &&& forall|i: int|
        0 <= i < s.len() ==> #[trigger] m.contains_key(s[i].id) && m[s[i].id] == s[i]
    &&& forall|k: u8| #[trigger]
        m.contains_key(k) ==> exists|i: int| 0 <= i < s.len() && s[i].id == k
}

/// What a store holds: its records by identifier, and the highest identifier
/// handed out so far (0 before the first), which never decreases.
pub struct StoreState {
    pub todos: Map<u8, TodoView>,
    pub issued: nat,
}

/// Each record sits under its own identifier, which lies in `1..=issued`,
/// and no more than `MAX_ID` identifiers have been issued.
pub open spec fn state_wf(st: StoreState) -> bool {
    &&& st.issued <= MAX_ID
    &&& forall|k: u8| #[trigger]
        st.todos.contains_key(k) ==> st.todos[k].id == k && 1 <= k <= st.issued
}

/// The record `id` of `st`, if there is one.
pub open spec fn lookup(st: StoreState, id: u8) -> Option<TodoView> {
    if st.todos.contains_key(id) {
        Some(st.todos[id])
    } else {
        None
    }
}

/// The store after a call of `add(name)` on `before`.
pub open spec fn state_after_add(before: StoreState, name: Seq<char>) -> StoreState {
    if before.issued < MAX_ID {
        let t = new_todo(before.issued + 1, name);
        StoreState { todos: before.todos.insert(t.id, t), issued: before.issued + 1 }
    } else {
        before
    }
}

/// `add(name)` took `before` to `after` and returned `r` (`None`: it failed).
pub open spec fn adds(
    before: StoreState,
    name: Seq<char>,
    r: Option<TodoView>,
    after: StoreState,
) -> bool {
    &&& after == state_after_add(before, name)
    &&& r == if before.issued < MAX_ID {
        Some(new_todo(before.issued + 1, name))
    } else {
        None
    }
}

/// `remove(id)` took `before` to `after` and returned `r`.
pub open spec fn removes(before: StoreState, id: u8, r: Option<TodoView>, after: StoreState) -> bool {
    &&& r == lookup(before, id)
    &&& after == StoreState { todos: before.todos.remove(id), issued: before.issued }
}

/// `update(u)` took `before` to `after` and returned `r` (`None`: it failed).
pub open spec fn updates(
    before: StoreState,
    u: UpdateTodoView,
    r: Option<TodoView>,
    after: StoreState,
) -> bool {
    if before.todos.contains_key(u.id) {
        let t = apply_update(before.todos[u.id], u);
        &&& r == Some(t)
        &&& after == StoreState { todos: before.todos.insert(u.id, t), issued: before.issued }
    } else {
        r is None && after == before
    }
}

/// The record an `Ok` result carries.
pub open spec fn ok_view<E>(r: Result<Todo, E>) -> Option<TodoView> {
    match r {
        Ok(t) => Some(t@),
        Err(_) => None,
    }
}

/// The record a `Some` result carries.
pub open spec fn some_view(r: Option<Todo>) -> Option<TodoView> {
    match r {
        Some(t) => Some(t@),
        None => None,
    }
}

/// A keyed collection of todos with an identifier allocator.
pub trait TodoStore<E>: Sized {
    spec fn state(&self) -> StoreState;

    spec fn inv(&self) -> bool;

    /// `e` says that no identifier is left.
    spec fn is_exhausted(e: E) -> bool;

    /// `e` says that the record asked for is not there.
    spec fn is_not_found(e: E) -> bool;

    /// Stores a new open todo under the next identifier and returns it; fails
    /// once `MAX_ID` identifiers have been issued.
    fn add(&mut self, name: String) -> (r: Result<Todo, E>)
        requires
            old(self).inv(),
        ensures
            final(self).inv(),
            adds(old(self).state(), name@, ok_view(r), final(self).state()),
            r matches Err(e) ==> Self::is_exhausted(e),
    ;

    /// Takes the record `id` out, if there is one.
    fn remove(&mut self, id: u8) -> (r: Option<Todo>)
        requires
            old(self).inv(),
        ensures
            final(self).inv(),
            removes(old(self).state(), id, some_view(r), final(self).state()),
    ;

    /// Replaces the fields that `todo` supplies in the record `todo.id`;
    /// fails when there is no such record.
    fn update(&mut self, todo: UpdateTodo) -> (r: Result<Todo, E>)
        requires
            old(self).inv(),
        ensures
            final(self).inv(),
            updates(old(self).state(), todo@, ok_view(r), final(self).state()),
            r matches Err(e) ==> Self::is_not_found(e),
    ;

    /// The record `id`, if there is one.
    fn get(&self, id: u8) -> (r: Option<Todo>)
        requires
            self.inv(),
        ensures
            some_view(r) == lookup(self.state(), id),
    ;

    /// Every record, each once, in no promised order.
    fn get_all(&self) -> (r: Vec<Todo>)
        requires
            self.inv(),
        ensures
            lists(views(r@), self.state().todos),
    ;
}

} // verus!
