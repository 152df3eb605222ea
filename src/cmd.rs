//! The command dispatcher: one input line becomes one store operation and a
//! reply for the front end to show.
use vstd::prelude::*;
use crate::parse::{
    id_of, lower_of, parse_id, parse_status, same_text, split_tokens, split_words, status_named,
    texts, upper_of, lowercase,
};
use crate::store::{StoreHashmap, StoreHashmapError};
use crate::todo::{
    adds, lists, lookup, ok_view, removes, some_view, state_after_add, state_wf, updates, views,
    StoreState, Todo, TodoStatus, TodoStore, TodoView, UpdateTodo, UpdateTodoView,
};

verus! {

/// The command words.
#[derive(Clone, Copy, Debug, PartialEq, Eq, Structural)]
pub enum Verb {
    Exit,
    Help,
    List,
    Get,
    Delete,
    Add,
    Rename,
    Mark,
    Unknown,
}

/// The verb that a lower-cased word names.
pub open spec fn verb_named(w: Seq<char>) -> Verb {
    if w == seq!['e', 'x', 'i', 't'] {
        Verb::Exit
    } else if w == seq!['h', 'e', 'l', 'p'] {
        Verb::Help
    } else if w == seq!['l', 'i', 's', 't'] {
        Verb::List
    } else if w == seq!['g', 'e', 't'] {
        Verb::Get
    } else if w == seq!['d', 'e', 'l', 'e', 't', 'e'] {
        Verb::Delete
    } else if w == seq!['a', 'd', 'd'] {
        Verb::Add
    } else if w == seq!['r', 'e', 'n', 'a', 'm', 'e'] {
        Verb::Rename
    } else if w == seq!['m', 'a', 'r', 'k'] {
        Verb::Mark
    } else {
        Verb::Unknown
    }
}

/// The verb that an already lower-cased word names.
pub fn classify(lower: &str) -> (r: Verb)
    ensures
        r == verb_named(lower@),
{
    proof {
        reveal_strlit("exit");
        reveal_strlit("help");
        reveal_strlit("list");
        reveal_strlit("get");
        reveal_strlit("delete");
        reveal_strlit("add");
        reveal_strlit("rename");
        reveal_strlit("mark");
        assert("exit"@ =~= seq!['e', 'x', 'i', 't']);
        assert("help"@ =~= seq!['h', 'e', 'l', 'p']);
        assert("list"@ =~= seq!['l', 'i', 's', 't']);
        assert("get"@ =~= seq!['g', 'e', 't']);
        assert("delete"@ =~= seq!['d', 'e', 'l', 'e', 't', 'e']);
        assert("add"@ =~= seq!['a', 'd', 'd']);
        assert("rename"@ =~= seq!['r', 'e', 'n', 'a', 'm', 'e']);
        assert("mark"@ =~= seq!['m', 'a', 'r', 'k']);
    }
    if same_text(lower, "exit") {
        Verb::Exit
    } else if same_text(lower, "help") {
        Verb::Help
    } else if same_text(lower, "list") {
        Verb::List
    } else if same_text(lower, "get") {
        Verb::Get
    } else if same_text(lower, "delete") {
        Verb::Delete
    } else if same_text(lower, "add") {
        Verb::Add
    } else if same_text(lower, "rename") {
        Verb::Rename
    } else if same_text(lower, "mark") {
        Verb::Mark
    } else {
        Verb::Unknown
    }
}

/// A command read from a line.
pub enum Command {
    Exit,
    Help,
    List,
    Get(u8),
    Delete(u8),
    Add(Vec<String>),
    Rename(u8, String),
    Mark(u8, TodoStatus),
}

/// The mathematical value of a `Command`.
pub enum CommandView {
    Exit,
    Help,
    List,
    Get(u8),
    Delete(u8),
    Add(Seq<Seq<char>>),
    Rename(u8, Seq<char>),
    Mark(u8, TodoStatus),
}

impl View for Command {
    type V = CommandView;

    open spec fn view(&self) -> CommandView {
        match self {
            Command::Exit => CommandView::Exit,
            Command::Help => CommandView::Help,
            Command::List => CommandView::List,
            Command::Get(id) => CommandView::Get(*id),
            Command::Delete(id) => CommandView::Delete(*id),
            Command::Add(names) => CommandView::Add(texts(names@)),
            Command::Rename(id, n) => CommandView::Rename(*id, n@),
            Command::Mark(id, st) => CommandView::Mark(*id, *st),
        }
    }
}

/// Why a line was not taken as a command.
#[derive(Clone, Copy, Debug, PartialEq, Eq, Structural)]
pub enum CommandError {
    /// The first word is no command.
    Unknown,
    /// The command got the wrong number of arguments.
    Usage(Verb),
    /// The identifier is not a number in `1..=255`.
    InvalidId,
    /// The status is neither `done` nor `todo`.
    InvalidStatus,
}

/// The identifier argument of `tokens`, for a command of `n` words.
pub open spec fn with_id(verb: Verb, tokens: Seq<Seq<char>>, n: nat) -> Result<u8, CommandError> {
    if tokens.len() != n {
        Err(CommandError::Usage(verb))
    } else {
        match id_of(tokens[1]) {
            Some(id) => Ok(id),
            None => Err(CommandError::InvalidId),
        }
    }
}

/// The command that the words `tokens` spell, given the verb of the first.
pub open spec fn command_of(verb: Verb, tokens: Seq<Seq<char>>) -> Result<CommandView, CommandError> {
    match verb {
        Verb::Exit => Ok(CommandView::Exit),
        Verb::Help => Ok(CommandView::Help),
        Verb::List => Ok(CommandView::List),
        Verb::Get => match with_id(verb, tokens, 2) {
            Ok(id) => Ok(CommandView::Get(id)),
            Err(e) => Err(e),
        },
        Verb::Delete => match with_id(verb, tokens, 2) {
            Ok(id) => Ok(CommandView::Delete(id)),
            Err(e) => Err(e),
        },
        Verb::Add => Ok(CommandView::Add(tokens.drop_first())),
        Verb::Rename => match with_id(verb, tokens, 3) {
            Ok(id) => Ok(CommandView::Rename(id, tokens[2])),
            Err(e) => Err(e),
        },
        Verb::Mark => match with_id(verb, tokens, 3) {
            Ok(id) => match status_named(upper_of(tokens[2])) {
                Some(st) => Ok(CommandView::Mark(id, st)),
                None => Err(CommandError::InvalidStatus),
            },
            Err(e) => Err(e),
        },
        Verb::Unknown => Err(CommandError::Unknown),
    }
}

/// The command on a line: its words are cut at runs of white space, and the
/// first one, in any case, names the command. A blank line names none.
pub open spec fn command_spec(line: Seq<char>) -> Result<CommandView, CommandError> {
    let tokens = split_words(line);
    if tokens.len() == 0 {
        Err(CommandError::Unknown)
    } else {
        command_of(verb_named(lower_of(tokens[0])), tokens)
    }
}

pub open spec fn parsed_view(r: Result<Command, CommandError>) -> Result<CommandView, CommandError> {
    match r {
        Ok(c) => Ok(c@),
        Err(e) => Err(e),
    }
}

fn id_arg(verb: Verb, tokens: &Vec<String>, n: usize) -> (r: Result<u8, CommandError>)
    requires
        n >= 2,
    ensures
        r == with_id(verb, texts(tokens@), n as nat),
{
    if tokens.len() != n {
        Err(CommandError::Usage(verb))
    } else {
        assert(texts(tokens@)[1] == tokens@[1]@);
        match parse_id(tokens[1].as_str()) {
            Some(id) => Ok(id),
            None => Err(CommandError::InvalidId),
        }
    }
}

/// Reads the arguments of a command whose verb is already known.
pub fn parse_args(verb: Verb, tokens: &Vec<String>) -> (r: Result<Command, CommandError>)
    requires
        tokens@.len() >= 1,
    ensures
        parsed_view(r) == command_of(verb, texts(tokens@)),
{
    match verb {
        Verb::Exit => Ok(Command::Exit),
        Verb::Help => Ok(Command::Help),
        Verb::List => Ok(Command::List),
        Verb::Get => match id_arg(verb, tokens, 2) {
            Ok(id) => Ok(Command::Get(id)),
            Err(e) => Err(e),
        },
        Verb::Delete => match id_arg(verb, tokens, 2) {
            Ok(id) => Ok(Command::Delete(id)),
            Err(e) => Err(e),
        },
        Verb::Add => {
            let mut names: Vec<String> = Vec::new();
            let mut i: usize = 1;
            while i < tokens.len()
                invariant
                    1 <= i <= tokens@.len(),
                    texts(names@) == texts(tokens@).subrange(1, i as int),
                decreases tokens@.len() - i,
            {
                let ghost prev = names@;
                let t = tokens[i].clone();
                assert(t@ == texts(tokens@)[i as int]);
                names.push(t);
                assert(names@ == prev.push(t));
                assert(texts(names@) =~= texts(prev).push(t@));
                assert(texts(tokens@).subrange(1, i + 1) =~= texts(tokens@).subrange(1, i as int).push(t@));
                i = i + 1;
                assert(texts(names@) =~= texts(tokens@).subrange(1, i as int));
            }
            assert(texts(tokens@).subrange(1, i as int) =~= texts(tokens@).drop_first());
            Ok(Command::Add(names))
        },
        Verb::Rename => match id_arg(verb, tokens, 3) {
            Ok(id) => Ok(Command::Rename(id, tokens[2].clone())),
            Err(e) => Err(e),
        },
        Verb::Mark => match id_arg(verb, tokens, 3) {
            Ok(id) => match parse_status(tokens[2].as_str()) {
                Some(st) => Ok(Command::Mark(id, st)),
                None => Err(CommandError::InvalidStatus),
            },
            Err(e) => Err(e),
        },
        Verb::Unknown => Err(CommandError::Unknown),
    }
}

/// Reads one command line.
pub fn parse_command(input: &str) -> (r: Result<Command, CommandError>)
    ensures
        parsed_view(r) == command_spec(input@),
{
    let tokens = split_tokens(input);
    if tokens.len() == 0 {
        return Err(CommandError::Unknown);
    }
    let verb = classify(lowercase(tokens[0].as_str()).as_str());
    parse_args(verb, &tokens)
}

/// What a command did, for the front end to show.
pub enum Reply {
    /// Save the store and leave.
    Exit,
    /// Show the command table.
    Help,
    /// Every record, in no promised order.
    List(Vec<Todo>),
    /// The record asked for, if there is one.
    Found(Option<Todo>),
    /// The record is gone, whether or not it was there.
    Deleted,
    /// What each `add` returned, one per name, in order.
    Added(Vec<Result<Todo, StoreHashmapError>>),
    /// What the update returned.
    Updated(Result<Todo, StoreHashmapError>),
    /// The line was not taken as a command; nothing changed.
    Rejected(CommandError),
}

/// The store after adding `names` one after another to `before`.
pub open spec fn after_adds(before: StoreState, names: Seq<Seq<char>>) -> StoreState
    decreases names.len(),
{
    if names.len() == 0 {
        before
    } else {
        state_after_add(after_adds(before, names.drop_last()), names.last())
    }
}

/// Each result is what `add` returned on the store as the names before it
/// left it.
pub open spec fn adds_each(
    before: StoreState,
    names: Seq<Seq<char>>,
    results: Seq<Option<TodoView>>,
) -> bool {
    &&& results.len() == names.len()
    &&& forall|i: int|
        #![trigger results[i]]
        0 <= i < names.len() ==> adds(
            after_adds(before, names.take(i)),
            names[i],
            results[i],
            after_adds(before, names.take(i + 1)),
        )
}

pub open spec fn add_views(rs: Seq<Result<Todo, StoreHashmapError>>) -> Seq<Option<TodoView>> {
    rs.map_values(|r: Result<Todo, StoreHashmapError>| ok_view(r))
}

/// Running `c` on `before` left `after` and replied `reply`.
pub open spec fn answers(before: StoreState, c: CommandView, reply: Reply, after: StoreState) -> bool {
    match c {
        CommandView::Exit => reply is Exit && after == before,
        CommandView::Help => reply is Help && after == before,
        CommandView::List => after == before && (reply matches Reply::List(v) && lists(
            views(v@),
            before.todos,
        )),
        CommandView::Get(id) => after == before && (reply matches Reply::Found(r) && some_view(r)
            == lookup(before, id)),
        CommandView::Delete(id) => reply is Deleted && removes(before, id, lookup(before, id), after),
        CommandView::Add(names) => reply matches Reply::Added(rs) && after == after_adds(
            before,
            names,
        ) && adds_each(before, names, add_views(rs@)) && (forall|i: int|
            0 <= i < rs@.len() ==> (#[trigger] rs@[i] matches Err(e) ==> e is CounterError)),
        CommandView::Rename(id, n) => reply matches Reply::Updated(r) && updates(
            before,
            UpdateTodoView { id, name: Some(n), status: None },
            ok_view(r),
            after,
        ) && (r matches Err(e) ==> e is NotFound),
        CommandView::Mark(id, st) => reply matches Reply::Updated(r) && updates(
            before,
            UpdateTodoView { id, name: None, status: Some(st) },
            ok_view(r),
            after,
        ) && (r matches Err(e) ==> e is NotFound),
    }
}

/// The dispatcher, owning the store it works on.
pub struct Cmd {
    db: StoreHashmap,
}

impl Cmd {
    pub closed spec fn state(&self) -> StoreState {
        self.db@
    }

    /// A dispatcher over `db`.
    pub fn new(db: StoreHashmap) -> (r: Cmd)
        requires
            state_wf(db@),
        ensures
            r.state() == db@,
    {
        Cmd { db }
    }

    /// The store, for saving it.
    pub fn db(&self) -> (r: &StoreHashmap)
        ensures
            r@ == self.state(),
    {
        &self.db
    }

    /// Reads `input` as a command and runs it.
    pub fn parse_commands(&mut self, input: &str) -> (r: Reply)
        requires
            state_wf(old(self).state()),
        ensures
            state_wf(final(self).state()),
            match command_spec(input@) {
                Ok(c) => answers(old(self).state(), c, r, final(self).state()),
                Err(e) => (r matches Reply::Rejected(x) && x == e) && final(self).state() == old(
                    self,
                ).state(),
            },
    {
        match parse_command(input) {
            Ok(c) => self.run(c),
            Err(e) => Reply::Rejected(e),
        }
    }

    /// Runs one command on the store.
    pub fn run(&mut self, c: Command) -> (r: Reply)
        requires
            state_wf(old(self).state()),
        ensures
            state_wf(final(self).state()),
            answers(old(self).state(), c@, r, final(self).state()),
    {
        match c {
            Command::Exit => Reply::Exit,
            Command::Help => Reply::Help,
            Command::List => Reply::List(self.db.get_all()),
            Command::Get(id) => Reply::Found(self.db.get(id)),
            Command::Delete(id) => {
                self.db.remove(id);
                Reply::Deleted
            },
            Command::Add(names) => Reply::Added(self.add(names)),
            Command::Rename(id, name) => Reply::Updated(self.rename(id, name)),
            Command::Mark(id, st) => Reply::Updated(self.mark_todo(id, st)),
        }
    }

    fn add(&mut self, input: Vec<String>) -> (r: Vec<Result<Todo, StoreHashmapError>>)
        requires
            state_wf(old(self).state()),
        ensures
            state_wf(final(self).state()),
            final(self).state() == after_adds(old(self).state(), texts(input@)),
            adds_each(old(self).state(), texts(input@), add_views(r@)),
            forall|i: int| 0 <= i < r@.len() ==> (#[trigger] r@[i] matches Err(e) ==> e is CounterError),
    {
        let ghost start = self.db@;
        let ghost names = texts(input@);
        let mut out: Vec<Result<Todo, StoreHashmapError>> = Vec::new();
        let mut i: usize = 0;
        assert(names.take(0) =~= Seq::<Seq<char>>::empty());
        while i < input.len()
            invariant
                i <= input@.len(),
                names == texts(input@),
                state_wf(self.db@),
                self.db@ == after_adds(start, names.take(i as int)),
                out@.len() == i,
                forall|j: int|
                    #![trigger add_views(out@)[j]]
                    0 <= j < i ==> adds(
                        after_adds(start, names.take(j)),
                        names[j],
                        add_views(out@)[j],
                        after_adds(start, names.take(j + 1)),
                    ),
                forall|j: int| 0 <= j < out@.len() ==> (#[trigger] out@[j] matches Err(e) ==> e is CounterError),
            decreases input@.len() - i,
        {
            let ghost prev = out@;
            let name = input[i].clone();
            assert(name@ == names[i as int]);
            let res = self.db.add(name);
            let ghost rv = ok_view(res);
            proof {
                assert(names.take(i + 1).drop_last() =~= names.take(i as int));
                assert(names.take(i + 1).last() == names[i as int]);
                assert(after_adds(start, names.take(i + 1)) == state_after_add(
                    after_adds(start, names.take(i as int)),
                    names[i as int],
                ));
            }
            out.push(res);
            assert(add_views(out@)[i as int] == rv);
            proof {
                assert forall|j: int| 0 <= j < i + 1 implies adds(
                    after_adds(start, names.take(j)),
                    names[j],
                    #[trigger] add_views(out@)[j],
                    after_adds(start, names.take(j + 1)),
                ) by {
                    if j < i {
                        assert(out@[j] == prev[j]);
                        assert(add_views(out@)[j] == add_views(prev)[j]);
                    }
                }
            }
            i = i + 1;
        }
        proof {
            assert(names.take(i as int) =~= names);
            let rv = add_views(out@);
            assert forall|j: int| 0 <= j < names.len() implies adds(
                after_adds(start, names.take(j)),
                names[j],
                #[trigger] rv[j],
                after_adds(start, names.take(j + 1)),
            ) by {}
        }
        out
    }

    fn rename(&mut self, id: u8, name: String) -> (r: Result<Todo, StoreHashmapError>)
        requires
            state_wf(old(self).state()),
        ensures
            state_wf(final(self).state()),
            updates(
                old(self).state(),
                UpdateTodoView { id, name: Some(name@), status: None },
                ok_view(r),
                final(self).state(),
            ),
            r matches Err(e) ==> e is NotFound,
    {
        self.db.update(UpdateTodo { id, name: Some(name), status: None })
    }

    fn mark_todo(&mut self, id: u8, status: TodoStatus) -> (r: Result<Todo, StoreHashmapError>)
        requires
            state_wf(old(self).state()),
        ensures
            state_wf(final(self).state()),
            updates(
                old(self).state(),
                UpdateTodoView { id, name: None, status: Some(status) },
                ok_view(r),
                final(self).state(),
            ),
            r matches Err(e) ==> e is NotFound,
    {
        self.db.update(UpdateTodo { id, name: None, status: Some(status) })
    }
}

} // verus!
