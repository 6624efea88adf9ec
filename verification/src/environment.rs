//! The environment: the variables of a running program, in nested scopes.

use crate::value::{Error, ErrorView, Value, ValueView};
use vstd::hash_map::StringHashMap;
use vstd::prelude::*;

verus! {

/// One scope: the values of the names declared in it.
pub type Scope = Map<Seq<char>, ValueView>;

/// The scopes of an environment, the global scope first and the innermost
/// scope last. There is always at least the global scope.
pub type Memory = Seq<Scope>;

/// The memory of a new environment: the global scope, with nothing in it.
pub open spec fn initial() -> Memory {
    seq![Map::empty()]
}

/// The memory with a new innermost scope.
pub open spec fn pushed(memory: Memory) -> Memory {
    memory.push(Map::empty())
}

/// The memory without its innermost scope. The global scope stays.
pub open spec fn popped(memory: Memory) -> Memory {
    if memory.len() > 1 {
        memory.drop_last()
    } else {
        memory
    }
}

/// The memory after `name` was declared in the innermost scope.
pub open spec fn declared(memory: Memory, name: Seq<char>, value: ValueView) -> Memory {
    memory.update(memory.len() - 1, memory.last().insert(name, value))
}

/// The innermost of the first `below` scopes that holds `name`, or -1 where
/// none of them does.
pub open spec fn holder(memory: Memory, name: Seq<char>, below: int) -> int
    decreases below,
{
    if below <= 0 {
        -1
    } else if memory[below - 1].contains_key(name) {
        below - 1
    } else {
        holder(memory, name, below - 1)
    }
}

/// The value of `name`: the one in the innermost scope that holds the name.
pub open spec fn lookup(memory: Memory, name: Seq<char>) -> Option<ValueView> {
    let scope = holder(memory, name, memory.len() as int);
    if scope >= 0 {
        Some(memory[scope][name])
    } else {
        None
    }
}

/// The memory after `value` was assigned to `name` in the innermost scope
/// that holds the name, or `None` where no scope holds it.
pub open spec fn assigned(memory: Memory, name: Seq<char>, value: ValueView) -> Option<Memory> {
    let scope = holder(memory, name, memory.len() as int);
    if scope >= 0 {
        Some(memory.update(scope, memory[scope].insert(name, value)))
    } else {
        None
    }
}

/// The message for a name that no scope holds.
pub open spec fn undefined_variable(name: Seq<char>) -> Seq<char> {
    "Undefined variable '"@ + name + "'."@
}

/// The model of one scope of an environment.
pub open spec fn scope_view(scope: Map<Seq<char>, Value>) -> Scope {
    scope.map_values(|value: Value| value@)
}

pub proof fn lemma_holder_bounds(memory: Memory, name: Seq<char>, below: int)
    requires
        0 <= below <= memory.len(),
    ensures
        -1 <= holder(memory, name, below) < below,
        holder(memory, name, below) >= 0 ==> memory[holder(memory, name, below)].contains_key(
            name,
        ),
    decreases below,
{
    if below > 0 && !memory[below - 1].contains_key(name) {
        lemma_holder_bounds(memory, name, below - 1);
    }
}

fn undefined(name: &str) -> (error: Error)
    ensures
        error@ == ErrorView::Runtime(undefined_variable(name@)),
{
    let mut message = String::from_str("Undefined variable '");
    message.append(name);
    message.append("'.");
    Error::Runtime(message)
}

/// The variables of a running program.
pub struct Environment {
    globals: StringHashMap<Value>,
    /// The scopes inside the global scope, the innermost last.
    locals: Vec<StringHashMap<Value>>,
}

impl View for Environment {
    type V = Memory;

    closed spec fn view(&self) -> Memory {
        seq![scope_view(self.globals@)] + Seq::new(
            self.locals@.len(),
            |i: int| scope_view(self.locals@[i]@),
        )
    }
}

impl Environment {
    /// An environment with nothing but an empty global scope.
    pub fn new() -> (environment: Environment)
        ensures
            environment@ == initial(),
    {
        let environment = Environment { globals: StringHashMap::new(), locals: Vec::new() };
        proof {
            assert(scope_view(environment.globals@) =~= Map::empty());
            assert(environment@ =~= initial());
        }
        environment
    }

    /// The environment `enclosing` with a new innermost scope.
    pub fn new_with_enclosing(enclosing: Environment) -> (environment: Environment)
        ensures
            environment@ == pushed(enclosing@),
    {
        let mut environment = enclosing;
        environment.push_scope();
        environment
    }

    /// Every environment has its global scope.
    pub proof fn lemma_depth(&self)
        ensures
            self@.len() >= 1,
    {
    }

    /// Opens a new innermost scope.
    pub fn push_scope(&mut self)
        ensures
            final(self)@ == pushed(old(self)@),
    {
        let scope: StringHashMap<Value> = StringHashMap::new();
        proof {
            assert(scope_view(scope@) =~= Map::empty());
        }
        self.locals.push(scope);
        proof {
            assert(self@ =~= pushed(old(self)@));
        }
    }

    /// Closes the innermost scope and forgets what was declared in it. The
    /// global scope is never closed.
    pub fn pop_scope(&mut self)
        ensures
            final(self)@ == popped(old(self)@),
    {
        let _ = self.locals.pop();
        proof {
            assert(self@ =~= popped(old(self)@));
        }
    }

    /// Declares `name` in the innermost scope, with `value`. A name that the
    /// scope holds already gets the new value.
    pub fn declare(&mut self, name: String, value: Value)
        ensures
            final(self)@ == declared(old(self)@, name@, value@),
    {
        let count = self.locals.len();
        if count == 0 {
            let ghost before = self.globals@;
            self.globals.insert(name, value);
            proof {
                assert(scope_view(self.globals@) =~= scope_view(before).insert(name@, value@));
                assert(self@ =~= declared(old(self)@, name@, value@));
            }
        } else {
            let ghost before = self.locals@[count - 1]@;
            self.locals[count - 1].insert(name, value);
            proof {
                assert(scope_view(self.locals@[count - 1]@) =~= scope_view(before).insert(
                    name@,
                    value@,
                ));
                assert(self@ =~= declared(old(self)@, name@, value@));
            }
        }
    }

    /// Assigns `value` to `name` in the innermost scope that holds the name.
    /// Fails, and changes nothing, where no scope holds it.
    pub fn assign(&mut self, name: String, value: Value) -> (result: Result<(), Error>)
        ensures
            match assigned(old(self)@, name@, value@) {
                Some(memory) => result is Ok && final(self)@ == memory,
                None => result is Err && result->Err_0@ == ErrorView::Runtime(
                    undefined_variable(name@),
                ) && final(self)@ == old(self)@,
            },
    {
        let ghost memory = self@;
        let mut index: usize = self.locals.len();
        while index > 0
            invariant
                index <= self.locals@.len(),
                self@ == memory,
                self == old(self),
                holder(memory, name@, memory.len() as int) == holder(
                    memory,
                    name@,
                    index as int + 1,
                ),
            decreases index,
        {
            index -= 1;
            if self.locals[index].contains_key(name.as_str()) {
                let ghost before = self.locals@[index as int]@;
                self.locals[index].insert(name, value);
                proof {
                    assert(scope_view(self.locals@[index as int]@) =~= scope_view(before).insert(
                        name@,
                        value@,
                    ));
                    assert(self@ =~= memory.update(
                        index as int + 1,
                        memory[index as int + 1].insert(name@, value@),
                    ));
                }
                return Ok(());
            }
        }
        proof {
            assert(holder(memory, name@, 0) == -1);
            assert(memory[0] == scope_view(self.globals@));
        }
        if self.globals.contains_key(name.as_str()) {
            let ghost before = self.globals@;
            self.globals.insert(name, value);
            proof {
                assert(scope_view(self.globals@) =~= scope_view(before).insert(name@, value@));
                assert(self@ =~= memory.update(0, memory[0].insert(name@, value@)));
            }
            Ok(())
        } else {
            Err(undefined(name.as_str()))
        }
    }

    /// The value of `name` in the innermost scope that holds the name. Fails
    /// where no scope holds it.
    pub fn get(&self, name: &str) -> (result: Result<Value, Error>)
        ensures
            match lookup(self@, name@) {
                Some(value) => result is Ok && result->Ok_0@ == value,
                None => result is Err && result->Err_0@ == ErrorView::Runtime(
                    undefined_variable(name@),
                ),
            },
    {
        let ghost memory = self@;
        let mut index: usize = self.locals.len();
        while index > 0
            invariant
                index <= self.locals@.len(),
                memory == self@,
                holder(memory, name@, memory.len() as int) == holder(
                    memory,
                    name@,
                    index as int + 1,
                ),
            decreases index,
        {
            index -= 1;
            match self.locals[index].get(name) {
                Some(value) => {
                    return Ok(value.clone());
                },
                None => {},
            }
        }
        proof {
            assert(holder(memory, name@, 0) == -1);
            assert(memory[0] == scope_view(self.globals@));
        }
        match self.globals.get(name) {
            Some(value) => Ok(value.clone()),
            None => Err(undefined(name)),
        }
    }
}

impl Default for Environment {
    fn default() -> (environment: Environment)
        ensures
            environment@ == initial(),
    {
        Environment::new()
    }
}

/// A name declared in a nested scope hides the same name outside of it, and
/// closing the scope brings the outer value back as it was, whatever was
/// assigned to the inner name in between.
pub proof fn lemma_shadowing(
    memory: Memory,
    name: Seq<char>,
    inner: ValueView,
    reassigned: ValueView,
)
    requires
        memory.len() >= 1,
    ensures
        ({
            let nested = declared(pushed(memory), name, inner);
            &&& lookup(nested, name) == Some(inner)
            &&& assigned(nested, name, reassigned) is Some
            &&& lookup(assigned(nested, name, reassigned).unwrap(), name) == Some(reassigned)
            &&& popped(assigned(nested, name, reassigned).unwrap()) == memory
            &&& popped(nested) == memory
        }),
{
    let nested = declared(pushed(memory), name, inner);
    let top = memory.len() as int;
    assert(nested.len() == top + 1);
    assert(nested[top].contains_key(name));
    assert(holder(nested, name, top + 1) == top);
    let changed = assigned(nested, name, reassigned).unwrap();
    assert(changed[top].contains_key(name));
    assert(holder(changed, name, top + 1) == top);
    assert(popped(changed) =~= memory);
    assert(popped(nested) =~= memory);
}

/// A declaration in the innermost scope changes no other scope, and an
/// assignment changes the value of one name in one scope.
pub proof fn lemma_declare_then_lookup(memory: Memory, name: Seq<char>, value: ValueView)
    requires
        memory.len() >= 1,
    ensures
        lookup(declared(memory, name, value), name) == Some(value),
        declared(memory, name, value).len() == memory.len(),
        forall|i: int|
            0 <= i < memory.len() - 1 ==> #[trigger] declared(memory, name, value)[i] == memory[i],
{
    let after = declared(memory, name, value);
    assert(after[memory.len() - 1].contains_key(name));
}

} // verus!
