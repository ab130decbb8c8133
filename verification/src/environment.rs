use crate::builtin_functions::{Clock, Print, PrintEnv};
use crate::callable::Callable;
use crate::error::runtime_error::{RuntimeError, RuntimeErrorView};
use crate::object::{LoxObject, LoxObjectView};
use crate::token::{Token, TokenView};
use vstd::prelude::*;
use vstd::string::*;

verus! {

/// One variable of a scope.
#[derive(Debug)]
pub struct Binding<'a> {
    pub name: String,
    pub value: LoxObject<'a>,
}

/// Represents a single scope of Lox values: a mapping from names to values.
/// Among bindings of one name the first one counts; `define` never adds a
/// second.
#[derive(Debug)]
pub struct Scope<'a> {
    pub bindings: Vec<Binding<'a>>,
}

/// The index of the first binding of `name` at or after `from`.
pub open spec fn position<'a>(bindings: Seq<Binding<'a>>, name: Seq<char>, from: int) -> Option<
    int,
>
    decreases bindings.len() - from,
{
    if from < 0 || from >= bindings.len() {
        None
    } else if bindings[from].name@ == name {
        Some(from)
    } else {
        position(bindings, name, from + 1)
    }
}

/// The first binding of a name is a binding of that name.
pub proof fn lemma_position<'a>(bindings: Seq<Binding<'a>>, name: Seq<char>, from: int)
    requires
        0 <= from,
    ensures
        position(bindings, name, from) matches Some(i) ==> from <= i < bindings.len()
            && bindings[i].name@ == name,
        position(bindings, name, from) is None ==> forall|i: int|
            from <= i < bindings.len() ==> (#[trigger] bindings[i]).name@ != name,
    decreases bindings.len() - from,
{
    if from < bindings.len() && bindings[from].name@ != name {
        lemma_position(bindings, name, from + 1);
    }
}

/// Replacing the value of a binding moves no name.
proof fn lemma_position_after_update<'a>(
    bindings: Seq<Binding<'a>>,
    at: int,
    binding: Binding<'a>,
    name: Seq<char>,
    from: int,
)
    requires
        0 <= at < bindings.len(),
        binding.name@ == bindings[at].name@,
        0 <= from,
    ensures
        position(bindings.update(at, binding), name, from) == position(bindings, name, from),
    decreases bindings.len() - from,
{
    if from < bindings.len() && bindings[from].name@ != name {
        lemma_position_after_update(bindings, at, binding, name, from + 1);
    }
}

/// A new binding at the end is found for its name where none was found
/// before, and changes nothing for the names that were.
proof fn lemma_position_after_push<'a>(
    bindings: Seq<Binding<'a>>,
    binding: Binding<'a>,
    name: Seq<char>,
    from: int,
)
    requires
        0 <= from <= bindings.len(),
    ensures
        position(bindings.push(binding), name, from) == match position(bindings, name, from) {
            Some(i) => Some(i),
            None => if binding.name@ == name {
                Some(bindings.len() as int)
            } else {
                None
            },
        },
    decreases bindings.len() - from,
{
    if from < bindings.len() {
        if bindings[from].name@ != name {
            lemma_position_after_push(bindings, binding, name, from + 1);
        }
    } else {
        assert(position(bindings.push(binding), name, from + 1) is None);
    }
}

impl<'a> View for Scope<'a> {
    type V = Map<Seq<char>, LoxObjectView<'a>>;

    open spec fn view(&self) -> Map<Seq<char>, LoxObjectView<'a>> {
        Map::new(
            |name: Seq<char>| position(self.bindings@, name, 0) is Some,
            |name: Seq<char>| self.bindings@[position(self.bindings@, name, 0)->0].value@,
        )
    }
}

impl<'a> Scope<'a> {
    /// Creates a new scope, with no variable.
    pub fn new() -> (scope: Self)
        ensures
            scope@ == Map::<Seq<char>, LoxObjectView<'a>>::empty(),
    {
        let scope = Scope { bindings: Vec::new() };
        assert(scope@ =~= Map::<Seq<char>, LoxObjectView<'a>>::empty());
        scope
    }

    /// The index of the binding of `name`.
    fn find(&self, name: &String) -> (found: Option<usize>)
        ensures
            match found {
                Some(i) => position(self.bindings@, name@, 0) == Some(i as int) && i
                    < self.bindings.len(),
                None => position(self.bindings@, name@, 0) is None,
            },
    {
        let mut i: usize = 0;
        while i < self.bindings.len()
            invariant
                i <= self.bindings.len(),
                position(self.bindings@, name@, 0) == position(self.bindings@, name@, i as int),
            decreases self.bindings.len() - i,
        {
            if self.bindings[i].name == *name {
                return Some(i);
            }
            i += 1;
        }
        None
    }

    /// Sets the value for a variable in the given scope. Returns the old
    /// value if the variable was previously defined.
    pub fn define(&mut self, name: &String, value: LoxObject<'a>) -> (previous: Option<
        LoxObject<'a>,
    >)
        ensures
            final(self)@ == old(self)@.insert(name@, value@),
            match previous {
                Some(previous) => old(self)@.dom().contains(name@) && previous@ == old(self)@[name@],
                None => !old(self)@.dom().contains(name@),
            },
    {
        match self.find(name) {
            Some(i) => {
                let binding = Binding { name: name.clone(), value };
                let previous = self.bindings[i].value.clone();
                let ghost before = self.bindings@;
                proof {
                    lemma_position(before, name@, 0);
                    assert forall|other: Seq<char>|
                        position(before.update(i as int, binding), other, 0) == position(
                            before,
                            other,
                            0,
                        ) by {
                        lemma_position_after_update(before, i as int, binding, other, 0);
                    }
                    assert forall|other: Seq<char>|
                        position(before, other, 0) is Some implies 0 <= position(
                            before,
                            other,
                            0,
                        )->0 < before.len() && before[position(before, other, 0)->0].name@
                            == other by {
                        lemma_position(before, other, 0);
                    }
                }
                self.bindings[i] = binding;
                assert(self.bindings@ == before.update(i as int, binding));
                assert(self@ =~= old(self)@.insert(name@, value@));
                Some(previous)
            },
            None => {
                let binding = Binding { name: name.clone(), value };
                let ghost before = self.bindings@;
                proof {
                    assert forall|other: Seq<char>|
                        position(before.push(binding), other, 0) == match position(
                            before,
                            other,
                            0,
                        ) {
                            Some(i) => Some(i),
                            None => if binding.name@ == other {
                                Some(before.len() as int)
                            } else {
                                None
                            },
                        } by {
                        lemma_position_after_push(before, binding, other, 0);
                    }
                    assert forall|other: Seq<char>|
                        position(before, other, 0) is Some implies 0 <= position(
                            before,
                            other,
                            0,
                        )->0 < before.len() by {
                        lemma_position(before, other, 0);
                    }
                }
                self.bindings.push(binding);
                assert(self@ =~= old(self)@.insert(name@, value@));
                None
            },
        }
    }

    /// If a variable is already defined in the scope, reassigns it and
    /// returns the old value. Returns `None` if the variable is not yet
    /// defined, and then changes nothing.
    pub fn assign(&mut self, name: &String, value: LoxObject<'a>) -> (previous: Option<
        LoxObject<'a>,
    >)
        ensures
            match previous {
                Some(previous) => old(self)@.dom().contains(name@) && previous@ == old(self)@[name@]
                    && final(self)@ == old(self)@.insert(name@, value@),
                None => !old(self)@.dom().contains(name@) && final(self)@ == old(self)@,
            },
    {
        match self.find(name) {
            Some(_) => self.define(name, value),
            None => None,
        }
    }

    /// Tries to retrieve a variable from the scope.
    pub fn get(&self, name: &String) -> (value: Option<LoxObject<'a>>)
        ensures
            match value {
                Some(value) => self@.dom().contains(name@) && value@ == self@[name@],
                None => !self@.dom().contains(name@),
            },
    {
        match self.find(name) {
            Some(i) => Some(self.bindings[i].value.clone()),
            None => None,
        }
    }

    /// True where the scope has a variable `name`.
    pub fn contains(&self, name: &String) -> (found: bool)
        ensures
            found == self@.dom().contains(name@),
    {
        self.find(name).is_some()
    }
}

/// One scope of an environment, with its place in the chain of scopes.
#[derive(Debug)]
pub struct Layer<'a> {
    /// The variables of the scope.
    pub scope: Scope<'a>,
    /// The number of the enclosing scope. The global scope has none: it
    /// names itself.
    pub parent: usize,
    /// Whether a function was declared in the scope, and so closes over it.
    pub captured: bool,
}

/// A scope of an environment, as a mapping.
pub struct LayerView<'a> {
    pub bindings: Map<Seq<char>, LoxObjectView<'a>>,
    pub parent: int,
    pub captured: bool,
}

impl<'a> View for Layer<'a> {
    type V = LayerView<'a>;

    open spec fn view(&self) -> LayerView<'a> {
        LayerView { bindings: self.scope@, parent: self.parent as int, captured: self.captured }
    }
}

/// Represents a program execution environment: every scope that is in use,
/// each with the number of its enclosing scope, and the number of the scope
/// that the program is in. Scope 0 is the global scope.
///
/// A scope is kept for as long as something may still name it. The scope
/// made last is dropped when the program leaves it, unless a function was
/// declared in it.
#[derive(Debug)]
pub struct Environment<'a> {
    pub layers: Vec<Layer<'a>>,
    pub current: usize,
}

/// An environment as the sequence of its scopes and the number of the current
/// one.
pub struct EnvironmentView<'a> {
    pub layers: Seq<LayerView<'a>>,
    pub current: usize,
}

impl<'a> View for Environment<'a> {
    type V = EnvironmentView<'a>;

    open spec fn view(&self) -> EnvironmentView<'a> {
        EnvironmentView {
            layers: Seq::new(self.layers@.len(), |i: int| self.layers@[i]@),
            current: self.current,
        }
    }
}

/// The error of a variable that no scope of the chain holds.
pub open spec fn undefined_variable(name: TokenView) -> RuntimeErrorView {
    RuntimeErrorView { token: name, message: "Undefined variable "@ + name.lexeme }
}

impl<'a> EnvironmentView<'a> {
    /// The environment of a new interpreter: the global scope alone, with
    /// the built-in functions.
    pub open spec fn initial() -> Self {
        EnvironmentView {
            layers: seq![LayerView { bindings: builtins(), parent: 0, captured: false }],
            current: 0,
        }
    }

    /// True where `scope` is the number of a scope.
    pub open spec fn has(self, scope: int) -> bool {
        0 <= scope < self.layers.len()
    }

    /// The nearest scope that holds `name`, on the way from scope `from`
    /// outwards.
    pub open spec fn holder(self, from: int, name: Seq<char>) -> Option<int>
        decreases from,
    {
        if !self.has(from) {
            None
        } else if self.layers[from].bindings.dom().contains(name) {
            Some(from)
        } else if 0 <= self.layers[from].parent < from {
            self.holder(self.layers[from].parent, name)
        } else {
            None
        }
    }

    /// The number of scopes on the way from scope `from` outwards.
    pub open spec fn depth(self, from: int) -> nat
        decreases from,
    {
        if !self.has(from) {
            0
        } else if 0 <= self.layers[from].parent < from {
            1 + self.depth(self.layers[from].parent)
        } else {
            1
        }
    }

    /// The value of `name`: the one in the nearest scope that holds it.
    pub open spec fn get(self, name: Seq<char>) -> Option<LoxObjectView<'a>> {
        match self.holder(self.current as int, name) {
            Some(scope) => Some(self.layers[scope].bindings[name]),
            None => None,
        }
    }

    /// The environment with `name` bound to `value` in scope `scope`.
    pub open spec fn bind(self, scope: int, name: Seq<char>, value: LoxObjectView<'a>) -> Self {
        EnvironmentView {
            layers: self.layers.update(
                scope,
                LayerView {
                    bindings: self.layers[scope].bindings.insert(name, value),
                    ..self.layers[scope]
                },
            ),
            current: self.current,
        }
    }

    /// The environment after `name` was defined in the current scope.
    pub open spec fn define(self, name: Seq<char>, value: LoxObjectView<'a>) -> Self {
        if self.has(self.current as int) {
            self.bind(self.current as int, name, value)
        } else {
            self
        }
    }

    /// The environment after `value` was assigned to `name`, in the nearest
    /// scope that holds it; the environment itself where none does.
    pub open spec fn assign(self, name: Seq<char>, value: LoxObjectView<'a>) -> Self {
        match self.holder(self.current as int, name) {
            Some(scope) => self.bind(scope, name, value),
            None => self,
        }
    }

    /// The environment in a new, empty scope inside scope `parent`.
    pub open spec fn enter(self, parent: usize) -> Self {
        EnvironmentView {
            layers: self.layers.push(
                LayerView {
                    bindings: Map::empty(),
                    parent: if self.has(parent as int) {
                        parent as int
                    } else {
                        0
                    },
                    captured: false,
                },
            ),
            current: self.layers.len() as usize,
        }
    }

    /// True where the current scope is of no further use once the program
    /// has left it for scope `to`: it was made last, it is not the global
    /// scope, and no function closes over it.
    pub open spec fn disposable(self, to: usize) -> bool {
        self.current == self.layers.len() - 1 && to < self.current
            && !self.layers[self.current as int].captured
    }

    /// The environment back in scope `to`. Where `to` is no scope, the
    /// program is back in the global scope.
    pub open spec fn leave(self, to: usize) -> Self {
        let layers = if self.disposable(to) {
            self.layers.drop_last()
        } else {
            self.layers
        };
        EnvironmentView {
            layers,
            current: if to < layers.len() {
                to
            } else {
                0
            },
        }
    }

    /// The environment back in the global scope.
    pub open spec fn home(self) -> Self {
        EnvironmentView { layers: self.layers, current: 0 }
    }

    /// The environment after a function was declared in the current scope.
    pub open spec fn capture(self) -> Self {
        if self.has(self.current as int) {
            EnvironmentView {
                layers: self.layers.update(
                    self.current as int,
                    LayerView { captured: true, ..self.layers[self.current as int] },
                ),
                current: self.current,
            }
        } else {
            self
        }
    }
}

/// True where the scopes of `before` are scopes of `after` too, each with
/// the enclosing scope it had. Defining, assigning, entering a scope and
/// declaring a function all leave it so; leaving a scope does as long as the
/// scope that is dropped is none of `before`.
pub open spec fn keeps_chains<'a>(before: EnvironmentView<'a>, after: EnvironmentView<'a>) -> bool {
    &&& before.layers.len() <= after.layers.len()
    &&& forall|scope: int|
        0 <= scope < before.layers.len() ==> (#[trigger] after.layers[scope]).parent
            == before.layers[scope].parent
}

/// The number of scopes from a scope outwards depends on nothing but the
/// chain.
pub proof fn lemma_depth_follows_chain<'a>(
    before: EnvironmentView<'a>,
    after: EnvironmentView<'a>,
    from: int,
)
    requires
        keeps_chains(before, after),
        before.has(from),
    ensures
        after.depth(from) == before.depth(from),
    decreases from,
{
    assert(after.layers[from].parent == before.layers[from].parent);
    if 0 <= before.layers[from].parent < from {
        lemma_depth_follows_chain(before, after, before.layers[from].parent);
    }
}

/// The nearest scope that holds a name is a scope, and holds the name.
pub proof fn lemma_holder_holds<'a>(environment: EnvironmentView<'a>, from: int, name: Seq<char>)
    ensures
        environment.holder(from, name) matches Some(scope) ==> environment.has(scope)
            && scope <= from && environment.layers[scope].bindings.dom().contains(name),
    decreases from,
{
    if environment.has(from) && !environment.layers[from].bindings.dom().contains(name) && 0
        <= environment.layers[from].parent < from {
        lemma_holder_holds(environment, environment.layers[from].parent, name);
    }
}

/// What the program does to an environment keeps the chains of its scopes.
pub proof fn lemma_operations_keep_chains<'a>(
    environment: EnvironmentView<'a>,
    name: Seq<char>,
    value: LoxObjectView<'a>,
    scope: usize,
)
    ensures
        keeps_chains(environment, environment),
        keeps_chains(environment, environment.define(name, value)),
        keeps_chains(environment, environment.assign(name, value)),
        keeps_chains(environment, environment.enter(scope)),
        keeps_chains(environment, environment.capture()),
        keeps_chains(environment, environment.home()),
{
    lemma_holder_holds(environment, environment.current as int, name);
}

/// Leaving a scope keeps the chains of the scopes that were there before
/// the scope was entered.
pub proof fn lemma_leave_keeps_chains<'a>(
    before: EnvironmentView<'a>,
    after: EnvironmentView<'a>,
    to: usize,
)
    requires
        keeps_chains(before, after),
        before.layers.len() < after.layers.len(),
    ensures
        keeps_chains(before, after.leave(to)),
{
}

/// A scope that is entered and left again leaves no trace: the program is
/// back in the scope it was in, as deep in the chain as it was, whatever it
/// did in between to the variables of any scope and however many scopes it
/// entered and left on the way, as long as it kept the chains of the scopes
/// that were there and is inside the entered scope when it leaves.
pub proof fn lemma_leaving_restores_depth<'a>(
    before: EnvironmentView<'a>,
    inside: EnvironmentView<'a>,
)
    requires
        before.has(before.current as int),
        keeps_chains(before, inside),
        before.layers.len() < inside.layers.len(),
    ensures
        inside.leave(before.current).current == before.current,
        inside.leave(before.current).depth(before.current as int) == before.depth(
            before.current as int,
        ),
{
    lemma_leave_keeps_chains(before, inside, before.current);
    lemma_depth_follows_chain(before, inside.leave(before.current), before.current as int);
}

/// A scope that is entered and left at once leaves the environment as it
/// was, and one scope deeper in between.
pub proof fn lemma_enter_then_leave<'a>(environment: EnvironmentView<'a>)
    requires
        environment.has(environment.current as int),
        environment.layers.len() <= usize::MAX,
    ensures
        environment.enter(environment.current).depth(
            environment.enter(environment.current).current as int,
        ) == environment.depth(environment.current as int) + 1,
        environment.enter(environment.current).leave(environment.current) == environment,
{
    let entered = environment.enter(environment.current);
    lemma_operations_keep_chains(environment, Seq::empty(), LoxObjectView::Nil, environment.current);
    lemma_depth_follows_chain(environment, entered, environment.current as int);
    assert(entered.leave(environment.current).layers =~= environment.layers);
}

/// True where scope `scope` is one of the scopes on the way from scope
/// `from` outwards.
pub open spec fn on_chain<'a>(environment: EnvironmentView<'a>, from: int, scope: int) -> bool
    decreases from,
{
    if !environment.has(from) {
        false
    } else if from == scope {
        true
    } else if 0 <= environment.layers[from].parent < from {
        on_chain(environment, environment.layers[from].parent, scope)
    } else {
        false
    }
}

/// A closure sees its own chain of scopes and nothing else: what is bound
/// in a scope that is not on the way from scope `from` outwards changes
/// nothing of what a lookup from scope `from` finds, whatever the name.
pub proof fn lemma_other_scopes_are_unseen<'a>(
    environment: EnvironmentView<'a>,
    from: int,
    scope: int,
    name: Seq<char>,
    value: LoxObjectView<'a>,
    sought: Seq<char>,
)
    requires
        environment.has(scope),
        !on_chain(environment, from, scope),
    ensures
        environment.bind(scope, name, value).holder(from, sought) == environment.holder(
            from,
            sought,
        ),
        environment.holder(from, sought) matches Some(holder) ==> environment.bind(
            scope,
            name,
            value,
        ).layers[holder].bindings[sought] == environment.layers[holder].bindings[sought],
    decreases from,
{
    if environment.has(from) && !environment.layers[from].bindings.dom().contains(sought) && 0
        <= environment.layers[from].parent < from {
        lemma_other_scopes_are_unseen(
            environment,
            environment.layers[from].parent,
            scope,
            name,
            value,
            sought,
        );
    }
}

/// The variables of the global scope of a new environment: the built-in
/// functions.
pub open spec fn builtins<'a>() -> Map<Seq<char>, LoxObjectView<'a>> {
    Map::<Seq<char>, LoxObjectView<'a>>::empty().insert(
        "clock"@,
        LoxObjectView::Function(Callable::Clock(Clock {  })),
    ).insert("print_env"@, LoxObjectView::Function(Callable::PrintEnv(PrintEnv {  }))).insert(
        "print"@,
        LoxObjectView::Function(Callable::Print(Print {  })),
    )
}

impl<'a> Environment<'a> {
    /// Construct a new environment. Contains only a global scope with the
    /// built-in Lox functions defined.
    pub fn new() -> (environment: Self)
        ensures
            environment@ == EnvironmentView::<'a>::initial(),
    {
        let mut global = Scope::new();

        // Define the builtin functions
        global.define(&String::from_str("clock"), LoxObject::Function(Callable::Clock(Clock {  })));
        global.define(
            &String::from_str("print_env"),
            LoxObject::Function(Callable::PrintEnv(PrintEnv {  })),
        );
        global.define(&String::from_str("print"), LoxObject::Function(Callable::Print(Print {  })));
        let mut layers: Vec<Layer<'a>> = Vec::new();
        layers.push(Layer { scope: global, parent: 0, captured: false });
        let environment = Environment { layers, current: 0 };
        assert(environment@.layers =~= seq![
            LayerView { bindings: builtins(), parent: 0, captured: false },
        ]);
        environment
    }

    /// The number of the current scope.
    pub fn current(&self) -> (scope: usize)
        ensures
            scope == self@.current,
    {
        self.current
    }

    /// The number of scopes from the current one outwards.
    pub fn depth(&self) -> (depth: usize)
        ensures
            depth == self@.depth(self@.current as int),
    {
        let mut depth: usize = 0;
        let mut scope = self.current;
        if scope >= self.layers.len() {
            return 0;
        }
        loop
            invariant
                scope < self.layers.len(),
                depth <= self.current - scope,
                depth + self@.depth(scope as int) == self@.depth(self@.current as int),
            decreases scope,
        {
            let parent = self.layers[scope].parent;
            depth += 1;
            if parent < scope {
                scope = parent;
            } else {
                return depth;
            }
        }
    }

    /// The nearest scope that holds `name`, on the way from the current
    /// scope outwards.
    fn holder(&self, name: &String) -> (found: Option<usize>)
        ensures
            match found {
                Some(scope) => self@.holder(self@.current as int, name@) == Some(scope as int)
                    && scope
                    < self.layers.len() && self.layers[scope as int].scope@.dom().contains(name@),
                None => self@.holder(self@.current as int, name@) is None,
            },
    {
        let mut scope = self.current;
        if scope >= self.layers.len() {
            return None;
        }
        loop
            invariant
                scope < self.layers.len(),
                self@.holder(scope as int, name@) == self@.holder(self@.current as int, name@),
            decreases scope,
        {
            if self.layers[scope].scope.contains(name) {
                return Some(scope);
            }
            let parent = self.layers[scope].parent;
            if parent < scope {
                scope = parent;
            } else {
                return None;
            }
        }
    }

    /// Binds `name` to `value` in scope `scope`.
    fn bind(&mut self, scope: usize, name: &String, value: LoxObject<'a>)
        requires
            scope < old(self).layers.len(),
        ensures
            final(self)@ == old(self)@.bind(scope as int, name@, value@),
    {
        self.layers[scope].scope.define(name, value);
        assert(self@.layers =~= old(self)@.bind(scope as int, name@, value@).layers);
    }

    /// Define a variable in the current scope. If the name is already
    /// present there, it is overwritten.
    pub fn define(&mut self, name: &String, value: LoxObject<'a>)
        ensures
            final(self)@ == old(self)@.define(name@, value@),
    {
        if self.current < self.layers.len() {
            self.bind(self.current, name, value);
        }
    }

    /// Reassign the value of a variable in the environment: in the nearest
    /// scope that holds it. Fails where no scope of the chain holds it, and
    /// then changes nothing.
    pub fn assign(&mut self, name: &Token, value: LoxObject<'a>) -> (result: Result<
        (),
        RuntimeError,
    >)
        ensures
            final(self)@ == old(self)@.assign(name.lexeme@, value@),
            match result {
                Ok(_) => old(self)@.holder(old(self)@.current as int, name.lexeme@) is Some,
                Err(error) => old(self)@.holder(old(self)@.current as int, name.lexeme@) is None
                    && error@ == undefined_variable(name@),
            },
    {
        match self.holder(&name.lexeme) {
            Some(scope) => {
                self.bind(scope, &name.lexeme, value);
                Ok(())
            },
            None => Err(undefined(name)),
        }
    }

    /// Retrieve a variable from the environment: from the nearest scope that
    /// holds it. Fails where no scope of the chain holds it.
    pub fn get(&self, name: &Token) -> (result: Result<LoxObject<'a>, RuntimeError>)
        ensures
            match result {
                Ok(value) => self@.get(name.lexeme@) == Some(value@),
                Err(error) => self@.get(name.lexeme@) is None && error@ == undefined_variable(
                    name@,
                ),
            },
    {
        match self.holder(&name.lexeme) {
            Some(scope) => {
                assert(self@.layers[scope as int] == self.layers@[scope as int]@);
                match self.layers[scope].scope.get(&name.lexeme) {
                    Some(value) => Ok(value),
                    None => Err(undefined(name)),
                }
            },
            None => Err(undefined(name)),
        }
    }

    /// Enters a new, empty scope inside scope `parent` (inside the global
    /// scope where `parent` is no scope) and returns the number of the scope
    /// that was current.
    pub fn enter(&mut self, parent: usize) -> (previous: usize)
        ensures
            final(self)@ == old(self)@.enter(parent),
            previous == old(self)@.current,
    {
        let previous = self.current;
        let parent = if parent < self.layers.len() {
            parent
        } else {
            0
        };
        self.current = self.layers.len();
        self.layers.push(Layer { scope: Scope::new(), parent, captured: false });
        assert(self@.layers =~= old(self)@.enter(parent).layers);
        previous
    }

    /// Introduces a new innermost scope, inside the current one, and
    /// returns the number of the scope that was current.
    pub fn push_scope(&mut self) -> (previous: usize)
        ensures
            final(self)@ == old(self)@.enter(old(self)@.current),
            previous == old(self)@.current,
    {
        self.enter(self.current)
    }

    /// Goes back to scope `to`. The scope that was current is dropped where
    /// nothing can name it any more.
    pub fn leave(&mut self, to: usize)
        ensures
            final(self)@ == old(self)@.leave(to),
    {
        if self.layers.len() > 0 && self.current == self.layers.len() - 1 && to < self.current
            && !self.layers[self.current].captured {
            self.layers.pop();
        }
        self.current = if to < self.layers.len() {
            to
        } else {
            0
        };
        assert(self@.layers =~= old(self)@.leave(to).layers);
    }

    /// Removes the innermost scope: goes back to the scope that encloses the
    /// current one. The global scope is never popped.
    pub fn pop_scope(&mut self)
        ensures
            final(self)@ == old(self)@.leave(
                if old(self).current < old(self).layers.len() {
                    old(self).layers[old(self).current as int].parent
                } else {
                    0
                },
            ),
    {
        let parent = if self.current < self.layers.len() {
            self.layers[self.current].parent
        } else {
            0
        };
        self.leave(parent);
    }

    /// Goes back to the global scope.
    pub fn home(&mut self)
        ensures
            final(self)@ == old(self)@.home(),
    {
        self.current = 0;
        assert(self@.layers =~= old(self)@.layers);
    }

    /// Records that a function was declared in the current scope.
    pub fn capture(&mut self)
        ensures
            final(self)@ == old(self)@.capture(),
    {
        if self.current < self.layers.len() {
            self.layers[self.current].captured = true;
            assert(self@.layers =~= old(self)@.capture().layers);
        }
    }
}

/// The error of a variable that no scope of the chain holds.
fn undefined(name: &Token) -> (error: RuntimeError)
    ensures
        error@ == undefined_variable(name@),
{
    let mut message = String::from_str("Undefined variable ");
    message.append(name.lexeme.as_str());
    RuntimeError::new(name.clone(), message)
}

} // verus!
