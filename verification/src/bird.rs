//! A session: one instance of the interpreter as far as the bridge keeps
//! it. The session owns what its names are bound to and the types declared
//! for them; the interpreter's namespace is carried along for the
//! embedding, which does the parsing, the type checking and the
//! evaluating. Each operation here says what to hand to the interpreter
//! and what to make of its answer.

use vstd::prelude::*;
use crate::host::HostValue;
use crate::scope::bind;
use crate::scope::bind_all;
use crate::scope::bindings_map;
use crate::scope::index_of;
use crate::scope::lemma_index_of;
use crate::scope::lemma_bind;
use crate::scope::lemma_bind_all;
use crate::scope::lemma_bindings_map;
use crate::scope::named;
use crate::scope::names_distinct;
use crate::scope::Scope;
use crate::value::JsValue;

verus! {

/// The type declared for a name, or inferred for an expression.
#[derive(Debug, Clone, Copy, PartialEq, Eq, Structural)]
pub enum Type {
    /// The placeholder that constrains nothing.
    Any,
    Bool,
    Number,
    Text,
    Time,
    List,
    Record,
    Block,
    /// A type that is none of these: the interpreter has more types than
    /// values have kinds. No name is ever declared with it here.
    Other,
}

/// How a session declares the types of the names that are set in it. It is
/// chosen once for the session, not value by value.
#[derive(Debug, Clone, Copy, PartialEq, Eq, Structural)]
pub enum Typing {
    /// Every name is declared with the placeholder [`Type::Any`].
    Placeholder,
    /// Every name is declared with the type that its value has when it is
    /// set.
    Precise,
}

/// The type that a value has by what it holds. A value that carries a
/// closure handle, which is one that is not zero, is a block, whatever
/// host value stands beside the handle; what the interpreter has no kind
/// for constrains nothing.
pub open spec fn derived_type(value: JsValue) -> Type {
    if value.1 != 0 {
        Type::Block
    } else {
        match value.0 {
            HostValue::Undefined => Type::Any,
            HostValue::Null => Type::Any,
            HostValue::Bool(_) => Type::Bool,
            HostValue::Number(_) => Type::Number,
            HostValue::Text(_) => Type::Text,
            HostValue::Time(_) => Type::Time,
            HostValue::List(_) => Type::List,
            HostValue::Record(_) => Type::Record,
            HostValue::Other(_) => Type::Any,
        }
    }
}

/// The type that a session of the given typing declares for a name that is
/// set to `value`.
pub open spec fn declared_type(typing: Typing, value: JsValue) -> Type {
    match typing {
        Typing::Placeholder => Type::Any,
        Typing::Precise => derived_type(value),
    }
}

/// Computes [`derived_type`].
pub fn type_of_value(value: &JsValue) -> (r: Type)
    ensures
        r == derived_type(*value),
{
    if value.callable() {
        Type::Block
    } else {
        match &value.0 {
            HostValue::Undefined => Type::Any,
            HostValue::Null => Type::Any,
            HostValue::Bool(_) => Type::Bool,
            HostValue::Number(_) => Type::Number,
            HostValue::Text(_) => Type::Text,
            HostValue::Time(_) => Type::Time,
            HostValue::List(_) => Type::List,
            HostValue::Record(_) => Type::Record,
            HostValue::Other(_) => Type::Any,
        }
    }
}

/// What a name is bound to in a session: its value and its declared type,
/// kept together so that neither is ever there without the other.
#[derive(Debug)]
struct Slot {
    value: JsValue,
    ty: Type,
}

spec fn values_of(s: Seq<(Seq<char>, Slot)>) -> Seq<(Seq<char>, JsValue)> {
    Seq::new(s.len(), |i: int| (s[i].0, s[i].1.value))
}

spec fn types_of(s: Seq<(Seq<char>, Slot)>) -> Seq<(Seq<char>, Type)> {
    Seq::new(s.len(), |i: int| (s[i].0, s[i].1.ty))
}

/// Where a name is bound does not depend on what it is bound to.
proof fn lemma_index_of_slots(s: Seq<(Seq<char>, Slot)>, name: Seq<char>)
    ensures
        index_of(values_of(s), name) == index_of(s, name),
        index_of(types_of(s), name) == index_of(s, name),
    decreases s.len(),
{
    if s.len() > 0 {
        lemma_index_of_slots(s.drop_last(), name);
        assert(values_of(s).drop_last() =~= values_of(s.drop_last()));
        assert(types_of(s).drop_last() =~= types_of(s.drop_last()));
    }
}

/// Binding a slot binds its value among the values and its type among the
/// types.
proof fn lemma_bind_slot(s: Seq<(Seq<char>, Slot)>, name: Seq<char>, slot: Slot)
    ensures
        values_of(bind(s, name, slot)) == bind(values_of(s), name, slot.value),
        types_of(bind(s, name, slot)) == bind(types_of(s), name, slot.ty),
{
    lemma_index_of_slots(s, name);
    lemma_index_of(s, name);
}

/// An entry of an inferred environment restates a declaration where the
/// name is declared with that very type.
pub open spec fn restates(globals: Map<Seq<char>, Type>, entry: (Seq<char>, Type)) -> bool {
    globals.contains_pair(entry.0, entry.1)
}

/// The entries of `env` that say something new: those that do not restate
/// a declaration of `globals`, in their order.
pub open spec fn newly_inferred(globals: Map<Seq<char>, Type>, env: Seq<(Seq<char>, Type)>) -> Seq<
    (Seq<char>, Type),
> {
    env.filter(|entry: (Seq<char>, Type)| !restates(globals, entry))
}

/// What the type checker found for an expression that it accepts: its
/// type, and the types it inferred for the names in it.
#[derive(Debug, PartialEq)]
pub struct Inferred {
    pub ty: Type,
    pub env: Vec<(String, Type)>,
}

/// The type checker's answer: what it inferred, or every violation that it
/// found, not only the first.
pub type TypeCheckerResult = Result<Inferred, Vec<String>>;

/// What the embedding is to have type-checked: the parsed expression,
/// against the declarations of the session as the initial environment.
#[derive(Debug)]
pub struct TypeQuery<S> {
    pub syntax: S,
    pub globals: Vec<(String, Type)>,
}

/// What the embedding is to have evaluated: the parsed expression, in a
/// scope made for this one evaluation.
#[derive(Debug)]
pub struct Evaluation<S> {
    pub syntax: S,
    pub scope: Scope<JsValue>,
}

/// What an answer of the type checker to `query` is turned into: from an
/// environment, the entries that restate a declaration are left out;
/// violations pass as they are.
pub open spec fn type_checked<S>(query: TypeQuery<S>, answer: TypeCheckerResult, r: (
    S,
    TypeCheckerResult,
)) -> bool {
    &&& r.0 == query.syntax
    &&& match answer {
        Ok(inferred) => {
            &&& r.1 is Ok
            &&& r.1->Ok_0.ty == inferred.ty
            &&& named(r.1->Ok_0.env@) == newly_inferred(
                bindings_map(named(query.globals@)),
                named(inferred.env@),
            )
        },
        Err(violations) => r.1 == Err::<Inferred, Vec<String>>(violations),
    }
}

impl<S> TypeQuery<S> {
    /// Takes the type checker's answer to the query and hands back the
    /// expression with what the caller is to learn: see [`type_checked`].
    pub fn finish(self, answer: TypeCheckerResult) -> (r: (S, TypeCheckerResult))
        ensures
            type_checked(self, answer, r),
    {
        match answer {
            Err(violations) => (self.syntax, Err(violations)),
            Ok(inferred) => {
                let globals = Scope::from_bindings(self.globals);
                let ghost all = named(inferred.env@);
                let ghost keep = |entry: (Seq<char>, Type)| !restates(globals@, entry);
                let mut env: Vec<(String, Type)> = Vec::new();
                for entry in it: inferred.env
                    invariant
                        all == named(it.seq()),
                        keep == |entry: (Seq<char>, Type)| !restates(globals@, entry),
                        named(env@) == all.take(it.index() as int).filter(keep),
                {
                    proof {
                        reveal(Seq::filter);
                        assert(all.take(it.index() + 1).drop_last() =~= all.take(
                            it.index() as int,
                        ));
                    }
                    let declared = match globals.get(entry.0.as_str()) {
                        Some(ty) => *ty == entry.1,
                        None => false,
                    };
                    if !declared {
                        env.push(entry);
                    }
                }
                proof {
                    assert(all.take(all.len() as int) =~= all);
                }
                (self.syntax, Ok(Inferred { ty: inferred.ty, env }))
            },
        }
    }
}

/// What the interpreter's answer to an evaluation is turned into: a value
/// passes as it is, and a failure is the failure of the evaluation, with
/// the interpreter's message as it is.
pub open spec fn evaluated_as(outcome: Result<JsValue, String>, r: Result<JsValue, String>) -> bool {
    match outcome {
        Ok(value) => r == Ok::<JsValue, String>(value),
        Err(message) => r == Err::<JsValue, String>(message),
    }
}

/// Takes the interpreter's answer to an evaluation: see [`evaluated_as`].
pub fn evaluated(outcome: Result<JsValue, String>) -> (r: Result<JsValue, String>)
    ensures
        evaluated_as(outcome, r),
{
    match outcome {
        Ok(value) => Ok(value),
        Err(message) => Err(message),
    }
}

/// One session.
#[derive(Debug)]
pub struct Bird<N> {
    ns: N,
    vars: Scope<Slot>,
    typing: Typing,
}

impl<N> Bird<N> {
    /// The interpreter's namespace for this session. The bridge only
    /// carries it.
    pub closed spec fn namespace(&self) -> N {
        self.ns
    }

    /// The names that are set, each with its value, in the order in which
    /// they were first set.
    pub closed spec fn var_bindings(&self) -> Seq<(Seq<char>, JsValue)> {
        values_of(self.vars.bindings())
    }

    /// The names that are set, each with its declared type, in the same
    /// order.
    pub closed spec fn type_bindings(&self) -> Seq<(Seq<char>, Type)> {
        types_of(self.vars.bindings())
    }

    /// How this session declares types.
    pub closed spec fn typing(&self) -> Typing {
        self.typing
    }

    /// The value scope, as a mapping.
    pub open spec fn values(&self) -> Map<Seq<char>, JsValue> {
        bindings_map(self.var_bindings())
    }

    /// The type scope, as a mapping.
    pub open spec fn types(&self) -> Map<Seq<char>, Type> {
        bindings_map(self.type_bindings())
    }

    /// The scope in which an expression is evaluated when `inputs` are
    /// bound for that evaluation: they shadow what is set in the session.
    pub open spec fn eval_bindings(&self, inputs: Seq<(Seq<char>, JsValue)>) -> Seq<
        (Seq<char>, JsValue),
    > {
        bind_all(self.var_bindings(), inputs)
    }

    /// What [`Bird::type_of`] makes of a parse: the parser's message where
    /// the source did not parse, and else the expression with the
    /// declarations of the session.
    pub open spec fn type_query<S>(
        &self,
        parsed: Result<S, String>,
        r: Result<TypeQuery<S>, String>,
    ) -> bool {
        match parsed {
            Ok(syntax) => r is Ok && r->Ok_0.syntax == syntax && named(r->Ok_0.globals@)
                == self.type_bindings(),
            Err(message) => r == Err::<TypeQuery<S>, String>(message),
        }
    }

    /// What [`Bird::eval`] makes of a parse: the parser's message where
    /// the source did not parse, and else the expression with the scope
    /// for its evaluation.
    pub open spec fn evaluation<S>(
        &self,
        parsed: Result<S, String>,
        inputs: Seq<(Seq<char>, JsValue)>,
        r: Result<Evaluation<S>, String>,
    ) -> bool {
        match parsed {
            Ok(syntax) => r is Ok && r->Ok_0.syntax == syntax && r->Ok_0.scope.bindings()
                == self.eval_bindings(inputs),
            Err(message) => r == Err::<Evaluation<S>, String>(message),
        }
    }

    /// What holds of every session: no name is set twice.
    pub open spec fn valid(&self) -> bool {
        names_distinct(self.var_bindings()) && names_distinct(self.type_bindings())
    }

    /// Whether this session is `before` after `name` was set to `value` in
    /// it: the binding of that name is new in both scopes, and nothing
    /// else differs.
    pub open spec fn is_set_from(&self, before: Self, name: Seq<char>, value: JsValue) -> bool {
        &&& self.namespace() == before.namespace()
        &&& self.typing() == before.typing()
        &&& self.var_bindings() == bind(before.var_bindings(), name, value)
        &&& self.type_bindings() == bind(
            before.type_bindings(),
            name,
            declared_type(before.typing(), value),
        )
    }

    /// The value scope and the type scope bind the same names, one for
    /// one and in the same order.
    pub proof fn lemma_scopes_bind_the_same_names(&self)
        ensures
            self.var_bindings().len() == self.type_bindings().len(),
            forall|i: int|
                0 <= i < self.var_bindings().len() ==> self.var_bindings()[i].0
                    == self.type_bindings()[i].0,
            self.values().dom() == self.types().dom(),
    {
        assert forall|name: Seq<char>| self.values().contains_key(name) == self.types().contains_key(
            name,
        ) by {
            lemma_index_of_slots(self.vars.bindings(), name);
            lemma_bindings_map(self.var_bindings(), name);
            lemma_bindings_map(self.type_bindings(), name);
        }
    }

    /// Establishes [`Bird::valid`] of a session at hand.
    pub(crate) fn validate(&self)
        ensures
            self.valid(),
    {
        proof {
            use_type_invariant(&self.vars);
        }
    }

    /// A session with nothing set, which declares every name with the
    /// placeholder type.
    pub fn new(ns: N) -> (r: Self)
        ensures
            r.valid(),
            r.namespace() == ns,
            r.typing() == Typing::Placeholder,
            r.var_bindings() == Seq::<(Seq<char>, JsValue)>::empty(),
            r.type_bindings() == Seq::<(Seq<char>, Type)>::empty(),
    {
        Self::with_typing(ns, Typing::Placeholder)
    }

    /// A session with nothing set and the given typing.
    pub fn with_typing(ns: N, typing: Typing) -> (r: Self)
        ensures
            r.valid(),
            r.namespace() == ns,
            r.typing() == typing,
            r.var_bindings() == Seq::<(Seq<char>, JsValue)>::empty(),
            r.type_bindings() == Seq::<(Seq<char>, Type)>::empty(),
    {
        Bird { ns, vars: Scope::new(), typing }
    }

    /// The namespace, for the embedding to parse and evaluate with.
    pub fn ns(&self) -> (r: &N)
        ensures
            *r == self.namespace(),
    {
        &self.ns
    }

    /// The namespace, for the embedding to declare a function in. Nothing
    /// that is set in the session changes with it.
    pub fn ns_mut(&mut self) -> (r: &mut N)
        ensures
            *r == old(self).namespace(),
            final(self).namespace() == *final(r),
            final(self).valid(),
            final(self).typing() == old(self).typing(),
            final(self).var_bindings() == old(self).var_bindings(),
            final(self).type_bindings() == old(self).type_bindings(),
    {
        self.validate();
        &mut self.ns
    }

    /// Sets `name` to `val`, in the value scope and in the type scope at
    /// once. The last write wins; nothing of an earlier one is kept.
    pub fn set(&mut self, name: &str, val: JsValue)
        ensures
            final(self).valid(),
            final(self).is_set_from(*old(self), name@, val),
    {
        let ty = match self.typing {
            Typing::Placeholder => Type::Any,
            Typing::Precise => type_of_value(&val),
        };
        proof {
            lemma_bind_slot(self.vars.bindings(), name@, Slot { value: val, ty });
        }
        self.vars.insert(String::from_str(name), Slot { value: val, ty });
        self.validate();
    }

    /// A snapshot of the value scope: what it hands out does not change
    /// when the session does.
    pub fn vars(&self) -> (r: Vec<(String, JsValue)>)
        ensures
            named(r@) == self.var_bindings(),
            names_distinct(named(r@)),
    {
        self.validate();
        let n = self.vars.len();
        let mut r: Vec<(String, JsValue)> = Vec::with_capacity(n);
        let mut i: usize = 0;
        while i < n
            invariant
                n == self.vars.bindings().len(),
                i <= n,
                r@.len() == i,
                forall|j: int|
                    0 <= j < i ==> r@[j].0@ == self.vars.bindings()[j].0 && r@[j].1
                        == self.vars.bindings()[j].1.value,
            decreases n - i,
        {
            match self.vars.binding(i) {
                Some((name, slot)) => {
                    r.push((name.clone(), slot.value.clone()));
                },
                None => {},
            }
            i += 1;
        }
        r
    }

    /// The declarations of the session, as the type checker's initial
    /// environment.
    pub fn global_types(&self) -> (r: Vec<(String, Type)>)
        ensures
            named(r@) == self.type_bindings(),
    {
        let n = self.vars.len();
        let mut r: Vec<(String, Type)> = Vec::with_capacity(n);
        let mut i: usize = 0;
        while i < n
            invariant
                n == self.vars.bindings().len(),
                i <= n,
                r@.len() == i,
                forall|j: int|
                    0 <= j < i ==> r@[j].0@ == self.vars.bindings()[j].0 && r@[j].1
                        == self.vars.bindings()[j].1.ty,
            decreases n - i,
        {
            match self.vars.binding(i) {
                Some((name, slot)) => {
                    r.push((name.clone(), slot.ty));
                },
                None => {},
            }
            i += 1;
        }
        r
    }

    /// Type-checking, first half. Where the source did not parse, the
    /// parser's message is the answer. Else the expression is to be checked
    /// against the declarations of the session, and against nothing that
    /// was bound for a single evaluation. The session is not changed.
    pub fn type_of<S>(&self, parsed: Result<S, String>) -> (r: Result<TypeQuery<S>, String>)
        ensures
            self.type_query(parsed, r),
    {
        match parsed {
            Ok(syntax) => Ok(TypeQuery { syntax, globals: self.global_types() }),
            Err(message) => Err(message),
        }
    }

    /// Evaluating, first half. Where the source did not parse, the parser's
    /// message is the answer. Else the expression is to be evaluated in a
    /// scope of its own, in which `inputs` shadow what is set in the
    /// session. The session is not changed, and the scope is gone with the
    /// evaluation.
    pub fn eval<S>(&self, parsed: Result<S, String>, inputs: Vec<(String, JsValue)>) -> (r: Result<
        Evaluation<S>,
        String,
    >)
        ensures
            self.evaluation(parsed, named(inputs@), r),
    {
        match parsed {
            Ok(syntax) => {
                let mut scope = Scope::from_distinct(self.vars());
                scope.extend(inputs);
                Ok(Evaluation { syntax, scope })
            },
            Err(message) => Err(message),
        }
    }
}

/// After a name is set in a session, the session's values hold the value
/// under that name, and its types hold the type that the session declares
/// for the value; under every other name both hold what they held.
pub proof fn lemma_set_then_get<N>(before: Bird<N>, after: Bird<N>, name: Seq<char>, value: JsValue)
    requires
        before.valid(),
        after.is_set_from(before, name, value),
    ensures
        after.valid(),
        after.values() == before.values().insert(name, value),
        after.types() == before.types().insert(name, declared_type(before.typing(), value)),
{
    lemma_bind(before.var_bindings(), name, value);
    lemma_bind(before.type_bindings(), name, declared_type(before.typing(), value));
}

/// Type-checking is repeatable: it reads the session and changes nothing,
/// so that two checks of one parse in one session ask the type checker the
/// same question, and make the same of the same answer.
pub proof fn lemma_type_of_is_repeatable<N, S>(
    bird: Bird<N>,
    parsed: Result<S, String>,
    first: Result<TypeQuery<S>, String>,
    second: Result<TypeQuery<S>, String>,
    answer: TypeCheckerResult,
    first_result: (S, TypeCheckerResult),
    second_result: (S, TypeCheckerResult),
)
    requires
        bird.type_query(parsed, first),
        bird.type_query(parsed, second),
        first is Ok ==> type_checked(first->Ok_0, answer, first_result),
        second is Ok ==> type_checked(second->Ok_0, answer, second_result),
    ensures
        first is Err ==> second == first,
        first is Ok ==> {
            &&& second is Ok
            &&& second->Ok_0.syntax == first->Ok_0.syntax
            &&& named(second->Ok_0.globals@) == named(first->Ok_0.globals@)
            &&& second_result.0 == first_result.0
            &&& first_result.1 is Err ==> second_result.1 == first_result.1
            &&& first_result.1 is Ok ==> {
                &&& second_result.1 is Ok
                &&& second_result.1->Ok_0.ty == first_result.1->Ok_0.ty
                &&& named(second_result.1->Ok_0.env@) == named(first_result.1->Ok_0.env@)
            }
        },
{
}

/// What is bound for one evaluation is seen in that evaluation and in
/// nothing else. The evaluation sees the session's values with the inputs
/// laid over them, each name once: an input shadows what the session has
/// set under its name. The session itself is read, not written: a name
/// that only the inputs bind is in the evaluation and not among the
/// session's values.
pub proof fn lemma_inputs_shadow<N>(bird: Bird<N>, inputs: Seq<(Seq<char>, JsValue)>)
    requires
        bird.valid(),
    ensures
        names_distinct(bird.eval_bindings(inputs)),
        bindings_map(bird.eval_bindings(inputs)) == bird.values().union_prefer_right(
            bindings_map(inputs),
        ),
        forall|name: Seq<char>| #[trigger]
            bindings_map(inputs).contains_key(name) ==> bindings_map(
                bird.eval_bindings(inputs),
            ).contains_key(name) && bindings_map(bird.eval_bindings(inputs))[name] == bindings_map(
                inputs,
            )[name],
        forall|name: Seq<char>| #[trigger]
            bird.values().contains_key(name) && !bindings_map(inputs).contains_key(name)
                ==> bindings_map(bird.eval_bindings(inputs)).contains_key(name) && bindings_map(
                bird.eval_bindings(inputs),
            )[name] == bird.values()[name],
        forall|name: Seq<char>| #[trigger]
            bindings_map(bird.eval_bindings(inputs)).contains_key(name)
                ==> bird.values().contains_key(name) || bindings_map(inputs).contains_key(name),
{
    lemma_bind_all(bird.var_bindings(), inputs);
}

} // verus!
