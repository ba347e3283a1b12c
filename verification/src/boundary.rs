//! The entry points of the boundary, as far as they are bookkeeping: each
//! one resolves a handle, does one thing to the entity that it names, and
//! leaves the entity outstanding. Sessions and closures share one space of
//! handles, so that a handle names one entity at most; no operation on one
//! handle reads or changes what another handle names.

use vstd::prelude::*;
use vstd::std_specs::convert::FromSpecImpl;
use crate::arena::Arena;
use crate::bird::declared_type;
use crate::bird::evaluated_as;
use crate::bird::lemma_inputs_shadow;
use crate::bird::lemma_set_then_get;
use crate::bird::Bird;
use crate::bird::Evaluation;
use crate::bird::TypeQuery;
use crate::bird::Type;
use crate::bird::Typing;
use crate::host::HostValue;
use crate::scope::bindings_map;
use crate::scope::named;
use crate::scope::names_distinct;
use crate::value::JsValue;

verus! {

/// What a fallible entry point hands to the host: a payload or a message,
/// never a fault.
#[derive(Debug, PartialEq)]
pub enum JsResult<T> {
    Success(T),
    Failure(String),
}

/// The tagged result that a result crosses the boundary as.
pub open spec fn tagged<T>(result: Result<T, String>) -> JsResult<T> {
    match result {
        Ok(ok) => JsResult::Success(ok),
        Err(err) => JsResult::Failure(err),
    }
}

impl<T> From<Result<T, String>> for JsResult<T> {
    fn from(result: Result<T, String>) -> (r: JsResult<T>) {
        match result {
            Ok(ok) => JsResult::Success(ok),
            Err(err) => JsResult::Failure(err),
        }
    }
}

impl<T> FromSpecImpl<Result<T, String>> for JsResult<T> {
    open spec fn obeys_from_spec() -> bool {
        true
    }

    open spec fn from_spec(result: Result<T, String>) -> JsResult<T> {
        tagged(result)
    }
}

/// What a handle can name.
#[derive(Debug)]
enum Entity<N, B> {
    Session(Bird<N>),
    Closure(B),
}

/// Everything that the host has allocated and not yet freed: sessions over
/// namespaces of type `N`, and closures of type `B`.
#[derive(Debug)]
pub struct Registry<N, B> {
    entities: Arena<Entity<N, B>>,
}

impl<N, B> Registry<N, B> {
    /// The live sessions, by handle.
    pub closed spec fn birds(&self) -> Map<int, Bird<N>> {
        Map::new(
            |h: int| self.entities@.contains_key(h) && self.entities@[h] is Session,
            |h: int| self.entities@[h]->Session_0,
        )
    }

    /// The live closures, by handle.
    pub closed spec fn blocks(&self) -> Map<int, B> {
        Map::new(
            |h: int| self.entities@.contains_key(h) && self.entities@[h] is Closure,
            |h: int| self.entities@[h]->Closure_0,
        )
    }

    /// How many handles were ever issued: exactly `1 ..= issued()`.
    pub closed spec fn issued(&self) -> nat {
        self.entities.issued()
    }

    /// Whether `handle` names a live session.
    pub open spec fn has_bird(&self, handle: i32) -> bool {
        self.birds().contains_key(handle as int)
    }

    /// The session that `handle` names.
    pub open spec fn bird(&self, handle: i32) -> Bird<N> {
        self.birds()[handle as int]
    }

    /// Whether `handle` names a live closure.
    pub open spec fn has_block(&self, handle: i32) -> bool {
        self.blocks().contains_key(handle as int)
    }

    /// The closure that `handle` names.
    pub open spec fn block(&self, handle: i32) -> B {
        self.blocks()[handle as int]
    }

    /// Whether this registry differs from `before` in the session that
    /// `handle` names at most: the same handles were issued and name
    /// sessions, every other session is what it was, and so is every
    /// closure.
    pub open spec fn differs_in_bird_only(&self, before: Self, handle: i32) -> bool {
        &&& self.issued() == before.issued()
        &&& self.blocks() == before.blocks()
        &&& self.birds().dom() =~= before.birds().dom()
        &&& forall|other: int|
            other != handle && before.birds().contains_key(other) ==> self.birds()[other]
                == before.birds()[other]
    }

    /// Whether this registry is `before` after a session over `ns` with the
    /// given typing was opened in it, and `handle` was handed out for it.
    /// While a handle is left to issue, the handle is the next one, never
    /// issued before, and names a session with nothing set; once none is
    /// left, the handle is `0` and nothing is opened. No other entity
    /// differs either way.
    pub open spec fn has_opened(&self, before: Self, handle: i32, ns: N, typing: Typing) -> bool {
        &&& self.blocks() =~= before.blocks()
        &&& forall|other: int|
            before.birds().contains_key(other) ==> self.birds().contains_key(other)
                && self.birds()[other] == before.birds()[other]
        &&& before.issued() < i32::MAX ==> {
            &&& handle == before.issued() + 1
            &&& self.issued() == before.issued() + 1
            &&& self.birds().dom() =~= before.birds().dom().insert(handle as int)
            &&& self.bird(handle).valid()
            &&& self.bird(handle).namespace() == ns
            &&& self.bird(handle).typing() == typing
            &&& self.bird(handle).var_bindings().len() == 0
            &&& self.bird(handle).type_bindings().len() == 0
        }
        &&& before.issued() >= i32::MAX ==> {
            &&& handle == 0
            &&& self.birds() =~= before.birds()
            &&& self.issued() == before.issued()
        }
    }

    /// A handle names one entity at most, and only a handle that was
    /// issued names any: zero and the negative numbers name nothing.
    pub proof fn lemma_one_entity_per_handle(&self)
        ensures
            forall|h: int| !(self.birds().contains_key(h) && self.blocks().contains_key(h)),
            forall|h: int| #[trigger] self.birds().contains_key(h) ==> 0 < h <= self.issued(),
            forall|h: int| #[trigger] self.blocks().contains_key(h) ==> 0 < h <= self.issued(),
    {
        self.entities.lemma_live_handles_were_issued();
    }

    /// A registry in which nothing is allocated.
    pub fn new() -> (r: Self)
        ensures
            r.birds() == Map::<int, Bird<N>>::empty(),
            r.blocks() == Map::<int, B>::empty(),
            r.issued() == 0,
    {
        Registry { entities: Arena::new() }
    }
}

/// Opens a session over the namespace `ns` and hands out its handle, or
/// `0` where no handle is left to issue. The session declares every name
/// with the placeholder type. The handle is one that was never issued
/// before; no other entity is touched.
pub fn alloc_bird<N, B>(registry: &mut Registry<N, B>, ns: N) -> (handle: i32)
    ensures
        final(registry).has_opened(*old(registry), handle, ns, Typing::Placeholder),
{
    alloc_bird_with(registry, ns, Typing::Placeholder)
}

/// Opens a session as [`alloc_bird`] does, with the typing that the
/// deployment has chosen for its sessions.
pub fn alloc_bird_with<N, B>(registry: &mut Registry<N, B>, ns: N, typing: Typing) -> (handle: i32)
    ensures
        final(registry).has_opened(*old(registry), handle, ns, typing),
{
    proof {
        registry.entities.lemma_live_handles_were_issued();
    }
    registry.entities.allocate(Entity::Session(Bird::with_typing(ns, typing)))
}

/// Closes the session that `handle` names. A handle that names no session
/// changes nothing; no other entity is touched.
pub fn drop_bird<N, B>(registry: &mut Registry<N, B>, handle: i32)
    ensures
        final(registry).birds() == old(registry).birds().remove(handle as int),
        final(registry).blocks() == old(registry).blocks(),
        final(registry).issued() == old(registry).issued(),
{
    let names_a_session = match registry.entities.get(handle) {
        Some(Entity::Session(_)) => true,
        _ => false,
    };
    if names_a_session {
        let _ = registry.entities.free(handle);
    }
}

/// Resolves a session handle for reading.
pub fn with_bird<'a, N, B>(registry: &'a Registry<N, B>, handle: i32) -> (r: Result<
    &'a Bird<N>,
    String,
>)
    ensures
        match r {
            Ok(bird) => registry.has_bird(handle) && *bird == registry.bird(handle) && bird.valid(),
            Err(e) => !registry.has_bird(handle) && e@ == "not a bird"@,
        },
{
    match registry.entities.get(handle) {
        Some(Entity::Session(bird)) => {
            bird.validate();
            Ok(bird)
        },
        _ => Err(String::from_str("not a bird")),
    }
}

/// Resolves a session handle for one operation that changes the session.
/// The session stays outstanding under its handle, and no other entity is
/// touched.
pub fn with_bird_mut<'a, N, B>(registry: &'a mut Registry<N, B>, handle: i32) -> (r: Result<
    &'a mut Bird<N>,
    String,
>)
    ensures
        final(registry).issued() == old(registry).issued(),
        final(registry).blocks() == old(registry).blocks(),
        match r {
            Ok(bird) => {
                &&& old(registry).has_bird(handle)
                &&& *bird == old(registry).bird(handle)
                &&& bird.valid()
                &&& final(registry).birds() == old(registry).birds().insert(
                    handle as int,
                    *final(bird),
                )
            },
            Err(e) => {
                &&& !old(registry).has_bird(handle)
                &&& final(registry).birds() == old(registry).birds()
                &&& e@ == "not a bird"@
            },
        },
{
    match registry.entities.get_mut(handle) {
        Some(entity) => match entity {
            Entity::Session(bird) => {
                bird.validate();
                Ok(bird)
            },
            Entity::Closure(_) => Err(String::from_str("not a bird")),
        },
        None => Err(String::from_str("not a bird")),
    }
}

/// Declaring a function, first half: resolves the namespace of the session
/// that `handle` names, for the embedding to install the function in. What
/// is set in that session stays as it is, and no other entity is touched.
pub fn define<'a, N, B>(registry: &'a mut Registry<N, B>, handle: i32) -> (r: Result<
    &'a mut N,
    String,
>)
    ensures
        final(registry).differs_in_bird_only(*old(registry), handle),
        match r {
            Ok(ns) => {
                &&& old(registry).has_bird(handle)
                &&& *ns == old(registry).bird(handle).namespace()
                &&& final(registry).bird(handle).namespace() == *final(ns)
                &&& final(registry).bird(handle).valid()
                &&& final(registry).bird(handle).typing() == old(registry).bird(handle).typing()
                &&& final(registry).bird(handle).var_bindings() == old(registry).bird(
                    handle,
                ).var_bindings()
                &&& final(registry).bird(handle).type_bindings() == old(registry).bird(
                    handle,
                ).type_bindings()
            },
            Err(e) => {
                &&& !old(registry).has_bird(handle)
                &&& final(registry).birds() == old(registry).birds()
                &&& e@ == "not a bird"@
            },
        },
{
    match with_bird_mut(registry, handle) {
        Ok(bird) => Ok(bird.ns_mut()),
        Err(e) => Err(e),
    }
}

/// Evaluating, first half, in the session that `handle` names: see
/// [`Bird::eval`]. Nothing in the registry is changed, and nothing of
/// another session is read.
pub fn evaluate<N, B, S>(
    registry: &Registry<N, B>,
    handle: i32,
    parsed: Result<S, String>,
    inputs: Vec<(String, JsValue)>,
) -> (r: Result<Evaluation<S>, String>)
    ensures
        !registry.has_bird(handle) ==> r is Err && r->Err_0@ == "not a bird"@,
        registry.has_bird(handle) ==> registry.bird(handle).evaluation(parsed, named(inputs@), r),
{
    match with_bird(registry, handle) {
        Ok(bird) => bird.eval(parsed, inputs),
        Err(e) => Err(e),
    }
}

/// Type-checking, first half, in the session that `handle` names: see
/// [`Bird::type_of`]. Nothing in the registry is changed, and nothing of
/// another session is read.
pub fn type_of<N, B, S>(registry: &Registry<N, B>, handle: i32, parsed: Result<S, String>) -> (r:
    Result<TypeQuery<S>, String>)
    ensures
        !registry.has_bird(handle) ==> r is Err && r->Err_0@ == "not a bird"@,
        registry.has_bird(handle) ==> registry.bird(handle).type_query(parsed, r),
{
    match with_bird(registry, handle) {
        Ok(bird) => bird.type_of(parsed),
        Err(e) => Err(e),
    }
}

/// Sets `name` to `val` in the session that `handle` names, and in no
/// other. A handle that names no session changes nothing.
pub fn set_var<N, B>(registry: &mut Registry<N, B>, handle: i32, name: &str, val: JsValue)
    ensures
        final(registry).differs_in_bird_only(*old(registry), handle),
        old(registry).has_bird(handle) ==> final(registry).bird(handle).valid(),
        old(registry).has_bird(handle) ==> final(registry).bird(handle).is_set_from(
            old(registry).bird(handle),
            name@,
            val,
        ),
        !old(registry).has_bird(handle) ==> final(registry).birds() == old(registry).birds(),
{
    match with_bird_mut(registry, handle) {
        Ok(bird) => {
            bird.set(name, val);
        },
        Err(_) => {},
    }
}

/// A snapshot of what is set in the session that `handle` names, and of
/// nothing else. A handle that names no session gives nothing.
pub fn get_var<N, B>(registry: &Registry<N, B>, handle: i32) -> (r: Vec<(String, JsValue)>)
    ensures
        registry.has_bird(handle) ==> named(r@) == registry.bird(handle).var_bindings(),
        !registry.has_bird(handle) ==> r@.len() == 0,
        names_distinct(named(r@)),
{
    match with_bird(registry, handle) {
        Ok(bird) => bird.vars(),
        Err(_) => Vec::new(),
    }
}

/// Takes a closure in and hands out the value that stands for it: one that
/// carries the closure's handle, which was never issued before. Where no
/// handle is left to issue, the value carries none and cannot be called.
/// No other entity is touched.
pub fn from_block<N, B>(registry: &mut Registry<N, B>, block: B) -> (r: JsValue)
    ensures
        r.0 == HostValue::Bool(false),
        final(registry).birds() == old(registry).birds(),
        old(registry).issued() < i32::MAX ==> {
            &&& r.1 == old(registry).issued() + 1
            &&& final(registry).blocks() == old(registry).blocks().insert(r.1 as int, block)
            &&& final(registry).issued() == old(registry).issued() + 1
        },
        old(registry).issued() >= i32::MAX ==> {
            &&& r.1 == 0
            &&& final(registry).blocks() == old(registry).blocks()
            &&& final(registry).issued() == old(registry).issued()
        },
{
    proof {
        registry.entities.lemma_live_handles_were_issued();
    }
    let handle = registry.entities.allocate(Entity::Closure(block));
    JsValue::block(handle)
}

/// Resolves a closure handle for one invocation. The closure stays
/// outstanding, so that it can be invoked again until it is freed. A handle
/// that names no live closure (zero, a negative number, a handle that was
/// freed or never issued, the handle of a session) is never followed: it
/// is an error.
pub fn call_block<'a, N, B>(registry: &'a Registry<N, B>, block_ptr: i32) -> (r: Result<
    &'a B,
    String,
>)
    ensures
        match r {
            Ok(block) => registry.has_block(block_ptr) && *block == registry.block(block_ptr),
            Err(e) => !registry.has_block(block_ptr) && e@ == "not a block"@,
        },
{
    match registry.entities.get(block_ptr) {
        Some(Entity::Closure(block)) => Ok(block),
        _ => Err(String::from_str("not a block")),
    }
}

/// Ends the life of the closure that `block_ptr` names. A handle that
/// names no closure changes nothing; no other entity is touched.
pub fn drop_block<N, B>(registry: &mut Registry<N, B>, block_ptr: i32)
    ensures
        final(registry).blocks() == old(registry).blocks().remove(block_ptr as int),
        final(registry).birds() == old(registry).birds(),
        final(registry).issued() == old(registry).issued(),
{
    let names_a_closure = match registry.entities.get(block_ptr) {
        Some(Entity::Closure(_)) => true,
        _ => false,
    };
    if names_a_closure {
        let _ = registry.entities.free(block_ptr);
    }
}

/// After a name is set under a session handle, what [`get_var`] hands out
/// for that handle binds the name to the value, and what [`type_of`] hands
/// to the type checker declares the name with the type that the session
/// declares for the value.
pub proof fn lemma_set_var_then_get_var<N, B>(
    before: Registry<N, B>,
    after: Registry<N, B>,
    handle: i32,
    name: Seq<char>,
    val: JsValue,
    vars: Seq<(String, JsValue)>,
    globals: Seq<(String, Type)>,
)
    requires
        before.has_bird(handle),
        before.bird(handle).valid(),
        after.differs_in_bird_only(before, handle),
        after.bird(handle).is_set_from(before.bird(handle), name, val),
        named(vars) == after.bird(handle).var_bindings(),
        named(globals) == after.bird(handle).type_bindings(),
    ensures
        after.has_bird(handle),
        bindings_map(named(vars)).contains_pair(name, val),
        bindings_map(named(globals)).contains_pair(
            name,
            declared_type(before.bird(handle).typing(), val),
        ),
{
    lemma_set_then_get(before.bird(handle), after.bird(handle), name, val);
}

/// What is bound for one evaluation never reaches the session: a name that
/// only the inputs of [`evaluate`] bind is seen by that evaluation, and is
/// bound by nothing that [`get_var`] hands out of the registry, which the
/// evaluation has left as it was.
pub proof fn lemma_inputs_stay_out_of_vars<N, B>(
    registry: Registry<N, B>,
    handle: i32,
    inputs: Seq<(Seq<char>, JsValue)>,
    name: Seq<char>,
    vars: Seq<(String, JsValue)>,
)
    requires
        registry.has_bird(handle),
        registry.bird(handle).valid(),
        bindings_map(inputs).contains_key(name),
        !registry.bird(handle).values().contains_key(name),
        named(vars) == registry.bird(handle).var_bindings(),
    ensures
        bindings_map(registry.bird(handle).eval_bindings(inputs)).contains_pair(
            name,
            bindings_map(inputs)[name],
        ),
        !bindings_map(named(vars)).contains_key(name),
{
    lemma_inputs_shadow(registry.bird(handle), inputs);
}

/// Sessions are isolated: whatever is done under one session handle, every
/// other session is what it was, and what [`get_var`] hands out for it is
/// what it handed out before.
pub proof fn lemma_sessions_are_isolated<N, B>(
    before: Registry<N, B>,
    after: Registry<N, B>,
    handle: i32,
    other: i32,
    vars_before: Seq<(String, JsValue)>,
    vars_after: Seq<(String, JsValue)>,
)
    requires
        after.differs_in_bird_only(before, handle),
        other != handle,
        before.has_bird(other),
        named(vars_before) == before.bird(other).var_bindings(),
        named(vars_after) == after.bird(other).var_bindings(),
    ensures
        after.has_bird(other),
        after.bird(other) == before.bird(other),
        named(vars_after) == named(vars_before),
{
}

/// What the answer of a host callable amounts to. The host answers with a
/// tagged result: its payload is the value of the call, its message the
/// failure of the call. An answer that could not be read as a tagged
/// result at all is a failure too, with the reader's message.
pub open spec fn host_answer(reply: Result<JsResult<JsValue>, String>) -> Result<JsValue, String> {
    match reply {
        Ok(JsResult::Success(value)) => Ok(value),
        Ok(JsResult::Failure(message)) => Err(message),
        Err(unreadable) => Err(unreadable),
    }
}

/// What a host callable answers comes back to the host as it is, where the
/// interpreter hands on what the call gave: the payload of its answer is
/// the payload of the evaluation, the same value and no copy of another
/// kind, and its message is the message of the evaluation.
pub proof fn lemma_host_answer_comes_back(
    answer: JsResult<JsValue>,
    called: Result<JsValue, String>,
    evaluated: Result<JsValue, String>,
)
    requires
        called == host_answer(Ok(answer)),
        evaluated_as(called, evaluated),
    ensures
        tagged(evaluated) == answer,
{
}

/// Takes the answer of a host callable that was invoked for the
/// interpreter: see [`host_answer`].
pub fn wrap_callback(reply: Result<JsResult<JsValue>, String>) -> (r: Result<JsValue, String>)
    ensures
        r == host_answer(reply),
{
    match reply {
        Ok(JsResult::Success(value)) => Ok(value),
        Ok(JsResult::Failure(message)) => Err(message),
        Err(unreadable) => Err(unreadable),
    }
}

} // verus!
