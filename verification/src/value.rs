//! The value adapter: one host value, seen through the capabilities that
//! the interpreter asks of a value (boolean, number, string, timestamp,
//! list, record, callable), and the live views and the iteration bridge
//! that lists and records are read through.

use vstd::prelude::*;
use vstd::std_specs::convert::FromSpecImpl;
use crate::boundary::call_block;
use crate::boundary::Registry;
use crate::host::HostRef;
use crate::host::HostValue;
use crate::host::IterNext;

verus! {

/// A host value together with the handle of the closure that it stands
/// for, if it stands for one. The handle zero marks a value that carries
/// no closure; every other handle marks the value as callable. Whether a
/// call then finds a closure is another matter: see [`call_block_ptr`].
#[derive(Debug, PartialEq)]
pub struct JsValue(pub HostValue, pub i32);

impl Clone for JsValue {
    fn clone(&self) -> (r: Self)
        ensures
            r == *self,
    {
        JsValue(self.0.clone(), self.1)
    }
}

impl From<HostValue> for JsValue {
    fn from(v: HostValue) -> (r: JsValue) {
        JsValue(v, 0)
    }
}

impl FromSpecImpl<HostValue> for JsValue {
    open spec fn obeys_from_spec() -> bool {
        true
    }

    open spec fn from_spec(v: HostValue) -> JsValue {
        JsValue(v, 0)
    }
}

impl From<bool> for JsValue {
    fn from(it: bool) -> (r: JsValue) {
        JsValue(HostValue::Bool(it), 0)
    }
}

impl FromSpecImpl<bool> for JsValue {
    open spec fn obeys_from_spec() -> bool {
        true
    }

    open spec fn from_spec(it: bool) -> JsValue {
        JsValue(HostValue::Bool(it), 0)
    }
}

impl From<String> for JsValue {
    fn from(it: String) -> (r: JsValue) {
        JsValue(HostValue::Text(it), 0)
    }
}

impl FromSpecImpl<String> for JsValue {
    open spec fn obeys_from_spec() -> bool {
        true
    }

    open spec fn from_spec(it: String) -> JsValue {
        JsValue(HostValue::Text(it), 0)
    }
}

impl From<stdweb::Number> for JsValue {
    fn from(it: stdweb::Number) -> (r: JsValue) {
        JsValue(HostValue::Number(it), 0)
    }
}

impl FromSpecImpl<stdweb::Number> for JsValue {
    open spec fn obeys_from_spec() -> bool {
        true
    }

    open spec fn from_spec(it: stdweb::Number) -> JsValue {
        JsValue(HostValue::Number(it), 0)
    }
}

impl From<u64> for JsValue {
    /// A timestamp, from milliseconds since the epoch.
    fn from(ms: u64) -> (r: JsValue) {
        JsValue(HostValue::Time(ms), 0)
    }
}

impl FromSpecImpl<u64> for JsValue {
    open spec fn obeys_from_spec() -> bool {
        true
    }

    open spec fn from_spec(ms: u64) -> JsValue {
        JsValue(HostValue::Time(ms), 0)
    }
}

/// The host values of `items`, in order, without their closure handles.
pub open spec fn host_values(items: Seq<JsValue>) -> Seq<HostValue> {
    Seq::new(items.len(), |i: int| items[i].0)
}

/// The named host values of `pairs`, in order, without their closure
/// handles.
pub open spec fn named_host_values(pairs: Seq<(String, JsValue)>) -> Seq<(String, HostValue)> {
    Seq::new(pairs.len(), |i: int| (pairs[i].0, pairs[i].1.0))
}

impl JsValue {
    /// The value that stands for the closure kept under `handle`.
    pub fn block(handle: i32) -> (r: JsValue)
        ensures
            r == JsValue(HostValue::Bool(false), handle),
    {
        JsValue(HostValue::Bool(false), handle)
    }

    /// What a fresh host array is to be filled with so that it holds
    /// `items`: their host values, one for one and in their order.
    pub fn list_payload(items: Vec<JsValue>) -> (r: Vec<HostValue>)
        ensures
            r@ == host_values(items@),
    {
        let mut r: Vec<HostValue> = Vec::with_capacity(items.len());
        for item in it: items
            invariant
                it.seq() == items@,
                r@ == host_values(items@.take(it.index() as int)),
        {
            r.push(item.0);
        }
        r
    }

    /// What a fresh host object is to be filled with so that it holds
    /// `pairs`: their names and host values, one for one and in the order
    /// in which they are to be inserted.
    pub fn record_payload(pairs: Vec<(String, JsValue)>) -> (r: Vec<(String, HostValue)>)
        ensures
            r@ == named_host_values(pairs@),
    {
        let mut r: Vec<(String, HostValue)> = Vec::with_capacity(pairs.len());
        for pair in it: pairs
            invariant
                it.seq() == pairs@,
                r@ == named_host_values(pairs@.take(it.index() as int)),
        {
            r.push((pair.0, pair.1.0));
        }
        r
    }

    /// The boolean that the value is, or the word that it is none.
    pub fn try_bool(&self) -> (r: Result<bool, String>)
        ensures
            match r {
                Ok(b) => self.0 == HostValue::Bool(b),
                Err(e) => !(self.0 is Bool) && e@ == "not a bool"@,
            },
    {
        match self.0 {
            HostValue::Bool(b) => Ok(b),
            _ => Err(String::from_str("not a bool")),
        }
    }

    /// The text that the value is, or the word that it is none.
    pub fn try_string(&self) -> (r: Result<&str, String>)
        ensures
            match r {
                Ok(s) => self.0 is Text && s@ == self.0->Text_0@,
                Err(e) => !(self.0 is Text) && e@ == "not a string"@,
            },
    {
        match &self.0 {
            HostValue::Text(s) => Ok(s.as_str()),
            _ => Err(String::from_str("not a string")),
        }
    }

    /// The number that the value is, or the word that it is none.
    pub fn try_number(&self) -> (r: Result<stdweb::Number, String>)
        ensures
            match r {
                Ok(n) => self.0 == HostValue::Number(n),
                Err(e) => !(self.0 is Number) && e@ == "not a number"@,
            },
    {
        match self.0 {
            HostValue::Number(n) => Ok(n),
            _ => Err(String::from_str("not a number")),
        }
    }

    /// The timestamp that the value is, in milliseconds since the epoch,
    /// or the word that it is none.
    pub fn try_time(&self) -> (r: Result<u64, String>)
        ensures
            match r {
                Ok(ms) => self.0 == HostValue::Time(ms),
                Err(e) => !(self.0 is Time) && e@ == "not a time"@,
            },
    {
        match self.0 {
            HostValue::Time(ms) => Ok(ms),
            _ => Err(String::from_str("not a time")),
        }
    }

    /// A live view of the host list that the value refers to, or the word
    /// that it refers to none.
    pub fn try_list(&self) -> (r: Result<JsArray, String>)
        ensures
            match r {
                Ok(list) => self.0 == HostValue::List(list.reference()),
                Err(e) => !(self.0 is List) && e@ == "not an array"@,
            },
    {
        match self.0 {
            HostValue::List(reference) => Ok(JsArray(reference)),
            _ => Err(String::from_str("not an array")),
        }
    }

    /// A live view of the host record that the value refers to, or the
    /// word that it refers to none.
    pub fn try_record(&self) -> (r: Result<JsObject, String>)
        ensures
            match r {
                Ok(record) => self.0 == HostValue::Record(record.reference()),
                Err(e) => !(self.0 is Record) && e@ == "not an object"@,
            },
    {
        match self.0 {
            HostValue::Record(reference) => Ok(JsObject(reference)),
            _ => Err(String::from_str("not an object")),
        }
    }

    /// Whether the value carries a closure handle, which is one that is
    /// not zero. The host value beside the handle plays no part.
    pub fn callable(&self) -> (r: bool)
        ensures
            r == (self.1 != 0),
    {
        self.1 != 0
    }

    /// The closure to invoke when the value is called: see
    /// [`call_block_ptr`].
    pub fn try_call<'a, N, B>(&self, registry: &'a Registry<N, B>) -> (r: Result<&'a B, String>)
        ensures
            match r {
                Ok(block) => registry.has_block(self.1) && *block == registry.block(self.1),
                Err(e) => !registry.has_block(self.1) && e@ == "not a block"@,
            },
    {
        call_block_ptr(registry, self.1)
    }
}

/// Resolves the closure that a value carries, for one invocation. A handle
/// that is zero or negative names no closure and is not looked up at all:
/// invoking it is an error, and so is invoking a handle that names no live
/// closure.
pub fn call_block_ptr<'a, N, B>(registry: &'a Registry<N, B>, ptr: i32) -> (r: Result<
    &'a B,
    String,
>)
    ensures
        match r {
            Ok(block) => registry.has_block(ptr) && *block == registry.block(ptr),
            Err(e) => !registry.has_block(ptr) && e@ == "not a block"@,
        },
{
    if ptr <= 0 {
        proof {
            registry.lemma_one_entity_per_handle();
        }
        return Err(String::from_str("not a block"));
    }
    call_block(registry, ptr)
}

/// What a read at the host amounts to: no value where the host said
/// `undefined` or `null`, and else the value, which carries no closure.
pub open spec fn present(value: HostValue) -> Option<JsValue> {
    if value.is_nil() {
        None
    } else {
        Some(JsValue(value, 0))
    }
}

/// Turns what the host handed back for a read into a value or none.
pub fn nil_to_none(value: HostValue) -> (r: Option<JsValue>)
    ensures
        r == present(value),
{
    match value {
        HostValue::Undefined => None,
        HostValue::Null => None,
        some => Some(JsValue(some, 0)),
    }
}

/// What a list of length `len` holds at `key`, where the host handed back
/// `read` for that index.
pub open spec fn element(key: int, len: int, read: HostValue) -> Option<JsValue> {
    if key < len {
        present(read)
    } else {
        None
    }
}

/// A live view of an array-like object at the host. It holds no elements:
/// each read goes to the host, and what the host holds at that moment is
/// what is seen.
#[derive(Debug, Clone, Copy, PartialEq, Eq)]
pub struct JsArray(HostRef);

impl JsArray {
    /// The host object that is viewed.
    pub closed spec fn reference(&self) -> HostRef {
        self.0
    }

    /// The host object to read from.
    pub fn host_ref(&self) -> (r: HostRef)
        ensures
            r == self.reference(),
    {
        self.0
    }

    /// The element at `key`, given the length `len` that the host reports
    /// now and what it handed back for that index: none where the index is
    /// out of range, and none where the host holds `undefined` or `null`
    /// there.
    pub fn at(&self, key: usize, len: usize, read: HostValue) -> (r: Option<JsValue>)
        ensures
            r == element(key as int, len as int, read),
    {
        if key < len {
            nil_to_none(read)
        } else {
            None
        }
    }
}

/// A live view of an object-like keyed collection at the host.
#[derive(Debug, Clone, Copy, PartialEq, Eq)]
pub struct JsObject(HostRef);

impl JsObject {
    /// The host object that is viewed.
    pub closed spec fn reference(&self) -> HostRef {
        self.0
    }

    /// The host object to read from.
    pub fn host_ref(&self) -> (r: HostRef)
        ensures
            r == self.reference(),
    {
        self.0
    }

    /// The value under a key, given what the host handed back for the
    /// lookup: none where it holds `undefined` or `null` there, or nothing
    /// at all.
    pub fn at(&self, read: HostValue) -> (r: Option<JsValue>)
        ensures
            r == present(read),
    {
        nil_to_none(read)
    }
}

/// What an entry of a record amounts to, as the host's iteration hands it
/// out: a name and a value, where the key is text, and nothing where it is
/// not.
pub open spec fn entry(key: HostValue, value: HostValue) -> Option<(String, JsValue)> {
    match key {
        HostValue::Text(name) => Some((name, JsValue(value, 0))),
        _ => None,
    }
}

/// Turns the key and the value that the host handed out for one entry of a
/// record into a name and a value. An entry whose key is not text has no
/// name, and is none.
pub fn pair_to_tuple(key: HostValue, value: HostValue) -> (r: Option<(String, JsValue)>)
    ensures
        r == entry(key, value),
{
    match key {
        HostValue::Text(name) => Some((name, JsValue(value, 0))),
        _ => None,
    }
}

/// What one answer of the host's iteration protocol hands out: the value,
/// unless the host said that the sequence has ended or the step failed.
pub open spec fn handed_out(reply: Result<IterNext, String>) -> Option<HostValue> {
    match reply {
        Ok(next) => if next.done {
            None
        } else {
            Some(next.value)
        },
        Err(_) => None,
    }
}

/// What a bridge hands out for one answer of the host: nothing once it
/// has ended, whatever the answer. It has ended as soon as it hands out
/// nothing.
pub open spec fn bridge_step(finished: bool, reply: Result<IterNext, String>) -> Option<HostValue> {
    if finished {
        None
    } else {
        handed_out(reply)
    }
}

/// What a bridge hands out over successive answers of the host, one entry
/// per answer, from the state `finished`.
pub open spec fn bridge_run(finished: bool, replies: Seq<Result<IterNext, String>>) -> Seq<
    Option<HostValue>,
>
    decreases replies.len(),
{
    if replies.len() == 0 {
        Seq::empty()
    } else {
        let out = bridge_step(finished, replies[0]);
        seq![out] + bridge_run(out is None, replies.skip(1))
    }
}

/// The answers of a host that iterates over `items`: each item in turn,
/// then the word that the sequence has ended.
pub open spec fn host_steps(items: Seq<HostValue>) -> Seq<Result<IterNext, String>> {
    Seq::new(
        items.len() + 1,
        |i: int|
            if i < items.len() {
                Ok(IterNext { value: items[i], done: false })
            } else {
                Ok(IterNext { value: HostValue::Undefined, done: true })
            },
    )
}

/// The iteration bridge: the host's "call next until done" protocol as a
/// sequence of host values that is finite, runs forward only and never
/// starts again. The embedding steps the host's iterator and hands each
/// answer to [`JsIter::next`].
#[derive(Debug)]
pub struct JsIter {
    iter: HostValue,
    finished: bool,
}

impl JsIter {
    /// The host's iterator object.
    pub closed spec fn iterator(&self) -> HostValue {
        self.iter
    }

    /// Whether the sequence has ended.
    pub closed spec fn finished(&self) -> bool {
        self.finished
    }

    /// A bridge over the iterator object that the host handed out for a
    /// collection.
    pub fn new(iter: HostValue) -> (r: JsIter)
        ensures
            r.iterator() == iter,
            !r.finished(),
    {
        JsIter { iter, finished: false }
    }

    /// The host iterator to step next, or none once the sequence has
    /// ended: the host is not asked again after that.
    pub fn pending(&self) -> (r: Option<&HostValue>)
        ensures
            r == (if self.finished() {
                None
            } else {
                Some(&self.iterator())
            }),
    {
        if self.finished {
            None
        } else {
            Some(&self.iter)
        }
    }

    /// Takes the host's answer to one step. A value is handed out; the
    /// word that the sequence is done ends it, and so does a step that
    /// failed, which is not an error here. Once ended, the bridge hands out
    /// nothing, whatever the answer.
    pub fn next(&mut self, reply: Result<IterNext, String>) -> (r: Option<HostValue>)
        ensures
            r == bridge_step(old(self).finished(), reply),
            final(self).finished() == (r is None),
            final(self).iterator() == old(self).iterator(),
    {
        if self.finished {
            return None;
        }
        match reply {
            Err(_) => {
                self.finished = true;
                None
            },
            Ok(next) => if next.done {
                self.finished = true;
                None
            } else {
                Some(next.value)
            },
        }
    }
}

/// A fresh bridge over a host that iterates over `items` hands out exactly
/// the items, in order, and nothing after them, whatever the host answers
/// from then on.
pub proof fn lemma_bridge_hands_out_the_items(
    items: Seq<HostValue>,
    later: Seq<Result<IterNext, String>>,
)
    ensures
        bridge_run(false, host_steps(items) + later) == Seq::new(
            items.len() + 1 + later.len(),
            |i: int|
                if i < items.len() {
                    Some(items[i])
                } else {
                    None
                },
        ),
    decreases items.len(),
{
    let replies = host_steps(items) + later;
    if items.len() == 0 {
        lemma_ended_bridge_stays_ended(replies.skip(1));
    } else {
        let rest = items.skip(1);
        assert(replies.skip(1) =~= host_steps(rest) + later);
        lemma_bridge_hands_out_the_items(rest, later);
    }
}

/// A bridge that has ended hands out nothing, whatever the host answers.
pub proof fn lemma_ended_bridge_stays_ended(replies: Seq<Result<IterNext, String>>)
    ensures
        bridge_run(true, replies) == Seq::new(replies.len(), |i: int| None::<HostValue>),
    decreases replies.len(),
{
    if replies.len() > 0 {
        lemma_ended_bridge_stays_ended(replies.skip(1));
    }
}

/// What a host list that holds `items` hands back for a read at `key`: the
/// item, or `undefined` past the end.
pub open spec fn host_read(items: Seq<HostValue>, key: int) -> HostValue {
    if 0 <= key < items.len() {
        items[key]
    } else {
        HostValue::Undefined
    }
}

/// A host list of primitives reads back through the list view as the same
/// elements in the same order, and as nothing past its end. The view keeps
/// no length of its own: each read goes by what the host holds at that
/// time.
pub proof fn lemma_list_reads_back(items: Seq<HostValue>, key: int)
    requires
        0 <= key,
        forall|i: int| 0 <= i < items.len() ==> items[i].is_primitive(),
    ensures
        element(key, items.len() as int, host_read(items, key)) == (if key < items.len() {
            Some(JsValue(items[key], 0))
        } else {
            None
        }),
{
}

/// The host's `null` and its `undefined` read alike, at every index of a
/// list and under every key of a record: as no value. Nothing else that
/// the host hands back for a read in range reads as no value.
pub proof fn lemma_null_and_undefined_read_alike(key: int, len: int, read: HostValue)
    ensures
        present(HostValue::Null) == None::<JsValue>,
        present(HostValue::Undefined) == None::<JsValue>,
        element(key, len, HostValue::Null) == None::<JsValue>,
        element(key, len, HostValue::Undefined) == None::<JsValue>,
        present(read) is None <==> read.is_nil(),
        key < len ==> (element(key, len, read) is None <==> read.is_nil()),
{
}

} // verus!
