use crate::player::{DataWrapper, PlayerState};
use crate::text::str_eq;
use std::collections::HashMap;
use vstd::prelude::*;

verus! {

broadcast use vstd::std_specs::hash::group_hash_axioms;

/// One motion sample of an entity. The four numbers are 32-bit floats carried
/// as their IEEE-754 bit patterns.
#[derive(Clone, Copy, Debug, PartialEq, Eq)]
pub struct MotionDataContainer {
    pub x: u32,
    pub y: u32,
    pub x_speed: u32,
    pub y_speed: u32,
    pub animation_state: PlayerState,
    pub facing_right: bool,
}

impl MotionDataContainer {
    pub fn new(
        x: u32,
        y: u32,
        x_speed: u32,
        y_speed: u32,
        animation_state: PlayerState,
        facing_right: bool,
    ) -> (m: Self)
        ensures
            m == (MotionDataContainer { x, y, x_speed, y_speed, animation_state, facing_right }),
    {
        MotionDataContainer { x, y, x_speed, y_speed, animation_state, facing_right }
    }
}

/// A remote call: the name of the function and its parameters.
#[derive(Debug, PartialEq, Eq)]
pub struct RpcCallContainer {
    pub function_name: String,
    pub params: Vec<ObjectType>,
}

/// A value that can travel in a message.
#[derive(Debug, PartialEq, Eq)]
pub enum ObjectType {
    StringMsg(String),
    Integer(i32),
    PlayerMap(HashMap<i32, DataWrapper>),
    Player(DataWrapper),
    MotionData(MotionDataContainer),
    RpcCall(RpcCallContainer),
    AnimationState(PlayerState),
}

/// What an [`ObjectType`] holds, as a mathematical value.
pub enum Value {
    Text(Seq<char>),
    Int(i32),
    EntityMap(Map<i32, DataWrapper>),
    Entity(DataWrapper),
    Motion(MotionDataContainer),
    Rpc(Seq<char>, Seq<Value>),
    Animation(PlayerState),
}

/// What a typed value holds.
pub open spec fn value_of(o: ObjectType) -> Value
    decreases o,
{
    match o {
        ObjectType::StringMsg(s) => Value::Text(s@),
        ObjectType::Integer(i) => Value::Int(i),
        ObjectType::PlayerMap(m) => Value::EntityMap(m@),
        ObjectType::Player(p) => Value::Entity(p),
        ObjectType::MotionData(m) => Value::Motion(m),
        ObjectType::RpcCall(c) => Value::Rpc(c.function_name@, values_of(c.params@)),
        ObjectType::AnimationState(s) => Value::Animation(s),
    }
}

/// The values of a parameter list, in order.
pub open spec fn values_of(params: Seq<ObjectType>) -> Seq<Value>
    decreases params,
{
    if params.len() == 0 {
        Seq::empty()
    } else {
        values_of(params.drop_last()).push(value_of(params.last()))
    }
}

impl View for ObjectType {
    type V = Value;

    open spec fn view(&self) -> Value {
        value_of(*self)
    }
}

impl View for RpcCallContainer {
    type V = (Seq<char>, Seq<Value>);

    open spec fn view(&self) -> (Seq<char>, Seq<Value>) {
        (self.function_name@, values_of(self.params@))
    }
}

/// A parameter list's values are the values of its items, place by place.
pub proof fn lemma_values_of(params: Seq<ObjectType>)
    ensures
        values_of(params).len() == params.len(),
        forall|i: int| 0 <= i < params.len() ==> #[trigger] values_of(params)[i] == params[i]@,
    decreases params.len(),
{
    if params.len() > 0 {
        lemma_values_of(params.drop_last());
    }
}

/// Copies a parameter list, value for value.
pub fn clone_params(params: &Vec<ObjectType>) -> (copy: Vec<ObjectType>)
    ensures
        values_of(copy@) == values_of(params@),
    decreases params,
{
    let mut copy: Vec<ObjectType> = Vec::new();
    let mut i: usize = 0;
    while i < params.len()
        invariant
            i <= params.len(),
            copy.len() == i,
            forall|j: int| 0 <= j < i ==> copy@[j]@ == params@[j]@,
        decreases params.len() - i,
    {
        let item = params[i].clone();
        copy.push(item);
        i += 1;
    }
    proof {
        lemma_values_of(copy@);
        lemma_values_of(params@);
        assert(values_of(copy@) =~= values_of(params@));
    }
    copy
}

impl Clone for RpcCallContainer {
    fn clone(&self) -> (copy: Self)
        ensures
            copy@ == self@,
        decreases self,
    {
        RpcCallContainer {
            function_name: self.function_name.clone(),
            params: clone_params(&self.params),
        }
    }
}

impl Clone for ObjectType {
    fn clone(&self) -> (copy: Self)
        ensures
            copy@ == self@,
        decreases self,
    {
        match self {
            ObjectType::StringMsg(s) => ObjectType::StringMsg(s.clone()),
            ObjectType::Integer(i) => ObjectType::Integer(*i),
            ObjectType::PlayerMap(m) => ObjectType::PlayerMap(m.clone()),
            ObjectType::Player(p) => ObjectType::Player(*p),
            ObjectType::MotionData(m) => ObjectType::MotionData(*m),
            ObjectType::RpcCall(c) => {
                ObjectType::RpcCall(c.clone())
            },
            ObjectType::AnimationState(s) => ObjectType::AnimationState(*s),
        }
    }
}

/// The value stored under `key` in a list of named fields: that of the first
/// entry with this name.
pub open spec fn lookup(entries: Seq<(Seq<char>, Value)>, key: Seq<char>) -> Option<Value>
    decreases entries.len(),
{
    if entries.len() == 0 {
        None
    } else if entries[0].0 == key {
        Some(entries[0].1)
    } else {
        lookup(entries.drop_first(), key)
    }
}

/// The fields `entries` with `value` stored under `key`: in the place of the
/// first entry of that name, or at the end where there is none.
pub open spec fn put(entries: Seq<(Seq<char>, Value)>, key: Seq<char>, value: Value) -> Seq<
    (Seq<char>, Value),
>
    decreases entries.len(),
{
    if entries.len() == 0 {
        seq![(key, value)]
    } else if entries[0].0 == key {
        entries.update(0, (key, value))
    } else {
        seq![entries[0]] + put(entries.drop_first(), key, value)
    }
}

/// Storing under the name of the entry at `i`, the first of that name,
/// replaces that entry.
pub proof fn lemma_put_present(entries: Seq<(Seq<char>, Value)>, i: int, value: Value)
    requires
        0 <= i < entries.len(),
        forall|j: int| 0 <= j < i ==> entries[j].0 != entries[i].0,
    ensures
        put(entries, entries[i].0, value) == entries.update(i, (entries[i].0, value)),
    decreases i,
{
    let key = entries[i].0;
    if i > 0 {
        let rest = entries.drop_first();
        assert(entries[0].0 != key);
        lemma_put_present(rest, i - 1, value);
        assert(seq![entries[0]] + rest.update(i - 1, (key, value)) =~= entries.update(
            i,
            (key, value),
        ));
    }
}

/// Storing under a name that no entry has appends an entry.
pub proof fn lemma_put_absent(entries: Seq<(Seq<char>, Value)>, key: Seq<char>, value: Value)
    requires
        forall|j: int| 0 <= j < entries.len() ==> entries[j].0 != key,
    ensures
        put(entries, key, value) == entries.push((key, value)),
    decreases entries.len(),
{
    if entries.len() == 0 {
        assert(seq![(key, value)] =~= entries.push((key, value)));
    } else {
        let rest = entries.drop_first();
        lemma_put_absent(rest, key, value);
        assert(seq![entries[0]] + rest.push((key, value)) =~= entries.push((key, value)));
    }
}

/// Whether no name occurs twice in a list of named fields.
pub open spec fn distinct_keys(entries: Seq<(Seq<char>, Value)>) -> bool {
    forall|i: int, j: int|
        0 <= i < j < entries.len() ==> (#[trigger] entries[i]).0 != (#[trigger] entries[j]).0
}

/// The named fields of a message: a mapping from text keys to typed values,
/// kept in the order in which the keys were first inserted.
#[derive(Debug, PartialEq, Eq)]
pub struct FieldMap {
    pub(crate) entries: Vec<(String, ObjectType)>,
}

impl FieldMap {
    /// The fields as names and values, in order.
    pub closed spec fn items(&self) -> Seq<(Seq<char>, Value)> {
        Seq::new(self.entries@.len(), |i: int| (self.entries@[i].0@, self.entries@[i].1@))
    }

    /// No key occurs twice.
    pub open spec fn wf(&self) -> bool {
        distinct_keys(self.items())
    }

    /// The value stored under `key`, if any.
    pub open spec fn field(&self, key: Seq<char>) -> Option<Value> {
        lookup(self.items(), key)
    }

    pub fn new() -> (m: Self)
        ensures
            m.items() == Seq::<(Seq<char>, Value)>::empty(),
            m.wf(),
    {
        let m = FieldMap { entries: Vec::new() };
        assert(m.items() =~= Seq::<(Seq<char>, Value)>::empty());
        m
    }

    /// The name of the entry at `index`.
    pub fn key_at(&self, index: usize) -> (key: &str)
        requires
            index < self.items().len(),
        ensures
            key@ == self.items()[index as int].0,
    {
        self.entries[index].0.as_str()
    }

    /// The value of the entry at `index`.
    pub fn value_at(&self, index: usize) -> (value: &ObjectType)
        requires
            index < self.items().len(),
        ensures
            value@ == self.items()[index as int].1,
    {
        &self.entries[index].1
    }

    pub fn len(&self) -> (n: usize)
        ensures
            n == self.items().len(),
    {
        self.entries.len()
    }

    pub fn is_empty(&self) -> (b: bool)
        ensures
            b == (self.items().len() == 0),
    {
        self.entries.len() == 0
    }

    /// The position of `key` among the entries.
    fn position(&self, key: &str) -> (at: Option<usize>)
        ensures
            match at {
                Some(i) => i < self.items().len() && self.items()[i as int].0 == key@
                    && self.field(key@) == Some(self.items()[i as int].1)
                    && forall|j: int| 0 <= j < i ==> self.items()[j].0 != key@,
                None => self.field(key@) is None
                    && forall|j: int| 0 <= j < self.items().len() ==> self.items()[j].0 != key@,
            },
    {
        let mut i: usize = 0;
        while i < self.entries.len()
            invariant
                i <= self.entries.len(),
                forall|j: int| 0 <= j < i ==> self.items()[j].0 != key@,
            decreases self.entries.len() - i,
        {
            if str_eq(self.entries[i].0.as_str(), key) {
                proof {
                    lemma_lookup_first(self.items(), key@, i as int);
                }
                return Some(i);
            }
            i += 1;
        }
        proof {
            lemma_lookup_absent(self.items(), key@);
        }
        None
    }

    pub fn contains_key(&self, key: &str) -> (b: bool)
        ensures
            b == self.field(key@).is_some(),
    {
        self.position(key).is_some()
    }

    pub fn get(&self, key: &str) -> (r: Option<&ObjectType>)
        ensures
            match r {
                Some(v) => self.field(key@) == Some(v@),
                None => self.field(key@) is None,
            },
    {
        match self.position(key) {
            Some(i) => Some(&self.entries[i].1),
            None => None,
        }
    }

    /// Stores `value` under `key`. A key that is present keeps its place and
    /// gets the new value; a new key goes to the end.
    pub fn insert(&mut self, key: String, value: ObjectType)
        ensures
            final(self).items() == put(old(self).items(), key@, value@),
            old(self).wf() ==> final(self).wf(),
            final(self).field(key@) == Some(value@),
            forall|k: Seq<char>| k != key@ ==> final(self).field(k) == old(self).field(k),
            old(self).field(key@) is None ==> final(self).items() == old(self).items().push(
                (key@, value@),
            ),
            old(self).field(key@) is Some ==> final(self).items().len() == old(self).items().len(),
    {
        let ghost before = self.items();
        match self.position(key.as_str()) {
            Some(i) => {
                let ghost kv = (key@, value@);
                self.entries.set(i, (key, value));
                proof {
                    assert(self.items() =~= before.update(i as int, kv));
                    lemma_lookup_update(before, i as int, kv.1);
                    lemma_put_present(before, i as int, kv.1);
                }
            },
            None => {
                let ghost kv = (key@, value@);
                self.entries.push((key, value));
                proof {
                    assert(self.items() =~= before.push(kv));
                    lemma_lookup_absent_all(before, kv.0);
                    lemma_lookup_push(before, kv);
                    lemma_put_absent(before, kv.0, kv.1);
                }
            },
        }
    }
}

/// The first entry named `key` is what `lookup` finds.
pub proof fn lemma_lookup_first(entries: Seq<(Seq<char>, Value)>, key: Seq<char>, i: int)
    requires
        0 <= i < entries.len(),
        entries[i].0 == key,
        forall|j: int| 0 <= j < i ==> entries[j].0 != key,
    ensures
        lookup(entries, key) == Some(entries[i].1),
    decreases i,
{
    if i > 0 {
        lemma_lookup_first(entries.drop_first(), key, i - 1);
    }
}

/// `lookup` finds nothing exactly where no entry has the name.
pub proof fn lemma_lookup_absent(entries: Seq<(Seq<char>, Value)>, key: Seq<char>)
    requires
        forall|j: int| 0 <= j < entries.len() ==> entries[j].0 != key,
    ensures
        lookup(entries, key) is None,
    decreases entries.len(),
{
    if entries.len() > 0 {
        lemma_lookup_absent(entries.drop_first(), key);
    }
}

/// Replacing the value of the first entry of some name changes what `lookup`
/// finds under that name and nothing else, and keeps distinct keys distinct.
pub proof fn lemma_lookup_update(entries: Seq<(Seq<char>, Value)>, i: int, v: Value)
    requires
        0 <= i < entries.len(),
        forall|j: int| 0 <= j < i ==> entries[j].0 != entries[i].0,
    ensures
        distinct_keys(entries) ==> distinct_keys(entries.update(i, (entries[i].0, v))),
        lookup(entries.update(i, (entries[i].0, v)), entries[i].0) == Some(v),
        forall|k: Seq<char>|
            k != entries[i].0 ==> lookup(entries.update(i, (entries[i].0, v)), k) == lookup(
                entries,
                k,
            ),
{
    let key = entries[i].0;
    let after = entries.update(i, (key, v));
    if distinct_keys(entries) {
        assert forall|a: int, b: int| 0 <= a < b < after.len() implies (#[trigger] after[a]).0 != (
        #[trigger] after[b]).0 by {
            assert(entries[a].0 != entries[b].0);
        }
    }
    lemma_lookup_first(after, key, i);
    assert forall|k: Seq<char>| k != key implies lookup(after, k) == lookup(entries, k) by {
        lemma_lookup_same_keys(entries, after, k, i);
    }
}

/// Two lists that differ only at an entry of another name give the same
/// `lookup`.
proof fn lemma_lookup_same_keys(
    a: Seq<(Seq<char>, Value)>,
    b: Seq<(Seq<char>, Value)>,
    k: Seq<char>,
    i: int,
)
    requires
        a.len() == b.len(),
        0 <= i < a.len(),
        a[i].0 != k,
        b[i].0 != k,
        forall|j: int| 0 <= j < a.len() && j != i ==> a[j] == b[j],
    ensures
        lookup(a, k) == lookup(b, k),
    decreases a.len(),
{
    if i == 0 {
        assert(a.drop_first() =~= b.drop_first());
    } else {
        if a[0].0 != k {
            lemma_lookup_same_keys(a.drop_first(), b.drop_first(), k, i - 1);
        }
    }
}

/// Appending an entry with a new name adds it to what `lookup` finds and
/// changes nothing else, and keeps distinct keys distinct.
pub proof fn lemma_lookup_push(entries: Seq<(Seq<char>, Value)>, kv: (Seq<char>, Value))
    requires
        forall|j: int| 0 <= j < entries.len() ==> entries[j].0 != kv.0,
    ensures
        distinct_keys(entries) ==> distinct_keys(entries.push(kv)),
        lookup(entries.push(kv), kv.0) == Some(kv.1),
        forall|k: Seq<char>| k != kv.0 ==> lookup(entries.push(kv), k) == lookup(entries, k),
{
    let after = entries.push(kv);
    lemma_lookup_first(after, kv.0, entries.len() as int);
    assert forall|k: Seq<char>| k != kv.0 implies lookup(after, k) == lookup(entries, k) by {
        lemma_lookup_push_other(entries, kv, k);
    }
}

/// Where `lookup` finds nothing, no entry has the name.
pub proof fn lemma_lookup_absent_all(entries: Seq<(Seq<char>, Value)>, key: Seq<char>)
    requires
        lookup(entries, key) is None,
    ensures
        forall|j: int| 0 <= j < entries.len() ==> entries[j].0 != key,
{
    assert forall|j: int| 0 <= j < entries.len() implies entries[j].0 != key by {
        if entries[j].0 == key {
            lemma_lookup_present(entries, key, j);
        }
    }
}

/// An entry with the name makes `lookup` find something.
pub proof fn lemma_lookup_present(entries: Seq<(Seq<char>, Value)>, key: Seq<char>, j: int)
    requires
        0 <= j < entries.len(),
        entries[j].0 == key,
    ensures
        lookup(entries, key) is Some,
    decreases entries.len(),
{
    if entries[0].0 != key {
        lemma_lookup_present(entries.drop_first(), key, j - 1);
    }
}

proof fn lemma_lookup_push_other(
    entries: Seq<(Seq<char>, Value)>,
    kv: (Seq<char>, Value),
    k: Seq<char>,
)
    requires
        k != kv.0,
    ensures
        lookup(entries.push(kv), k) == lookup(entries, k),
    decreases entries.len(),
{
    let after = entries.push(kv);
    if entries.len() == 0 {
        assert(after.drop_first() =~= entries);
    } else {
        assert(after.drop_first() =~= entries.drop_first().push(kv));
        if entries[0].0 != k {
            lemma_lookup_push_other(entries.drop_first(), kv, k);
        }
    }
}

impl Clone for FieldMap {
    fn clone(&self) -> (copy: Self)
        ensures
            copy.items() == self.items(),
    {
        let mut entries: Vec<(String, ObjectType)> = Vec::new();
        let mut i: usize = 0;
        while i < self.entries.len()
            invariant
                i <= self.entries.len(),
                entries.len() == i,
                forall|j: int|
                    0 <= j < i ==> entries@[j].0@ == self.entries@[j].0@ && entries@[j].1@
                        == self.entries@[j].1@,
            decreases self.entries.len() - i,
        {
            let key = self.entries[i].0.clone();
            let value = self.entries[i].1.clone();
            entries.push((key, value));
            i += 1;
        }
        let copy = FieldMap { entries };
        assert(copy.items() =~= self.items());
        copy
    }
}

/// Why a message cannot be put on the wire.
#[derive(Clone, Copy, Debug, PartialEq, Eq, Structural)]
pub enum MessageError {
    /// The message does not fit the receive buffer of its reader.
    Oversized,
}

/// The routed unit of communication: a target and named fields.
#[derive(Debug, PartialEq, Eq)]
pub struct Message {
    target: i32,
    message_map: FieldMap,
}

impl Message {
    /// The peer the message is addressed to.
    pub closed spec fn target(&self) -> i32 {
        self.target
    }

    /// The named fields.
    pub closed spec fn fields(&self) -> FieldMap {
        self.message_map
    }

    /// The fields as names and values, in order.
    pub open spec fn items(&self) -> Seq<(Seq<char>, Value)> {
        self.fields().items()
    }

    /// The value stored under `key`, if any.
    pub open spec fn field(&self, key: Seq<char>) -> Option<Value> {
        self.fields().field(key)
    }

    /// No key occurs twice.
    pub open spec fn wf(&self) -> bool {
        self.fields().wf()
    }

    pub fn new(target: i32, message: FieldMap) -> (r: Result<Message, MessageError>)
        ensures
            r matches Ok(m) && m.target() == target && m.fields() == message,
    {
        Ok(Message { target, message_map: message })
    }

    pub fn get_target(&self) -> (t: i32)
        ensures
            t == self.target(),
    {
        self.target
    }

    pub fn get_message_map(&self) -> (m: &FieldMap)
        ensures
            *m == self.fields(),
    {
        &self.message_map
    }
}

impl Clone for Message {
    fn clone(&self) -> (copy: Self)
        ensures
            copy.target() == self.target(),
            copy.items() == self.items(),
    {
        Message { target: self.target, message_map: self.message_map.clone() }
    }
}

/// Why a field cannot be read as the kind of value that is asked for.
#[derive(Clone, Copy, Debug, PartialEq, Eq, Structural)]
pub enum FieldError {
    /// No field has the name.
    Missing,
    /// The field holds a value of another kind.
    Mistyped,
}

/// The text in a field.
pub open spec fn text_of(field: Option<Value>) -> Result<Seq<char>, FieldError> {
    match field {
        Some(Value::Text(s)) => Ok(s),
        Some(_) => Err(FieldError::Mistyped),
        None => Err(FieldError::Missing),
    }
}

/// The integer in a field.
pub open spec fn int_of(field: Option<Value>) -> Result<i32, FieldError> {
    match field {
        Some(Value::Int(i)) => Ok(i),
        Some(_) => Err(FieldError::Mistyped),
        None => Err(FieldError::Missing),
    }
}

/// The entity map in a field.
pub open spec fn entity_map_of(field: Option<Value>) -> Result<Map<i32, DataWrapper>, FieldError> {
    match field {
        Some(Value::EntityMap(m)) => Ok(m),
        Some(_) => Err(FieldError::Mistyped),
        None => Err(FieldError::Missing),
    }
}

/// The entity snapshot in a field.
pub open spec fn entity_of(field: Option<Value>) -> Result<DataWrapper, FieldError> {
    match field {
        Some(Value::Entity(w)) => Ok(w),
        Some(_) => Err(FieldError::Mistyped),
        None => Err(FieldError::Missing),
    }
}

/// The motion sample in a field.
pub open spec fn motion_of(field: Option<Value>) -> Result<MotionDataContainer, FieldError> {
    match field {
        Some(Value::Motion(m)) => Ok(m),
        Some(_) => Err(FieldError::Mistyped),
        None => Err(FieldError::Missing),
    }
}

/// The remote call in a field: its name and the values of its parameters.
pub open spec fn rpc_of(field: Option<Value>) -> Result<(Seq<char>, Seq<Value>), FieldError> {
    match field {
        Some(Value::Rpc(name, params)) => Ok((name, params)),
        Some(_) => Err(FieldError::Mistyped),
        None => Err(FieldError::Missing),
    }
}

impl FieldMap {
    /// The text under `key`.
    pub fn text_field(&self, key: &str) -> (r: Result<&String, FieldError>)
        ensures
            match r {
                Ok(s) => text_of(self.field(key@)) == Ok::<Seq<char>, FieldError>(s@),
                Err(e) => text_of(self.field(key@)) == Err::<Seq<char>, FieldError>(e),
            },
    {
        match self.get(key) {
            Some(ObjectType::StringMsg(s)) => Ok(s),
            Some(_) => Err(FieldError::Mistyped),
            None => Err(FieldError::Missing),
        }
    }

    /// The integer under `key`.
    pub fn int_field(&self, key: &str) -> (r: Result<i32, FieldError>)
        ensures
            r == int_of(self.field(key@)),
    {
        match self.get(key) {
            Some(ObjectType::Integer(i)) => Ok(*i),
            Some(_) => Err(FieldError::Mistyped),
            None => Err(FieldError::Missing),
        }
    }

    /// The entity map under `key`.
    pub fn entity_map_field(&self, key: &str) -> (r: Result<&HashMap<i32, DataWrapper>, FieldError>)
        ensures
            match r {
                Ok(m) => entity_map_of(self.field(key@)) == Ok::<Map<i32, DataWrapper>, FieldError>(
                    m@,
                ),
                Err(e) => entity_map_of(self.field(key@)) == Err::<
                    Map<i32, DataWrapper>,
                    FieldError,
                >(e),
            },
    {
        match self.get(key) {
            Some(ObjectType::PlayerMap(m)) => Ok(m),
            Some(_) => Err(FieldError::Mistyped),
            None => Err(FieldError::Missing),
        }
    }

    /// The entity snapshot under `key`.
    pub fn entity_field(&self, key: &str) -> (r: Result<DataWrapper, FieldError>)
        ensures
            r == entity_of(self.field(key@)),
    {
        match self.get(key) {
            Some(ObjectType::Player(w)) => Ok(*w),
            Some(_) => Err(FieldError::Mistyped),
            None => Err(FieldError::Missing),
        }
    }

    /// The motion sample under `key`.
    pub fn motion_field(&self, key: &str) -> (r: Result<MotionDataContainer, FieldError>)
        ensures
            r == motion_of(self.field(key@)),
    {
        match self.get(key) {
            Some(ObjectType::MotionData(m)) => Ok(*m),
            Some(_) => Err(FieldError::Mistyped),
            None => Err(FieldError::Missing),
        }
    }

    /// The remote call under `key`.
    pub fn rpc_field(&self, key: &str) -> (r: Result<&RpcCallContainer, FieldError>)
        ensures
            match r {
                Ok(call) => rpc_of(self.field(key@)) == Ok::<(Seq<char>, Seq<Value>), FieldError>(
                    call@,
                ),
                Err(e) => rpc_of(self.field(key@)) == Err::<(Seq<char>, Seq<Value>), FieldError>(
                    e,
                ),
            },
    {
        match self.get(key) {
            Some(ObjectType::RpcCall(call)) => Ok(call),
            Some(_) => Err(FieldError::Mistyped),
            None => Err(FieldError::Missing),
        }
    }
}

} // verus!
