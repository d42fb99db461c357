use crate::message::{values_of, ObjectType, RpcCallContainer, Value};
use crate::player::{Player, PlayerState};
use crate::protocol::ProtocolError;
use crate::text::str_eq;
use vstd::prelude::*;

verus! {

/// What a callable needs handed to it beside the parameters of the call.
#[derive(Clone, Copy, Debug, PartialEq, Eq, Structural)]
pub enum RuntimeParams {
    /// Nothing beside the parameters.
    NoArgs,
    /// The live entity named by the first parameter.
    Player,
}

/// A value handed to a callable beside the parameters of the call.
#[derive(Clone, Copy, Debug, PartialEq, Eq)]
pub enum RuntimeArg {
    /// The live entity that the call acts on.
    Player(Player),
}

impl RuntimeArg {
    /// The entity that the argument holds.
    pub open spec fn player(self) -> Player {
        match self {
            RuntimeArg::Player(p) => p,
        }
    }

    pub fn as_player_mut(&mut self) -> (r: Option<&mut Player>)
        ensures
            r matches Some(p) && *p == old(self).player() && final(self).player() == *final(p),
    {
        match self {
            RuntimeArg::Player(p) => Some(p),
        }
    }
}

/// A function that can be called by name from the other side.
pub trait RpcCallable: Send + Sync {
    /// What the callable needs handed to it: what `get_runtime_params`
    /// returns. Nothing, unless the callable says otherwise.
    open spec fn needs(&self) -> RuntimeParams {
        RuntimeParams::NoArgs
    }

    /// Whether a call with the parameter values `params` may turn the
    /// runtime arguments `before` into `after`. A callable that says nothing
    /// may do anything.
    open spec fn effect(
        &self,
        params: Seq<Value>,
        before: Seq<RuntimeArg>,
        after: Seq<RuntimeArg>,
    ) -> bool {
        true
    }

    fn call(&self, params: Vec<ObjectType>, runtime_args: &mut [RuntimeArg])
        ensures
            final(runtime_args)@.len() == old(runtime_args)@.len(),
            self.effect(values_of(params@), old(runtime_args)@, final(runtime_args)@),
    ;

    fn get_runtime_params(&self) -> (r: RuntimeParams)
        ensures
            r == self.needs(),
    ;
}

/// A callable that takes nothing.
pub struct NoParamFn<F: Fn() + Send + Sync>(F);

impl<F: Fn() + Send + Sync> NoParamFn<F> {
    /// The function can be called.
    #[verifier::type_invariant]
    spec fn callable(&self) -> bool {
        call_requires(self.0, ())
    }

    /// The function that is wrapped.
    pub closed spec fn func(&self) -> F {
        self.0
    }

    pub fn new(f: F) -> (callable: Self)
        requires
            call_requires(f, ()),
        ensures
            callable.func() == f,
    {
        NoParamFn(f)
    }
}

impl<F: Fn() + Send + Sync> RpcCallable for NoParamFn<F> {
    open spec fn needs(&self) -> RuntimeParams {
        RuntimeParams::NoArgs
    }

    /// The function runs once, on nothing; the runtime arguments stay.
    open spec fn effect(
        &self,
        params: Seq<Value>,
        before: Seq<RuntimeArg>,
        after: Seq<RuntimeArg>,
    ) -> bool {
        after == before && call_ensures(self.func(), (), ())
    }

    fn call(&self, _params: Vec<ObjectType>, _runtime_args: &mut [RuntimeArg]) {
        proof {
            use_type_invariant(self);
        }
        (self.0)();
    }

    fn get_runtime_params(&self) -> (r: RuntimeParams) {
        RuntimeParams::NoArgs
    }
}

/// A callable that takes one integer, the first parameter of the call.
pub struct IntParamFn<F: Fn(i32) + Send + Sync>(F);

impl<F: Fn(i32) + Send + Sync> IntParamFn<F> {
    /// The function can be called on every integer.
    #[verifier::type_invariant]
    spec fn callable(&self) -> bool {
        forall|v: i32| call_requires(self.0, (v,))
    }

    /// The function that is wrapped.
    pub closed spec fn func(&self) -> F {
        self.0
    }

    pub fn new(f: F) -> (callable: Self)
        requires
            forall|v: i32| call_requires(f, (v,)),
        ensures
            callable.func() == f,
    {
        IntParamFn(f)
    }
}

impl<F: Fn(i32) + Send + Sync> RpcCallable for IntParamFn<F> {
    open spec fn needs(&self) -> RuntimeParams {
        RuntimeParams::NoArgs
    }

    /// Where the first parameter is an integer the function runs once, on
    /// it; elsewhere it does not run. The runtime arguments stay.
    open spec fn effect(
        &self,
        params: Seq<Value>,
        before: Seq<RuntimeArg>,
        after: Seq<RuntimeArg>,
    ) -> bool {
        after == before && (params.len() > 0 && params[0] is Int ==> call_ensures(
            self.func(),
            (params[0]->Int_0,),
            (),
        ))
    }

    fn call(&self, params: Vec<ObjectType>, _runtime_args: &mut [RuntimeArg]) {
        proof {
            use_type_invariant(self);
            crate::message::lemma_values_of(params@);
        }
        if params.len() > 0 {
            match &params[0] {
                ObjectType::Integer(val) => {
                    (self.0)(*val);
                },
                _ => {},
            }
        }
    }

    fn get_runtime_params(&self) -> (r: RuntimeParams) {
        RuntimeParams::NoArgs
    }
}

/// A callable that acts on a live entity with an animation state, the first
/// parameter of the call that is left once the entity's id is taken off.
pub struct PlayerStateFn<F: Fn(Player, PlayerState) -> Player + Send + Sync>(F);

impl<F: Fn(Player, PlayerState) -> Player + Send + Sync> PlayerStateFn<F> {
    /// The function can be called on every entity and every state.
    #[verifier::type_invariant]
    spec fn callable(&self) -> bool {
        forall|p: Player, s: PlayerState| call_requires(self.0, (p, s))
    }

    /// The function that is wrapped.
    pub closed spec fn func(&self) -> F {
        self.0
    }

    pub fn new(f: F) -> (callable: Self)
        requires
            forall|p: Player, s: PlayerState| call_requires(f, (p, s)),
        ensures
            callable.func() == f,
    {
        PlayerStateFn(f)
    }
}

impl<F: Fn(Player, PlayerState) -> Player + Send + Sync> RpcCallable for PlayerStateFn<F> {
    open spec fn needs(&self) -> RuntimeParams {
        RuntimeParams::Player
    }

    /// Where there is a runtime argument and the first parameter is an
    /// animation state, the entity in the first runtime argument becomes
    /// what the function makes of it; elsewhere nothing changes.
    open spec fn effect(
        &self,
        params: Seq<Value>,
        before: Seq<RuntimeArg>,
        after: Seq<RuntimeArg>,
    ) -> bool {
        if before.len() > 0 && params.len() > 0 && params[0] is Animation {
            &&& after.len() == before.len()
            &&& call_ensures(
                self.func(),
                (before[0].player(), params[0]->Animation_0),
                after[0].player(),
            )
            &&& forall|i: int| 1 <= i < before.len() ==> after[i] == before[i]
        } else {
            after == before
        }
    }

    fn call(&self, params: Vec<ObjectType>, runtime_args: &mut [RuntimeArg]) {
        proof {
            use_type_invariant(self);
            crate::message::lemma_values_of(params@);
        }
        if runtime_args.len() == 0 {
            return;
        }
        if params.len() == 0 {
            return;
        }
        match &params[0] {
            ObjectType::AnimationState(state) => {
                let RuntimeArg::Player(player) = runtime_args[0];
                runtime_args[0] = RuntimeArg::Player((self.0)(player, *state));
            },
            _ => {},
        }
    }

    fn get_runtime_params(&self) -> (r: RuntimeParams) {
        RuntimeParams::Player
    }
}

/// The place of the first of `names`, from `from` on, that is `name`.
pub open spec fn first_named(names: Seq<Seq<char>>, name: Seq<char>, from: int) -> Option<int>
    decreases names.len() - from,
{
    if from < 0 || from >= names.len() {
        None
    } else if names[from] == name {
        Some(from)
    } else {
        first_named(names, name, from + 1)
    }
}

proof fn lemma_first_named_push(names: Seq<Seq<char>>, name: Seq<char>, other: Seq<char>, from: int)
    requires
        0 <= from <= names.len(),
        first_named(names, name, from) is None,
    ensures
        first_named(names.push(name), name, from) == Some(names.len() as int),
        other != name ==> first_named(names.push(name), other, from) == first_named(
            names,
            other,
            from,
        ),
    decreases names.len() - from,
{
    let more = names.push(name);
    if from < names.len() {
        lemma_first_named_push(names, name, other, from + 1);
        assert(more[from] == names[from]);
    } else {
        assert(more[from] == name);
        assert(first_named(more, other, from + 1) is None);
    }
}

/// The functions that can be called by name, each under its name. It is
/// built once, before any message is read, and handed to whoever dispatches.
pub struct RpcTable<C: RpcCallable> {
    entries: Vec<(String, C)>,
}

impl<C: RpcCallable> RpcTable<C> {
    /// The names of the entries, in order.
    spec fn names(&self) -> Seq<Seq<char>> {
        Seq::new(self.entries@.len(), |i: int| self.entries@[i].0@)
    }

    /// The callable registered under `name`, if any.
    pub closed spec fn lookup(&self, name: Seq<char>) -> Option<C> {
        match first_named(self.names(), name, 0) {
            Some(i) => Some(self.entries@[i].1),
            None => None,
        }
    }

    pub fn new() -> (table: Self)
        ensures
            forall|name: Seq<char>| table.lookup(name) is None,
    {
        RpcTable { entries: Vec::new() }
    }

    fn position(&self, name: &str) -> (at: Option<usize>)
        ensures
            match at {
                Some(i) => i < self.entries@.len() && first_named(self.names(), name@, 0) == Some(
                    i as int,
                ) && self.names()[i as int] == name@,
                None => first_named(self.names(), name@, 0) is None,
            },
    {
        let mut i: usize = 0;
        while i < self.entries.len()
            invariant
                i <= self.entries@.len(),
                first_named(self.names(), name@, 0) == first_named(self.names(), name@, i as int),
            decreases self.entries@.len() - i,
        {
            if str_eq(self.entries[i].0.as_str(), name) {
                return Some(i);
            }
            i += 1;
        }
        None
    }

    /// The table with `callable` under `name`, in the place of what was
    /// there under that name.
    pub fn register(self, name: &str, callable: C) -> (table: Self)
        ensures
            table.lookup(name@) == Some(callable),
            forall|other: Seq<char>| other != name@ ==> table.lookup(other) == self.lookup(other),
    {
        let at = self.position(name);
        let ghost old_names = self.names();
        let ghost old_entries = self.entries@;
        let RpcTable { entries: mut entries } = self;
        match at {
            Some(i) => {
                entries.set(i, (name.to_owned(), callable));
                let table = RpcTable { entries };
                proof {
                    assert(table.names() =~= old_names);
                    assert forall|other: Seq<char>| other != name@ implies table.lookup(other)
                        == self.lookup(other) by {
                        match first_named(old_names, other, 0) {
                            Some(j) => {
                                lemma_first_named_is(old_names, other, 0);
                                assert(table.entries@[j] == old_entries[j]);
                            },
                            None => {},
                        }
                    }
                }
                table
            },
            None => {
                entries.push((name.to_owned(), callable));
                let table = RpcTable { entries };
                proof {
                    assert(table.names() =~= old_names.push(name@));
                    assert forall|other: Seq<char>| other != name@ implies table.lookup(other)
                        == self.lookup(other) by {
                        lemma_first_named_push(old_names, name@, other, 0);
                        match first_named(old_names, other, 0) {
                            Some(j) => {
                                lemma_first_named_is(old_names, other, 0);
                                assert(table.entries@[j] == old_entries[j]);
                            },
                            None => {},
                        }
                    }
                    lemma_first_named_push(old_names, name@, name@, 0);
                }
                table
            },
        }
    }

    /// The callable registered under `name`, if any.
    pub fn get(&self, name: &str) -> (r: Option<&C>)
        ensures
            match r {
                Some(c) => self.lookup(name@) == Some(*c),
                None => self.lookup(name@) is None,
            },
    {
        match self.position(name) {
            Some(i) => Some(&self.entries[i].1),
            None => None,
        }
    }
}

/// What `first_named` finds is a place in the list that holds the name.
proof fn lemma_first_named_is(names: Seq<Seq<char>>, name: Seq<char>, from: int)
    requires
        0 <= from,
        first_named(names, name, from) is Some,
    ensures
        from <= first_named(names, name, from)->0 < names.len(),
        names[first_named(names, name, from)->0] == name,
    decreases names.len() - from,
{
    if names[from] != name {
        lemma_first_named_is(names, name, from + 1);
    }
}

/// Calls the function that `call` names with the parameters of `call` and
/// the runtime arguments given. A name that is not registered is refused and
/// nothing is called.
pub fn invoke_rpc<C: RpcCallable>(
    table: &RpcTable<C>,
    call: &RpcCallContainer,
    runtime_args: &mut [RuntimeArg],
) -> (r: Result<(), ProtocolError>)
    ensures
        final(runtime_args)@.len() == old(runtime_args)@.len(),
        match r {
            Ok(_) => table.lookup(call.function_name@) matches Some(c) && c.effect(
                values_of(call.params@),
                old(runtime_args)@,
                final(runtime_args)@,
            ),
            Err(e) => e == ProtocolError::UnknownFunction && table.lookup(call.function_name@)
                is None && final(runtime_args)@ == old(runtime_args)@,
        },
{
    match table.get(call.function_name.as_str()) {
        Some(func) => {
            func.call(crate::message::clone_params(&call.params), runtime_args);
            Ok(())
        },
        None => Err(ProtocolError::UnknownFunction),
    }
}

/// Whether a call is carried out, and why not where it is not: its function
/// must be registered, and where that function needs an entity the first
/// parameter must be an integer and the id of a live entity.
pub open spec fn dispatch_verdict<C: RpcCallable>(
    table: &RpcTable<C>,
    name: Seq<char>,
    params: Seq<Value>,
    players: Map<i32, Player>,
) -> Result<(), ProtocolError> {
    if table.lookup(name) is None {
        Err(ProtocolError::UnknownFunction)
    } else if table.lookup(name)->0.needs() == RuntimeParams::Player {
        if params.len() == 0 || !(params[0] is Int) {
            Err(ProtocolError::MissingEntityParam)
        } else if !players.contains_key(params[0]->Int_0) {
            Err(ProtocolError::UnknownEntity(params[0]->Int_0))
        } else {
            Ok(())
        }
    } else {
        Ok(())
    }
}

/// Whether `after` is what a call of `callable` with the parameter values
/// `params`, once admitted, may make of the live entities `before`.
///
/// A callable that needs nothing is handed all the parameters and no runtime
/// argument, and the entities stay. One that needs an entity is handed the
/// entity that the first parameter names and the parameters that follow the
/// first; that entity becomes what the callable left, and the others stay.
pub open spec fn dispatched<C: RpcCallable>(
    callable: C,
    params: Seq<Value>,
    before: Map<i32, Player>,
    after: Map<i32, Player>,
) -> bool {
    match callable.needs() {
        RuntimeParams::NoArgs => after == before && callable.effect(
            params,
            Seq::empty(),
            Seq::empty(),
        ),
        RuntimeParams::Player => {
            let id = params[0]->Int_0;
            &&& after == before.insert(id, after[id])
            &&& callable.effect(
                params.skip(1),
                seq![RuntimeArg::Player(before[id])],
                seq![RuntimeArg::Player(after[id])],
            )
        },
    }
}

/// The parameters from `from` on, copied value for value.
fn clone_params_from(params: &Vec<ObjectType>, from: usize) -> (copy: Vec<ObjectType>)
    requires
        from <= params@.len(),
    ensures
        values_of(copy@) == values_of(params@).skip(from as int),
{
    let mut copy: Vec<ObjectType> = Vec::new();
    let mut i: usize = from;
    while i < params.len()
        invariant
            from <= i <= params@.len(),
            copy@.len() == i - from,
            forall|j: int| 0 <= j < copy@.len() ==> copy@[j]@ == params@[from + j]@,
        decreases params@.len() - i,
    {
        let item = params[i].clone();
        copy.push(item);
        i += 1;
    }
    proof {
        crate::message::lemma_values_of(copy@);
        crate::message::lemma_values_of(params@);
        assert(values_of(copy@) =~= values_of(params@).skip(from as int));
    }
    copy
}

/// Carries out a remote call on the live entities.
///
/// The function is looked up by name. Where it needs an entity, the first
/// parameter names it: the entity is taken from `players`, handed to the
/// function with the parameters that follow the first, and put back as the
/// function left it. Where it needs none, it gets all the parameters and no
/// runtime argument. A call that is refused changes nothing.
pub fn dispatch_rpc<C: RpcCallable>(
    table: &RpcTable<C>,
    call: &RpcCallContainer,
    players: &mut std::collections::HashMap<i32, Player>,
) -> (r: Result<(), ProtocolError>)
    ensures
        r == dispatch_verdict(table, call.function_name@, values_of(call.params@), old(players)@),
        r is Err ==> final(players)@ == old(players)@,
        r is Ok ==> dispatched(
            table.lookup(call.function_name@)->0,
            values_of(call.params@),
            old(players)@,
            final(players)@,
        ),
{
    broadcast use vstd::std_specs::hash::group_hash_axioms;

    proof {
        crate::message::lemma_values_of(call.params@);
    }
    let func = match table.get(call.function_name.as_str()) {
        Some(func) => func,
        None => { return Err(ProtocolError::UnknownFunction); },
    };
    match func.get_runtime_params() {
        RuntimeParams::NoArgs => {
            let mut args: Vec<RuntimeArg> = Vec::new();
            func.call(crate::message::clone_params(&call.params), args.as_mut_slice());
            assert(args@ =~= Seq::empty());
            Ok(())
        },
        RuntimeParams::Player => {
            if call.params.len() == 0 {
                return Err(ProtocolError::MissingEntityParam);
            }
            let id = match &call.params[0] {
                ObjectType::Integer(id) => *id,
                _ => { return Err(ProtocolError::MissingEntityParam); },
            };
            let player = match players.get(&id) {
                Some(p) => *p,
                None => { return Err(ProtocolError::UnknownEntity(id)); },
            };
            let mut args: Vec<RuntimeArg> = Vec::new();
            args.push(RuntimeArg::Player(player));
            let ghost before = args@;
            func.call(clone_params_from(&call.params, 1), args.as_mut_slice());
            let RuntimeArg::Player(after) = args[0];
            players.insert(id, after);
            proof {
                assert(before =~= seq![RuntimeArg::Player(player)]);
                assert(args@ =~= seq![RuntimeArg::Player(after)]);
            }
            Ok(())
        },
    }
}

} // verus!
