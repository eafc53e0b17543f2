//! The state machine that every replica runs: a map from keys to values.

use vstd::prelude::*;
use vstd::hash_map::StringHashMap;

use crate::kv::{KVCommand, Op};

verus! {

/// What a command gave.
#[derive(Debug)]
pub enum CommandResult {
    /// A write took place.
    Write,
    /// A read found this.
    Read(Option<String>),
    /// A compare-and-set took place, or did not.
    Cas(bool),
}

/// The mathematical model of a [`CommandResult`].
pub enum Outcome {
    Write,
    Read(Option<Seq<char>>),
    Cas(bool),
}

/// The model of an optional string.
pub open spec fn text_of(s: Option<String>) -> Option<Seq<char>> {
    match s {
        Some(s) => Some(s@),
        None => None,
    }
}

impl View for CommandResult {
    type V = Outcome;

    open spec fn view(&self) -> Outcome {
        match self {
            CommandResult::Write => Outcome::Write,
            CommandResult::Read(value) => Outcome::Read(text_of(*value)),
            CommandResult::Cas(applied) => Outcome::Cas(*applied),
        }
    }
}

/// What a store holds: the value of each key that is set.
pub type Store = Map<Seq<char>, Seq<char>>;

/// The value that a key is set to, if it is set.
pub open spec fn lookup(store: Store, key: Seq<char>) -> Option<Seq<char>> {
    if store.contains_key(key) {
        Some(store[key])
    } else {
        None
    }
}

/// The store after an operation.
pub open spec fn next_store(store: Store, op: Op) -> Store {
    match op {
        Op::Put(key, value) => store.insert(key, value),
        Op::Delete(key) => store.remove(key),
        Op::Get(_) => store,
        Op::Cas(key, from, to) => if lookup(store, key) == Some(from) {
            store.insert(key, to)
        } else {
            store
        },
    }
}

/// What an operation gives on a store.
pub open spec fn outcome(store: Store, op: Op) -> Outcome {
    match op {
        Op::Put(_, _) => Outcome::Write,
        Op::Delete(_) => Outcome::Write,
        Op::Get(key) => Outcome::Read(lookup(store, key)),
        Op::Cas(key, from, _) => Outcome::Cas(lookup(store, key) == Some(from)),
    }
}

/// The store after a sequence of operations, the first one first.
pub open spec fn replay(store: Store, ops: Seq<Op>) -> Store
    decreases ops.len(),
{
    if ops.len() == 0 {
        store
    } else {
        next_store(replay(store, ops.drop_last()), ops.last())
    }
}

/// A key-value store in memory.
pub struct Database {
    db: StringHashMap<String>,
}

impl View for Database {
    type V = Store;

    closed spec fn view(&self) -> Store {
        self.db@.map_values(|s: String| s@)
    }
}

impl Database {
    /// An empty store.
    pub fn new() -> (r: Self)
        ensures
            r@ == Map::<Seq<char>, Seq<char>>::empty(),
    {
        let r = Self { db: StringHashMap::new() };
        assert(r@ =~= Map::<Seq<char>, Seq<char>>::empty());
        r
    }

    /// Applies one command and says what it gave.
    pub fn handle_command(&mut self, command: KVCommand) -> (r: CommandResult)
        ensures
            final(self)@ == next_store(old(self)@, command@),
            r@ == outcome(old(self)@, command@),
    {
        match command {
            KVCommand::Put(key, value) => {
                self.db.insert(key, value);
                assert(self@ =~= old(self)@.insert(key@, value@));
                CommandResult::Write
            },
            KVCommand::Delete(key) => {
                self.db.remove(key.as_str());
                assert(self@ =~= old(self)@.remove(key@));
                CommandResult::Write
            },
            KVCommand::Get(key) => {
                let found = match self.db.get(key.as_str()) {
                    Some(value) => Some(value.clone()),
                    None => None,
                };
                CommandResult::Read(found)
            },
            KVCommand::Cas(key, from, to) => {
                let applied = match self.db.get(key.as_str()) {
                    Some(curr) => *curr == from,
                    None => false,
                };
                if applied {
                    self.db.insert(key, to);
                    assert(self@ =~= old(self)@.insert(key@, to@));
                }
                CommandResult::Cas(applied)
            },
        }
    }
}

/// A read that follows a write of the same key finds what was written.
pub proof fn law_read_finds_what_was_put(store: Store, key: Seq<char>, value: Seq<char>)
    ensures
        outcome(next_store(store, Op::Put(key, value)), Op::Get(key)) == Outcome::Read(
            Some(value),
        ),
{
}

/// A read that follows a delete of the same key finds nothing.
pub proof fn law_read_finds_nothing_after_delete(store: Store, key: Seq<char>)
    ensures
        outcome(next_store(store, Op::Delete(key)), Op::Get(key)) == Outcome::Read(None),
{
}

/// A compare-and-set takes place exactly where a read would have found the value that
/// it expects. A later read of the key finds the new value where it took place, and
/// what it would have found before where it did not.
pub proof fn law_compare_and_set(store: Store, key: Seq<char>, from: Seq<char>, to: Seq<char>)
    ensures
        ({
            let expected = outcome(store, Op::Get(key)) == Outcome::Read(Some(from));
            let after = next_store(store, Op::Cas(key, from, to));
            &&& outcome(store, Op::Cas(key, from, to)) == Outcome::Cas(expected)
            &&& expected ==> outcome(after, Op::Get(key)) == Outcome::Read(Some(to))
            &&& !expected ==> after == store
        }),
{
}

/// An operation changes no key but the one that it names.
pub proof fn law_other_keys_are_kept(store: Store, op: Op, other: Seq<char>)
    requires
        op.key() != other,
    ensures
        lookup(next_store(store, op), other) == lookup(store, other),
{
}

/// A read changes nothing.
pub proof fn law_reads_change_nothing(store: Store, key: Seq<char>)
    ensures
        next_store(store, Op::Get(key)) == store,
{
}

/// Replaying a log in two parts gives the store that replaying it at once gives.
pub proof fn law_replay_in_parts(store: Store, first: Seq<Op>, second: Seq<Op>)
    ensures
        replay(store, first + second) == replay(replay(store, first), second),
    decreases second.len(),
{
    if second.len() == 0 {
        assert(first + second =~= first);
    } else {
        law_replay_in_parts(store, first, second.drop_last());
        assert((first + second).drop_last() =~= first + second.drop_last());
    }
}

/// After a log in which no operation on a key is anything but a read, the key holds what it held.
pub proof fn law_untouched_key(store: Store, ops: Seq<Op>, key: Seq<char>)
    requires
        forall|j: int| 0 <= j < ops.len() ==> (#[trigger] ops[j]).key() != key || ops[j] is Get,
    ensures
        lookup(replay(store, ops), key) == lookup(store, key),
    decreases ops.len(),
{
    if ops.len() > 0 {
        law_untouched_key(store, ops.drop_last(), key);
        assert(ops.last() == ops[ops.len() - 1]);
    }
}

/// After a log, a key holds what the last operation on it that was not a read left there.
pub proof fn law_last_write_wins(store: Store, ops: Seq<Op>, i: int)
    requires
        0 <= i < ops.len(),
        forall|j: int| i < j < ops.len() ==> (#[trigger] ops[j]).key() != ops[i].key() || ops[j] is Get,
    ensures
        lookup(replay(store, ops), ops[i].key()) == lookup(
            next_store(replay(store, ops.take(i)), ops[i]),
            ops[i].key(),
        ),
    decreases ops.len(),
{
    let front = ops.drop_last();
    if i == ops.len() - 1 {
        assert(front =~= ops.take(i));
    } else {
        assert(front[i] == ops[i]);
        assert(front.take(i) =~= ops.take(i));
        law_last_write_wins(store, front, i);
        assert(ops.last() == ops[ops.len() - 1]);
    }
}

/// What a command gave is told apart as a write, a read with what it found, or a compare-and-set
/// with whether it took place.
pub proof fn law_results_stand_for_their_outcomes(value: String, applied: bool)
    ensures
        CommandResult::Write@ == Outcome::Write,
        CommandResult::Read(Some(value))@ == Outcome::Read(Some(value@)),
        CommandResult::Read(None)@ == Outcome::Read(None),
        CommandResult::Cas(applied)@ == Outcome::Cas(applied),
        text_of(Some(value)) == Some(value@),
        text_of(None) is None,
{
}

/// A read finds a value exactly where the store holds that value at the key, and finds nothing
/// exactly where the store holds nothing there.
pub proof fn law_reads_find_what_is_held(store: Store, key: Seq<char>, value: Seq<char>)
    ensures
        outcome(store, Op::Get(key)) == Outcome::Read(Some(value)) <==> store.contains_key(key)
            && store[key] == value,
        outcome(store, Op::Get(key)) == Outcome::Read(None) <==> !store.contains_key(key),
        outcome(store, Op::Get(key)) is Read,
        lookup(store, key) == Some(value) <==> store.contains_key(key) && store[key] == value,
        lookup(store, key) is None <==> !store.contains_key(key),
        outcome(Map::empty(), Op::Get(key)) == Outcome::Read(None),
{
}

/// A put and a delete give a write, whatever the store held; only a compare-and-set tells whether
/// it took place.
pub proof fn law_writes_always_succeed(store: Store, key: Seq<char>, value: Seq<char>)
    ensures
        outcome(store, Op::Put(key, value)) == Outcome::Write,
        outcome(store, Op::Delete(key)) == Outcome::Write,
{
}

/// What a read of one key finds is not changed by an operation on another.
pub proof fn law_reads_of_other_keys_are_kept(
    store: Store,
    key: Seq<char>,
    a: Seq<char>,
    b: Seq<char>,
    other: Seq<char>,
)
    requires
        key != other,
    ensures
        ({
            let read = outcome(store, Op::Get(other));
            &&& outcome(next_store(store, Op::Put(key, a)), Op::Get(other)) == read
            &&& outcome(next_store(store, Op::Delete(key)), Op::Get(other)) == read
            &&& outcome(next_store(store, Op::Cas(key, a, b)), Op::Get(other)) == read
        }),
{
}

/// Replaying nothing changes nothing, and replaying one operation is carrying it out.
pub proof fn law_replay_of_one(store: Store, op: Op)
    ensures
        replay(store, seq![]) == store,
        replay(store, seq![op]) == next_store(store, op),
{
    assert(seq![op].drop_last() =~= Seq::<Op>::empty());
    assert(replay(store, seq![op].drop_last()) == store);
}

} // verus!
