//! The key-value store through which a simulation hands metrics and state
//! to its host. A value is stored with its type, and read back only as
//! that type.

use vstd::prelude::*;
use crate::jiffy::Jiffies;

verus! {

/// A stored value with the type it was stored as.
#[derive(Clone, Copy, Debug, PartialEq, Eq, Structural)]
pub enum Value {
    Unsigned(u64),
    Size(usize),
    Signed(i64),
    Flag(bool),
    Time(Jiffies),
    Sum(Tally),
}

/// A total and the number of samples that make it up.
#[derive(Clone, Copy, Debug, PartialEq, Eq, Structural)]
pub struct Tally {
    pub total: u64,
    pub count: usize,
}

/// A type whose values can be stored.
pub trait Stored: Sized + Copy {
    /// The value with its type attached.
    spec fn wrap(self) -> Value;

    /// The value back, if it was stored as this type.
    spec fn unwrap(v: Value) -> Option<Self>;

    /// What was wrapped as this type unwraps as this type, to itself.
    proof fn lemma_round_trip(self)
        ensures
            Self::unwrap(self.wrap()) == Some(self),
    ;

    fn into_value(self) -> (v: Value)
        ensures
            v == self.wrap(),
    ;

    fn from_value(v: Value) -> (r: Option<Self>)
        ensures
            r == Self::unwrap(v),
    ;
}

impl Stored for u64 {
    open spec fn wrap(self) -> Value {
        Value::Unsigned(self)
    }

    open spec fn unwrap(v: Value) -> Option<u64> {
        match v {
            Value::Unsigned(x) => Some(x),
            _ => None,
        }
    }

    proof fn lemma_round_trip(self) {
    }

    fn into_value(self) -> (v: Value) {
        Value::Unsigned(self)
    }

    fn from_value(v: Value) -> (r: Option<u64>) {
        match v {
            Value::Unsigned(x) => Some(x),
            _ => None,
        }
    }
}

impl Stored for usize {
    open spec fn wrap(self) -> Value {
        Value::Size(self)
    }

    open spec fn unwrap(v: Value) -> Option<usize> {
        match v {
            Value::Size(x) => Some(x),
            _ => None,
        }
    }

    proof fn lemma_round_trip(self) {
    }

    fn into_value(self) -> (v: Value) {
        Value::Size(self)
    }

    fn from_value(v: Value) -> (r: Option<usize>) {
        match v {
            Value::Size(x) => Some(x),
            _ => None,
        }
    }
}

impl Stored for i64 {
    open spec fn wrap(self) -> Value {
        Value::Signed(self)
    }

    open spec fn unwrap(v: Value) -> Option<i64> {
        match v {
            Value::Signed(x) => Some(x),
            _ => None,
        }
    }

    proof fn lemma_round_trip(self) {
    }

    fn into_value(self) -> (v: Value) {
        Value::Signed(self)
    }

    fn from_value(v: Value) -> (r: Option<i64>) {
        match v {
            Value::Signed(x) => Some(x),
            _ => None,
        }
    }
}

impl Stored for bool {
    open spec fn wrap(self) -> Value {
        Value::Flag(self)
    }

    open spec fn unwrap(v: Value) -> Option<bool> {
        match v {
            Value::Flag(x) => Some(x),
            _ => None,
        }
    }

    proof fn lemma_round_trip(self) {
    }

    fn into_value(self) -> (v: Value) {
        Value::Flag(self)
    }

    fn from_value(v: Value) -> (r: Option<bool>) {
        match v {
            Value::Flag(x) => Some(x),
            _ => None,
        }
    }
}

impl Stored for Jiffies {
    open spec fn wrap(self) -> Value {
        Value::Time(self)
    }

    open spec fn unwrap(v: Value) -> Option<Jiffies> {
        match v {
            Value::Time(x) => Some(x),
            _ => None,
        }
    }

    proof fn lemma_round_trip(self) {
    }

    fn into_value(self) -> (v: Value) {
        Value::Time(self)
    }

    fn from_value(v: Value) -> (r: Option<Jiffies>) {
        match v {
            Value::Time(x) => Some(x),
            _ => None,
        }
    }
}

impl Stored for Tally {
    open spec fn wrap(self) -> Value {
        Value::Sum(self)
    }

    open spec fn unwrap(v: Value) -> Option<Tally> {
        match v {
            Value::Sum(x) => Some(x),
            _ => None,
        }
    }

    proof fn lemma_round_trip(self) {
    }

    fn into_value(self) -> (v: Value) {
        Value::Sum(self)
    }

    fn from_value(v: Value) -> (r: Option<Tally>) {
        match v {
            Value::Sum(x) => Some(x),
            _ => None,
        }
    }
}

/// One binding of the store.
pub struct Entry {
    pub key: String,
    pub value: Value,
}

/// No two entries have the same key.
pub open spec fn distinct_keys(s: Seq<Entry>) -> bool {
    forall|i: int, j: int|
        0 <= i < s.len() && 0 <= j < s.len() && (#[trigger] s[i]).key@ == (#[trigger] s[j]).key@
            ==> i == j
}

/// Some entry of `s` has the key `k`.
pub open spec fn binds(s: Seq<Entry>, k: Seq<char>) -> bool {
    exists|i: int| 0 <= i < s.len() && (#[trigger] s[i]).key@ == k
}

/// The position of an entry of `s` with the key `k`.
pub open spec fn position(s: Seq<Entry>, k: Seq<char>) -> int {
    choose|i: int| 0 <= i < s.len() && (#[trigger] s[i]).key@ == k
}

/// The bindings of `s` as a map.
pub open spec fn bindings(s: Seq<Entry>) -> Map<Seq<char>, Value> {
    Map::new(|k: Seq<char>| binds(s, k), |k: Seq<char>| s[position(s, k)].value)
}

/// `m` binds `key` to a value that was stored as a `T`.
pub open spec fn holds<T: Stored>(m: Map<Seq<char>, Value>, key: Seq<char>) -> bool {
    m.contains_key(key) && T::unwrap(m[key]) is Some
}

/// A store of typed values under string keys.
pub struct AnyKv {
    entries: Vec<Entry>,
}

impl View for AnyKv {
    type V = Map<Seq<char>, Value>;

    closed spec fn view(&self) -> Map<Seq<char>, Value> {
        bindings(self.entries@)
    }
}

impl AnyKv {
    /// No key is bound twice.
    pub closed spec fn wf(&self) -> bool {
        distinct_keys(self.entries@)
    }

    /// An empty store.
    pub fn new() -> (kv: AnyKv)
        ensures
            kv.wf(),
            kv@ == Map::<Seq<char>, Value>::empty(),
    {
        let kv = AnyKv { entries: Vec::new() };
        assert(kv@ =~= Map::<Seq<char>, Value>::empty());
        kv
    }

    /// The number of bindings.
    pub fn len(&self) -> (n: usize)
        requires
            self.wf(),
        ensures
            n == self@.dom().len(),
            self@.dom().finite(),
    {
        proof {
            lemma_bindings_len(self.entries@);
        }
        self.entries.len()
    }

    fn find(&self, key: &String) -> (r: Option<usize>)
        ensures
            match r {
                Some(i) => i < self.entries.len() && self.entries@[i as int].key@ == key@,
                None => !binds(self.entries@, key@),
            },
    {
        let mut i: usize = 0;
        while i < self.entries.len()
            invariant
                i <= self.entries.len(),
                forall|j: int| 0 <= j < i ==> (#[trigger] self.entries@[j]).key@ != key@,
            decreases self.entries.len() - i,
        {
            if self.entries[i].key == *key {
                return Some(i);
            }
            i = i + 1;
        }
        None
    }
}

proof fn lemma_bindings_len(s: Seq<Entry>)
    requires
        distinct_keys(s),
    ensures
        bindings(s).dom().finite(),
        bindings(s).dom().len() == s.len(),
    decreases s.len(),
{
    if s.len() == 0 {
        assert(bindings(s).dom() =~= Set::<Seq<char>>::empty());
    } else {
        let shorter = s.drop_last();
        let k = s.last().key@;
        assert forall|i: int, j: int|
            0 <= i < shorter.len() && 0 <= j < shorter.len() && (#[trigger] shorter[i]).key@ == (
            #[trigger] shorter[j]).key@ implies i == j by {
            assert(shorter[i] == s[i] && shorter[j] == s[j]);
        }
        lemma_bindings_len(shorter);
        assert(!binds(shorter, k)) by {
            if binds(shorter, k) {
                let i = position(shorter, k);
                assert(shorter[i] == s[i]);
                assert(s[s.len() - 1].key@ == k);
            }
        }
        assert(bindings(s).dom() =~= bindings(shorter).dom().insert(k)) by {
            assert forall|q: Seq<char>| bindings(s).dom().contains(q) implies bindings(
                shorter,
            ).dom().insert(k).contains(q) by {
                let i = position(s, q);
                if i < shorter.len() {
                    assert(shorter[i] == s[i]);
                }
            }
            assert forall|q: Seq<char>| bindings(shorter).dom().insert(k).contains(
                q,
            ) implies bindings(s).dom().contains(q) by {
                if q == k {
                    assert(s[s.len() - 1].key@ == k);
                } else {
                    let i = position(shorter, q);
                    assert(shorter[i] == s[i]);
                }
            }
        }
    }
}

/// Binds `key` to `value`, in place of what it was bound to before.
pub fn set<T: Stored>(kv: &mut AnyKv, key: &str, value: T)
    requires
        old(kv).wf(),
    ensures
        final(kv).wf(),
        final(kv)@ == old(kv)@.insert(key@, value.wrap()),
{
    let owned = key.to_owned();
    let wrapped = value.into_value();
    let ghost before = kv.entries@;
    match kv.find(&owned) {
        Some(i) => {
            let ghost after = before.update(i as int, Entry { key: owned, value: wrapped });
            proof {
                assert forall|a: int, b: int|
                    0 <= a < after.len() && 0 <= b < after.len() && (#[trigger] after[a]).key@ == (
                    #[trigger] after[b]).key@ implies a == b by {
                    assert(after[a].key@ == before[a].key@);
                    assert(after[b].key@ == before[b].key@);
                }
                assert(bindings(after) =~= bindings(before).insert(key@, wrapped)) by {
                    assert forall|q: Seq<char>| binds(after, q) == (binds(before, q) || q
                        == key@) by {
                        if binds(after, q) {
                            let a = position(after, q);
                            assert(before[a].key@ == after[a].key@);
                        }
                        if binds(before, q) {
                            let a = position(before, q);
                            assert(after[a].key@ == before[a].key@);
                        }
                        if q == key@ {
                            assert(after[i as int].key@ == q);
                        }
                    }
                    assert forall|q: Seq<char>| binds(after, q) implies #[trigger] bindings(
                        after,
                    )[q] == bindings(before).insert(key@, wrapped)[q] by {
                        let a = position(after, q);
                        assert(after[a].key@ == before[a].key@);
                        if q == key@ {
                            assert(after[i as int].key@ == after[a].key@);
                            assert(a == i);
                        } else {
                            let b = position(before, q);
                            assert(after[b].key@ == before[b].key@);
                            assert(after[a].key@ == after[b].key@);
                            assert(a == b);
                        }
                    }
                }
            }
            kv.entries[i] = Entry { key: owned, value: wrapped };
            assert(kv.entries@ =~= after);
        },
        None => {
            let ghost after = before.push(Entry { key: owned, value: wrapped });
            proof {
                assert forall|a: int, b: int|
                    0 <= a < after.len() && 0 <= b < after.len() && (#[trigger] after[a]).key@ == (
                    #[trigger] after[b]).key@ implies a == b by {
                    if a < before.len() {
                        assert(after[a] == before[a]);
                    }
                    if b < before.len() {
                        assert(after[b] == before[b]);
                    }
                }
                assert(bindings(after) =~= bindings(before).insert(key@, wrapped)) by {
                    assert forall|q: Seq<char>| binds(after, q) == (binds(before, q) || q
                        == key@) by {
                        if binds(after, q) {
                            let a = position(after, q);
                            if a < before.len() {
                                assert(after[a] == before[a]);
                            }
                        }
                        if binds(before, q) {
                            let a = position(before, q);
                            assert(after[a] == before[a]);
                        }
                        if q == key@ {
                            assert(after[before.len() as int].key@ == q);
                        }
                    }
                    assert forall|q: Seq<char>| binds(after, q) implies #[trigger] bindings(
                        after,
                    )[q] == bindings(before).insert(key@, wrapped)[q] by {
                        let a = position(after, q);
                        if q == key@ {
                            assert(after[before.len() as int].key@ == after[a].key@);
                        } else {
                            let b = position(before, q);
                            assert(after[b] == before[b]);
                            assert(after[a].key@ == after[b].key@);
                        }
                    }
                }
            }
            kv.entries.push(Entry { key: owned, value: wrapped });
        },
    }
}

/// Whether `key` is bound to a value that was stored as a `T`.
pub fn has<T: Stored>(kv: &AnyKv, key: &str) -> (b: bool)
    requires
        kv.wf(),
    ensures
        b == holds::<T>(kv@, key@),
{
    let owned = key.to_owned();
    match kv.find(&owned) {
        Some(i) => {
            proof {
                let p = position(kv.entries@, key@);
                assert(kv.entries@[p].key@ == kv.entries@[i as int].key@);
            }
            T::from_value(kv.entries[i].value).is_some()
        },
        None => false,
    }
}

/// A copy of the value that `key` is bound to. The key is bound, and to a
/// value that was stored as a `T`.
pub fn get<T: Stored>(kv: &AnyKv, key: &str) -> (r: T)
    requires
        kv.wf(),
        holds::<T>(kv@, key@),
    ensures
        Some(r) == T::unwrap(kv@[key@]),
{
    let owned = key.to_owned();
    match kv.find(&owned) {
        Some(i) => {
            proof {
                let p = position(kv.entries@, key@);
                assert(kv.entries@[p].key@ == kv.entries@[i as int].key@);
            }
            match T::from_value(kv.entries[i].value) {
                Some(v) => v,
                None => {
                    proof {
                        assert(false);
                    }
                    unreached()
                },
            }
        },
        None => {
            proof {
                assert(false);
            }
            unreached()
        },
    }
}

/// Replaces the value that `key` is bound to by what `f` makes of it. The
/// key is bound, and to a value that was stored as a `T`.
pub fn modify<T: Stored, F: FnOnce(T) -> T>(kv: &mut AnyKv, key: &str, f: F)
    requires
        old(kv).wf(),
        holds::<T>(old(kv)@, key@),
        f.requires((T::unwrap(old(kv)@[key@]).unwrap(),)),
    ensures
        final(kv).wf(),
        exists|changed: T|
            f.ensures((T::unwrap(old(kv)@[key@]).unwrap(),), changed) && final(kv)@ == old(
                kv,
            )@.insert(key@, #[trigger] changed.wrap()),
{
    let current: T = get(&*kv, key);
    let changed = f(current);
    set(kv, key, changed);
}

/// Empties the store.
pub fn drop_anykv(kv: &mut AnyKv)
    ensures
        final(kv).wf(),
        final(kv)@ == Map::<Seq<char>, Value>::empty(),
{
    kv.entries = Vec::new();
    assert(kv@ =~= Map::<Seq<char>, Value>::empty());
}

/// What was set under a key is what is got under it, as the same type.
pub proof fn law_set_then_get<T: Stored>(m: Map<Seq<char>, Value>, key: Seq<char>, value: T)
    ensures
        holds::<T>(m.insert(key, value.wrap()), key),
        T::unwrap(m.insert(key, value.wrap())[key]) == Some(value),
{
    value.lemma_round_trip();
}

} // verus!
