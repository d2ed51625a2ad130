//! A checkpoint's metadata: a flat map from keys to values of GGUF's own
//! types. A float is carried by its IEEE-754 bits; what it means is the
//! loader's business, since nothing decided here reads one.
use vstd::prelude::*;

use crate::text::str_eq;

verus! {

/// One metadata value, as GGUF stores them.
#[derive(Debug, PartialEq)]
pub enum MetaValue {
    U8(u8),
    I8(i8),
    U16(u16),
    I16(i16),
    U32(u32),
    I32(i32),
    U64(u64),
    I64(i64),
    /// An `f32`, by its bits.
    F32(u32),
    /// An `f64`, by its bits.
    F64(u64),
    Bool(bool),
    Str(String),
    Array(Vec<MetaValue>),
}

/// Any integer, widened; a negative one is none. GGUF writers are
/// inconsistent about whether a count is `u32` or `u64`.
pub open spec fn u64_of(v: MetaValue) -> Option<u64> {
    match v {
        MetaValue::U8(x) => Some(x as u64),
        MetaValue::U16(x) => Some(x as u64),
        MetaValue::U32(x) => Some(x as u64),
        MetaValue::U64(x) => Some(x),
        MetaValue::I8(x) => if x >= 0 {
            Some(x as u64)
        } else {
            None
        },
        MetaValue::I16(x) => if x >= 0 {
            Some(x as u64)
        } else {
            None
        },
        MetaValue::I32(x) => if x >= 0 {
            Some(x as u64)
        } else {
            None
        },
        MetaValue::I64(x) => if x >= 0 {
            Some(x as u64)
        } else {
            None
        },
        _ => None,
    }
}

impl MetaValue {
    pub fn as_u64(&self) -> (r: Option<u64>)
        ensures
            r == u64_of(*self),
    {
        match self {
            MetaValue::U8(x) => Some(*x as u64),
            MetaValue::U16(x) => Some(*x as u64),
            MetaValue::U32(x) => Some(*x as u64),
            MetaValue::U64(x) => Some(*x),
            MetaValue::I8(x) => if *x >= 0 {
                Some(*x as u64)
            } else {
                None
            },
            MetaValue::I16(x) => if *x >= 0 {
                Some(*x as u64)
            } else {
                None
            },
            MetaValue::I32(x) => if *x >= 0 {
                Some(*x as u64)
            } else {
                None
            },
            MetaValue::I64(x) => if *x >= 0 {
                Some(*x as u64)
            } else {
                None
            },
            _ => None,
        }
    }

    pub fn as_str(&self) -> (r: Option<&str>)
        ensures
            match *self {
                MetaValue::Str(s) => r matches Some(x) && x@ == s@,
                _ => r is None,
            },
    {
        match self {
            MetaValue::Str(s) => Some(s.as_str()),
            _ => None,
        }
    }

    pub fn as_bool(&self) -> (r: Option<bool>)
        ensures
            match *self {
                MetaValue::Bool(b) => r == Some(b),
                _ => r is None,
            },
    {
        match self {
            MetaValue::Bool(b) => Some(*b),
            _ => None,
        }
    }

    pub fn as_array(&self) -> (r: Option<&[MetaValue]>)
        ensures
            match *self {
                MetaValue::Array(a) => r matches Some(x) && x@ == a@,
                _ => r is None,
            },
    {
        match self {
            MetaValue::Array(a) => Some(a.as_slice()),
            _ => None,
        }
    }
}

/// The map a sequence of writes leaves: a later write to a key replaces
/// an earlier one.
pub open spec fn entries_map(s: Seq<(String, MetaValue)>) -> Map<Seq<char>, MetaValue>
    decreases s.len(),
{
    if s.len() == 0 {
        Map::empty()
    } else {
        entries_map(s.drop_last()).insert(s.last().0@, s.last().1)
    }
}

/// Dropping one write to `k` leaves the map without `k` as it was.
proof fn lemma_remove_entry(s: Seq<(String, MetaValue)>, i: int, k: Seq<char>)
    requires
        0 <= i < s.len(),
        s[i].0@ == k,
    ensures
        entries_map(s.remove(i)).remove(k) == entries_map(s).remove(k),
    decreases s.len(),
{
    if i == s.len() - 1 {
        assert(s.remove(i) =~= s.drop_last());
        assert(entries_map(s.remove(i)).remove(k) =~= entries_map(s).remove(k));
    } else {
        let x = s.remove(i);
        assert(x.drop_last() =~= s.drop_last().remove(i));
        assert(x.last() == s.last());
        lemma_remove_entry(s.drop_last(), i, k);
        let l = s.last();
        assert(entries_map(x) == entries_map(x.drop_last()).insert(l.0@, l.1));
        assert(entries_map(s) == entries_map(s.drop_last()).insert(l.0@, l.1));
        if l.0@ == k {
            assert(entries_map(x).remove(k) =~= entries_map(x.drop_last()).remove(k));
            assert(entries_map(s).remove(k) =~= entries_map(s.drop_last()).remove(k));
        } else {
            assert(entries_map(x).remove(k) =~= entries_map(x.drop_last()).remove(k).insert(l.0@, l.1));
            assert(entries_map(s).remove(k) =~= entries_map(s.drop_last()).remove(k).insert(l.0@, l.1));
        }
    }
}

/// No write to `k`, no `k`.
proof fn lemma_absent(s: Seq<(String, MetaValue)>, k: Seq<char>)
    requires
        forall|j: int| 0 <= j < s.len() ==> s[j].0@ != k,
    ensures
        !entries_map(s).contains_key(k),
    decreases s.len(),
{
    if s.len() > 0 {
        lemma_absent(s.drop_last(), k);
    }
}

/// The flat key → value map a checkpoint carries.
#[derive(Debug)]
pub struct Metadata {
    entries: Vec<(String, MetaValue)>,
}

impl View for Metadata {
    type V = Map<Seq<char>, MetaValue>;

    closed spec fn view(&self) -> Map<Seq<char>, MetaValue> {
        entries_map(self.entries@)
    }
}

impl Metadata {
    pub fn new() -> (m: Metadata)
        ensures
            m@ == Map::<Seq<char>, MetaValue>::empty(),
    {
        Metadata { entries: Vec::new() }
    }

    /// Set `key` to `value`, replacing what it held.
    pub fn insert(&mut self, key: String, value: MetaValue)
        ensures
            final(self)@ == old(self)@.insert(key@, value),
    {
        let ghost before = self.entries@;
        self.entries.push((key, value));
        assert(self.entries@.drop_last() =~= before);
    }

    /// Unset `key`.
    pub fn remove(&mut self, key: &str)
        ensures
            final(self)@ == old(self)@.remove(key@),
    {
        let ghost e = self.entries@;
        let mut i: usize = 0;
        while i < self.entries.len()
            invariant
                i <= self.entries@.len(),
                entries_map(self.entries@).remove(key@) == entries_map(e).remove(key@),
                forall|j: int| 0 <= j < i ==> self.entries@[j].0@ != key@,
            decreases self.entries@.len() - i,
        {
            if str_eq(self.entries[i].0.as_str(), key) {
                proof {
                    lemma_remove_entry(self.entries@, i as int, key@);
                }
                let _ = self.entries.remove(i);
            } else {
                i += 1;
            }
        }
        proof {
            lemma_absent(self.entries@, key@);
        }
        assert(entries_map(self.entries@) =~= entries_map(e).remove(key@));
    }

    /// The value of `key`, if it is set.
    pub fn get(&self, key: &str) -> (r: Option<&MetaValue>)
        ensures
            match r {
                Some(v) => self@.contains_key(key@) && *v == self@[key@],
                None => !self@.contains_key(key@),
            },
    {
        let ghost e = self.entries@;
        let mut i: usize = self.entries.len();
        assert(e.take(i as int) =~= e);
        while i > 0
            invariant
                i <= e.len(),
                e == self.entries@,
                entries_map(e).contains_key(key@) == entries_map(e.take(i as int)).contains_key(key@),
                entries_map(e).contains_key(key@) ==> entries_map(e)[key@] == entries_map(
                    e.take(i as int),
                )[key@],
            decreases i,
        {
            assert(e.take(i as int).drop_last() =~= e.take(i - 1));
            assert(e.take(i as int).last() == e[i - 1]);
            if str_eq(self.entries[i - 1].0.as_str(), key) {
                return Some(&self.entries[i - 1].1);
            }
            i -= 1;
        }
        None
    }
}

} // verus!
