//! Tool parameters as plain values: the fields of a tool call's JSON
//! object that the library's logic reads.

use vstd::prelude::*;
use crate::text::{chars_eq, chars_of, owned, push_str, string_from};

verus! {

/// The value of one parameter of a tool call.
pub enum ParamValue {
    /// A JSON string.
    Str(String),
    /// A JSON boolean.
    Bool(bool),
    /// A JSON number that is a non-negative integer fitting in `u64`.
    UInt(u64),
    /// A JSON array; only its string elements are kept, in order.
    StrList(Vec<String>),
    /// Any other JSON value (null, object, negative or fractional number).
    Other,
}

/// One named parameter.
pub struct ParamEntry {
    pub key: String,
    pub value: ParamValue,
}

/// The parameters of a tool call: a JSON object as a list of entries.
/// When a key occurs more than once, the last entry wins, as a later
/// insertion into a JSON object replaces an earlier one.
pub struct ToolParams {
    pub entries: Vec<ParamEntry>,
}

/// The value stored under `key`, the last entry with that key winning.
pub open spec fn lookup(entries: Seq<ParamEntry>, key: Seq<char>) -> Option<ParamValue>
    decreases entries.len(),
{
    if entries.len() == 0 {
        None
    } else if entries.last().key@ == key {
        Some(entries.last().value)
    } else {
        lookup(entries.drop_last(), key)
    }
}

/// The error of a tool whose required string parameter `key` is missing.
pub open spec fn missing_param_message(key: Seq<char>) -> Seq<char> {
    "Missing '"@ + key + "' parameter"@
}

/// The string stored under `key` (`params[key].as_str()`).
pub open spec fn str_param(entries: Seq<ParamEntry>, key: Seq<char>) -> Option<Seq<char>> {
    match lookup(entries, key) {
        Some(ParamValue::Str(s)) => Some(s@),
        _ => None,
    }
}

/// The boolean stored under `key` (`params[key].as_bool()`).
pub open spec fn bool_param(entries: Seq<ParamEntry>, key: Seq<char>) -> Option<bool> {
    match lookup(entries, key) {
        Some(ParamValue::Bool(b)) => Some(b),
        _ => None,
    }
}

/// The integer stored under `key` (`params[key].as_u64()`).
pub open spec fn uint_param(entries: Seq<ParamEntry>, key: Seq<char>) -> Option<u64> {
    match lookup(entries, key) {
        Some(ParamValue::UInt(n)) => Some(n),
        _ => None,
    }
}

/// The string elements of the array stored under `key`
/// (`params[key].as_array()` with its strings kept).
pub open spec fn list_param(entries: Seq<ParamEntry>, key: Seq<char>) -> Option<Seq<String>> {
    match lookup(entries, key) {
        Some(ParamValue::StrList(v)) => Some(v@),
        _ => None,
    }
}

impl ToolParams {
    /// Parameters with no entries (the JSON object `{}`).
    pub fn new() -> (r: ToolParams)
        ensures
            r.entries@.len() == 0,
    {
        ToolParams { entries: Vec::new() }
    }

    /// These parameters with `key` set to `value`.
    pub fn with(self, key: &str, value: ParamValue) -> (r: ToolParams)
        ensures
            r.entries@.len() == self.entries@.len() + 1,
            r.entries@.drop_last() == self.entries@,
            r.entries@.last().key@ == key@,
            r.entries@.last().value == value,
            lookup(r.entries@, key@) == Some(value),
    {
        let mut entries = self.entries;
        entries.push(ParamEntry { key: owned(key), value });
        assert(entries@.drop_last() =~= self.entries@);
        ToolParams { entries }
    }

    /// These parameters with `key` set to the string `value`.
    pub fn with_str(self, key: &str, value: &str) -> (r: ToolParams)
        ensures
            str_param(r.entries@, key@) == Some(value@),
            r.entries@.drop_last() == self.entries@,
            r.entries@.len() == self.entries@.len() + 1,
    {
        self.with(key, ParamValue::Str(owned(value)))
    }

    /// These parameters with `key` set to the boolean `value`.
    pub fn with_bool(self, key: &str, value: bool) -> (r: ToolParams)
        ensures
            bool_param(r.entries@, key@) == Some(value),
            r.entries@.drop_last() == self.entries@,
            r.entries@.len() == self.entries@.len() + 1,
    {
        self.with(key, ParamValue::Bool(value))
    }

    /// These parameters with `key` set to the integer `value`.
    pub fn with_u64(self, key: &str, value: u64) -> (r: ToolParams)
        ensures
            uint_param(r.entries@, key@) == Some(value),
            r.entries@.drop_last() == self.entries@,
            r.entries@.len() == self.entries@.len() + 1,
    {
        self.with(key, ParamValue::UInt(value))
    }

    /// These parameters with `key` set to an array of the strings `values`.
    pub fn with_list(self, key: &str, values: Vec<String>) -> (r: ToolParams)
        ensures
            list_param(r.entries@, key@) == Some(values@),
            r.entries@.drop_last() == self.entries@,
            r.entries@.len() == self.entries@.len() + 1,
    {
        self.with(key, ParamValue::StrList(values))
    }

    /// The value stored under `key`.
    pub fn get(&self, key: &str) -> (r: Option<&ParamValue>)
        ensures
            match r {
                Some(v) => lookup(self.entries@, key@) == Some(*v),
                None => lookup(self.entries@, key@) is None,
            },
    {
        let k = chars_of(key);
        let mut n: usize = self.entries.len();
        assert(self.entries@.subrange(0, n as int) =~= self.entries@);
        while n > 0
            invariant
                n <= self.entries@.len(),
                k@ == key@,
                lookup(self.entries@, key@) == lookup(self.entries@.subrange(0, n as int), key@),
            decreases n,
        {
            let ek = chars_of(self.entries[n - 1].key.as_str());
            let ghost pre = self.entries@.subrange(0, n as int);
            assert(pre.last() == self.entries@[n - 1]);
            if chars_eq(ek.as_slice(), k.as_slice()) {
                return Some(&self.entries[n - 1].value);
            }
            assert(pre.drop_last() =~= self.entries@.subrange(0, n - 1));
            n = n - 1;
        }
        None
    }

    /// The string stored under `key`, as characters.
    pub fn get_str(&self, key: &str) -> (r: Option<Vec<char>>)
        ensures
            match r {
                Some(v) => str_param(self.entries@, key@) == Some(v@),
                None => str_param(self.entries@, key@) is None,
            },
    {
        match self.get(key) {
            Some(ParamValue::Str(s)) => Some(chars_of(s.as_str())),
            _ => None,
        }
    }

    /// The boolean stored under `key`.
    pub fn get_bool(&self, key: &str) -> (r: Option<bool>)
        ensures
            r == bool_param(self.entries@, key@),
    {
        match self.get(key) {
            Some(ParamValue::Bool(b)) => Some(*b),
            _ => None,
        }
    }

    /// The integer stored under `key`.
    pub fn get_u64(&self, key: &str) -> (r: Option<u64>)
        ensures
            r == uint_param(self.entries@, key@),
    {
        match self.get(key) {
            Some(ParamValue::UInt(n)) => Some(*n),
            _ => None,
        }
    }

    /// The string elements of the array stored under `key`.
    pub fn get_list(&self, key: &str) -> (r: Option<&Vec<String>>)
        ensures
            match r {
                Some(v) => list_param(self.entries@, key@) == Some(v@),
                None => list_param(self.entries@, key@) is None,
            },
    {
        match self.get(key) {
            Some(ParamValue::StrList(v)) => Some(v),
            _ => None,
        }
    }
    /// The string stored under `key`, or the error that a tool gives when
    /// it is missing.
    pub fn require_str(&self, key: &str) -> (r: Result<String, String>)
        ensures
            match str_param(self.entries@, key@) {
                Some(v) => r is Ok && r->Ok_0@ == v,
                None => r is Err && r->Err_0@ == missing_param_message(key@),
            },
    {
        match self.get(key) {
            Some(ParamValue::Str(s)) => Ok(owned(s.as_str())),
            _ => {
                let mut m: Vec<char> = Vec::new();
                push_str(&mut m, "Missing '");
                push_str(&mut m, key);
                push_str(&mut m, "' parameter");
                Err(string_from(m.as_slice()))
            },
        }
    }
}

} // verus!
