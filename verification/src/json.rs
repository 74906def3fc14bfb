//! The library's own model of the JSON documents that the PowerShell collectors
//! produce, and the lookups that the rules make on it.
//!
//! Numbers keep serde_json's three kinds. A non-integer number is held as a
//! [`Decimal`] (its value in thousandths, rounded down, and whether a remainder
//! was dropped) together with the text that `Display` gives for it.

use vstd::prelude::*;
use crate::text::{chars, eq_v, int_digits, nat_digits, fmt_i64, fmt_u64};

verus! {

/// A real number `x` held as `milli == floor(1000 * x)` and `frac == (1000 * x` is not
/// an integer`)`. It orders and compares against thresholds given in thousandths exactly.
#[derive(Clone, Copy)]
pub struct Decimal {
    pub milli: i128,
    pub frac: bool,
}

impl Decimal {
    /// The number `n` exactly.
    pub open spec fn spec_of_int(n: int) -> Decimal {
        Decimal { milli: (n * 1000) as i128, frac: false }
    }

    pub fn of_u64(n: u64) -> (d: Decimal)
        ensures
            d == Decimal::spec_of_int(n as int),
    {
        Decimal { milli: (n as i128) * 1000, frac: false }
    }

    pub fn of_i64(n: i64) -> (d: Decimal)
        ensures
            d == Decimal::spec_of_int(n as int),
    {
        Decimal { milli: (n as i128) * 1000, frac: false }
    }

    /// `self < t / 1000`.
    pub open spec fn lt_milli(self, t: int) -> bool {
        self.milli < t
    }

    /// `self > t / 1000`.
    pub open spec fn gt_milli(self, t: int) -> bool {
        self.milli > t || (self.milli == t && self.frac)
    }

    /// `self <= other` on the held values.
    pub open spec fn le(self, other: Decimal) -> bool {
        self.milli < other.milli || (self.milli == other.milli && (!self.frac || other.frac))
    }

    pub fn is_lt_milli(&self, t: i128) -> (r: bool)
        ensures
            r == self.lt_milli(t as int),
    {
        self.milli < t
    }

    pub fn is_gt_milli(&self, t: i128) -> (r: bool)
        ensures
            r == self.gt_milli(t as int),
    {
        self.milli > t || (self.milli == t && self.frac)
    }

    pub fn is_le(&self, other: &Decimal) -> (r: bool)
        ensures
            r == self.le(*other),
    {
        self.milli < other.milli || (self.milli == other.milli && (!self.frac || other.frac))
    }
}

/// A JSON value as serde_json holds it.
pub enum Json {
    Null,
    Bool(bool),
    /// A non-negative integer.
    UInt(u64),
    /// A negative integer.
    NegInt(i64),
    /// Any other number: its value, the text serde_json writes for it, and the text
    /// that `f64`'s `Display` writes for it.
    Float(Decimal, String, String),
    Str(String),
    Array(Vec<Json>),
    Object(Vec<(String, Json)>),
}

/// The first field of an object named `key`.
pub open spec fn field_lookup(fields: Seq<(String, Json)>, key: Seq<char>) -> Option<Json>
    decreases fields.len(),
{
    if fields.len() == 0 {
        None
    } else if fields[0].0@ == key {
        Some(fields[0].1)
    } else {
        field_lookup(fields.drop_first(), key)
    }
}

impl Json {
    /// `Value::get` with a string key.
    pub open spec fn get_spec(self, key: Seq<char>) -> Option<Json> {
        match self {
            Json::Object(fields) => field_lookup(fields@, key),
            _ => None,
        }
    }

    /// `Value::as_str`.
    pub open spec fn str_spec(self) -> Option<Seq<char>> {
        match self {
            Json::Str(s) => Some(s@),
            _ => None,
        }
    }

    /// `Value::as_bool`.
    pub open spec fn bool_spec(self) -> Option<bool> {
        match self {
            Json::Bool(b) => Some(b),
            _ => None,
        }
    }

    /// `Value::as_u64`.
    pub open spec fn u64_spec(self) -> Option<u64> {
        match self {
            Json::UInt(n) => Some(n),
            _ => None,
        }
    }

    /// `Value::as_i64`.
    pub open spec fn i64_spec(self) -> Option<i64> {
        match self {
            Json::UInt(n) => if n <= i64::MAX {
                Some(n as i64)
            } else {
                None
            },
            Json::NegInt(n) => Some(n),
            _ => None,
        }
    }

    /// `Value::as_f64`, in the library's decimal form.
    pub open spec fn num_spec(self) -> Option<Decimal> {
        match self {
            Json::UInt(n) => Some(Decimal::spec_of_int(n as int)),
            Json::NegInt(n) => Some(Decimal::spec_of_int(n as int)),
            Json::Float(d, _, _) => Some(d),
            _ => None,
        }
    }

    /// `Value::as_array`.
    pub open spec fn array_spec(self) -> Option<Seq<Json>> {
        match self {
            Json::Array(v) => Some(v@),
            _ => None,
        }
    }

    /// `Value::is_null`.
    pub open spec fn is_null_spec(self) -> bool {
        self is Null
    }

    /// The `Display` text of a number.
    pub open spec fn number_text(self) -> Seq<char> {
        match self {
            Json::UInt(n) => nat_digits(n as nat),
            Json::NegInt(n) => int_digits(n as int),
            Json::Float(_, t, _) => t@,
            _ => Seq::empty(),
        }
    }

    /// The text `f64`'s `Display` writes for a number read as `f64`. Integers are
    /// written with all their digits.
    pub open spec fn f64_text(self) -> Seq<char> {
        match self {
            Json::UInt(n) => nat_digits(n as nat),
            Json::NegInt(n) => int_digits(n as int),
            Json::Float(_, _, t) => t@,
            _ => Seq::empty(),
        }
    }

    pub fn f64_to_text(&self) -> (r: Vec<char>)
        ensures
            r@ == self.f64_text(),
    {
        match self {
            Json::UInt(n) => fmt_u64(*n),
            Json::NegInt(n) => fmt_i64(*n),
            Json::Float(_, _, t) => chars(t.as_str()),
            _ => Vec::new(),
        }
    }

    pub fn get(&self, key: &str) -> (r: Option<&Json>)
        ensures
            match r {
                Some(v) => self.get_spec(key@) == Some(*v),
                None => self.get_spec(key@) is None,
            },
    {
        match self {
            Json::Object(fields) => {
                let k = chars(key);
                let mut i: usize = 0;
                assert(fields@.skip(0) =~= fields@);
                while i < fields.len()
                    invariant
                        i <= fields@.len(),
                        k@ == key@,
                        self.get_spec(key@) == field_lookup(fields@, key@),
                        field_lookup(fields@, key@) == field_lookup(fields@.skip(i as int), key@),
                    decreases fields@.len() - i,
                {
                    let name = chars(fields[i].0.as_str());
                    assert(fields@.skip(i as int).drop_first() =~= fields@.skip(i + 1));
                    assert(fields@.skip(i as int)[0] == fields@[i as int]);
                    if eq_v(&name, &k) {
                        assert(fields@[i as int].0@ == key@);
                        assert(field_lookup(fields@.skip(i as int), key@) == Some(fields@[i as int].1));
                        return Some(&fields[i].1);
                    }
                    i = i + 1;
                }
                None
            },
            _ => None,
        }
    }

    pub fn as_str(&self) -> (r: Option<&str>)
        ensures
            match r {
                Some(s) => self.str_spec() == Some(s@),
                None => self.str_spec() is None,
            },
    {
        match self {
            Json::Str(s) => Some(s.as_str()),
            _ => None,
        }
    }

    pub fn as_bool(&self) -> (r: Option<bool>)
        ensures
            r == self.bool_spec(),
    {
        match self {
            Json::Bool(b) => Some(*b),
            _ => None,
        }
    }

    pub fn as_u64(&self) -> (r: Option<u64>)
        ensures
            r == self.u64_spec(),
    {
        match self {
            Json::UInt(n) => Some(*n),
            _ => None,
        }
    }

    pub fn as_i64(&self) -> (r: Option<i64>)
        ensures
            r == self.i64_spec(),
    {
        match self {
            Json::UInt(n) => if *n <= 9223372036854775807u64 {
                Some(*n as i64)
            } else {
                None
            },
            Json::NegInt(n) => Some(*n),
            _ => None,
        }
    }

    pub fn as_num(&self) -> (r: Option<Decimal>)
        ensures
            r == self.num_spec(),
    {
        match self {
            Json::UInt(n) => Some(Decimal::of_u64(*n)),
            Json::NegInt(n) => Some(Decimal::of_i64(*n)),
            Json::Float(d, _, _) => Some(*d),
            _ => None,
        }
    }

    pub fn as_array(&self) -> (r: Option<&Vec<Json>>)
        ensures
            match r {
                Some(v) => self.array_spec() == Some(v@),
                None => self.array_spec() is None,
            },
    {
        match self {
            Json::Array(v) => Some(v),
            _ => None,
        }
    }

    pub fn is_null(&self) -> (r: bool)
        ensures
            r == self.is_null_spec(),
    {
        match self {
            Json::Null => true,
            _ => false,
        }
    }

    /// `Number::to_string` for a number value.
    pub fn number_to_text(&self) -> (r: Vec<char>)
        ensures
            r@ == self.number_text(),
    {
        match self {
            Json::UInt(n) => fmt_u64(*n),
            Json::NegInt(n) => fmt_i64(*n),
            Json::Float(_, t, _) => chars(t.as_str()),
            _ => Vec::new(),
        }
    }
}

/// `v.get(key).and_then(as_str).unwrap_or(default)`.
pub open spec fn str_or(v: Json, key: Seq<char>, default: Seq<char>) -> Seq<char> {
    match get_str(v, key) {
        Some(s) => s,
        None => default,
    }
}

pub fn str_or_v(v: &Json, key: &str, default: &str) -> (r: Vec<char>)
    ensures
        r@ == str_or(*v, key@, default@),
{
    match json_str(v, key) {
        Some(s) => chars(s),
        None => chars(default),
    }
}

/// `v.get(key).and_then(as_str)`.
pub open spec fn get_str(v: Json, key: Seq<char>) -> Option<Seq<char>> {
    match v.get_spec(key) {
        Some(x) => x.str_spec(),
        None => None,
    }
}

/// `v.get(key).and_then(as_bool)`.
pub open spec fn get_bool(v: Json, key: Seq<char>) -> Option<bool> {
    match v.get_spec(key) {
        Some(x) => x.bool_spec(),
        None => None,
    }
}

/// `v.get(key).and_then(as_u64)`.
pub open spec fn get_u64(v: Json, key: Seq<char>) -> Option<u64> {
    match v.get_spec(key) {
        Some(x) => x.u64_spec(),
        None => None,
    }
}

/// `v.get(key).and_then(as_i64)`.
pub open spec fn get_i64(v: Json, key: Seq<char>) -> Option<i64> {
    match v.get_spec(key) {
        Some(x) => x.i64_spec(),
        None => None,
    }
}

/// `v.get(key).and_then(as_f64)`.
pub open spec fn get_num(v: Json, key: Seq<char>) -> Option<Decimal> {
    match v.get_spec(key) {
        Some(x) => x.num_spec(),
        None => None,
    }
}

/// `v.get(key).and_then(as_array)`.
pub open spec fn get_array(v: Json, key: Seq<char>) -> Option<Seq<Json>> {
    match v.get_spec(key) {
        Some(x) => x.array_spec(),
        None => None,
    }
}

pub fn json_str<'a>(v: &'a Json, key: &str) -> (r: Option<&'a str>)
    ensures
        match r {
            Some(s) => get_str(*v, key@) == Some(s@),
            None => get_str(*v, key@) is None,
        },
{
    match v.get(key) {
        Some(x) => x.as_str(),
        None => None,
    }
}

pub fn json_bool(v: &Json, key: &str) -> (r: Option<bool>)
    ensures
        r == get_bool(*v, key@),
{
    match v.get(key) {
        Some(x) => x.as_bool(),
        None => None,
    }
}

pub fn json_u64(v: &Json, key: &str) -> (r: Option<u64>)
    ensures
        r == get_u64(*v, key@),
{
    match v.get(key) {
        Some(x) => x.as_u64(),
        None => None,
    }
}

pub fn json_i64(v: &Json, key: &str) -> (r: Option<i64>)
    ensures
        r == get_i64(*v, key@),
{
    match v.get(key) {
        Some(x) => x.as_i64(),
        None => None,
    }
}

pub fn json_num(v: &Json, key: &str) -> (r: Option<Decimal>)
    ensures
        r == get_num(*v, key@),
{
    match v.get(key) {
        Some(x) => x.as_num(),
        None => None,
    }
}

pub fn json_array<'a>(v: &'a Json, key: &str) -> (r: Option<&'a Vec<Json>>)
    ensures
        match r {
            Some(a) => get_array(*v, key@) == Some(a@),
            None => get_array(*v, key@) is None,
        },
{
    match v.get(key) {
        Some(x) => x.as_array(),
        None => None,
    }
}

/// `v.get(key).and_then(as_str).map(String::from)`.
pub fn json_string(v: &Json, key: &str) -> (r: Option<String>)
    ensures
        match r {
            Some(s) => get_str(*v, key@) == Some(s@),
            None => get_str(*v, key@) is None,
        },
{
    match json_str(v, key) {
        Some(s) => Some(s.to_owned()),
        None => None,
    }
}

} // verus!
