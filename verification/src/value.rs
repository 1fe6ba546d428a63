//! Values held by the key-value store: plain byte strings.

use vstd::prelude::*;

verus! {

/// Represents a value in a key-value store.
#[derive(Debug)]
pub struct Value(Vec<u8>);

impl View for Value {
    type V = Seq<u8>;

    closed spec fn view(&self) -> Seq<u8> {
        self.0@
    }
}

impl Value {
    /// Create a new value with the given bytes.
    pub fn new(value: Vec<u8>) -> (r: Value)
        ensures
            r@ == value@,
    {
        Value(value)
    }

    /// Get the inner bytes of the value.
    pub fn into_inner(self) -> (r: Vec<u8>)
        ensures
            r@ == self@,
    {
        self.0
    }

    /// The bytes of the value.
    pub fn as_bytes(&self) -> (r: &[u8])
        ensures
            r@ == self@,
    {
        self.0.as_slice()
    }

    /// Whether two values hold the same bytes.
    pub fn same_as(&self, other: &Value) -> (r: bool)
        ensures
            r == (self@ == other@),
    {
        let n = self.0.len();
        if n != other.0.len() {
            return false;
        }
        let mut i: usize = 0;
        while i < n
            invariant
                n == self@.len(),
                n == other@.len(),
                i <= n,
                self@.take(i as int) == other@.take(i as int),
            decreases n - i,
        {
            if self.0[i] != other.0[i] {
                return false;
            }
            assert(self@.take(i + 1) =~= self@.take(i as int).push(self@[i as int]));
            assert(other@.take(i + 1) =~= other@.take(i as int).push(other@[i as int]));
            i += 1;
        }
        assert(self@.take(n as int) =~= self@);
        assert(other@.take(n as int) =~= other@);
        true
    }
}

impl Clone for Value {
    fn clone(&self) -> (r: Self)
        ensures
            r@ == self@,
    {
        let v = self.0.clone();
        assert(v@ =~= self.0@);
        Value(v)
    }
}

} // verus!

verus! {

impl PartialEq for Value {
    fn eq(&self, other: &Self) -> (r: bool) {
        self.same_as(other)
    }
}

impl vstd::std_specs::cmp::PartialEqSpecImpl for Value {
    open spec fn obeys_eq_spec() -> bool {
        true
    }

    open spec fn eq_spec(&self, other: &Self) -> bool {
        self@ == other@
    }
}


impl Value {
    /// The value holding exactly these bytes.
    pub closed spec fn of_bytes(v: Vec<u8>) -> Value {
        Value(v)
    }

    /// The byte vector the value holds.
    pub closed spec fn bytes_vec(self) -> Vec<u8> {
        self.0
    }
}

/// A value made of bytes holds those bytes, and gives them back.
pub broadcast proof fn lemma_value_of_bytes(v: Vec<u8>)
    ensures
        #[trigger] Value::of_bytes(v)@ == v@,
        Value::of_bytes(v).bytes_vec() == v,
{
}

/// A value's byte vector holds its bytes, and makes the value again.
pub broadcast proof fn lemma_value_bytes_vec(x: Value)
    ensures
        #[trigger] x.bytes_vec()@ == x@,
        Value::of_bytes(x.bytes_vec()) == x,
{
}

impl From<Vec<u8>> for Value {
    fn from(value: Vec<u8>) -> (r: Value) {
        Value(value)
    }
}

impl vstd::std_specs::convert::FromSpecImpl<Vec<u8>> for Value {
    open spec fn obeys_from_spec() -> bool {
        true
    }

    open spec fn from_spec(v: Vec<u8>) -> Value {
        Value::of_bytes(v)
    }
}

impl From<Value> for Vec<u8> {
    fn from(value: Value) -> (r: Vec<u8>) {
        value.0
    }
}

impl vstd::std_specs::convert::FromSpecImpl<Value> for Vec<u8> {
    open spec fn obeys_from_spec() -> bool {
        true
    }

    open spec fn from_spec(v: Value) -> Vec<u8> {
        v.bytes_vec()
    }
}

} // verus!
