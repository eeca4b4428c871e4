use vstd::prelude::*;
use vstd::string::StringSliceAdditionalSpecFns;

use crate::digest::bytes_equal;

verus! {

/// UTF-8 byte encoding of a string's characters.
pub open spec fn utf8(s: Seq<char>) -> Seq<u8> {
    vstd::utf8::encode_utf8(s)
}

/// Three-way lexicographic comparison of byte strings: -1, 0 or 1.
pub open spec fn bytes_order(a: Seq<u8>, b: Seq<u8>) -> int
    decreases a.len(),
{
    if a.len() == 0 {
        if b.len() == 0 {
            0
        } else {
            -1
        }
    } else if b.len() == 0 {
        1
    } else if a[0] < b[0] {
        -1
    } else if a[0] > b[0] {
        1
    } else {
        bytes_order(a.drop_first(), b.drop_first())
    }
}

/// Lexicographic comparison of (namespace bytes, value bytes) pairs, field by field.
pub open spec fn pair_order(a: (Seq<u8>, Seq<u8>), b: (Seq<u8>, Seq<u8>)) -> int {
    let c = bytes_order(a.0, b.0);
    if c != 0 {
        c
    } else {
        bytes_order(a.1, b.1)
    }
}

pub proof fn lemma_bytes_order_basics(a: Seq<u8>, b: Seq<u8>)
    ensures
        -1 <= bytes_order(a, b) <= 1,
        bytes_order(a, b) == -bytes_order(b, a),
        bytes_order(a, b) == 0 <==> a == b,
    decreases a.len(),
{
    if a.len() == 0 || b.len() == 0 {
        if a.len() == 0 && b.len() == 0 {
            assert(a =~= b);
        }
    } else if a[0] != b[0] {
    } else {
        lemma_bytes_order_basics(a.drop_first(), b.drop_first());
        if a.drop_first() == b.drop_first() {
            assert forall|i: int| 0 <= i < a.len() implies a[i] == b[i] by {
                if i > 0 {
                    assert(a[i] == a.drop_first()[i - 1]);
                    assert(b[i] == b.drop_first()[i - 1]);
                }
            }
            assert(a =~= b);
        } else {
            assert(a != b);
        }
    }
}

pub proof fn lemma_bytes_order_transitive(a: Seq<u8>, b: Seq<u8>, c: Seq<u8>)
    requires
        bytes_order(a, b) <= 0,
        bytes_order(b, c) <= 0,
    ensures
        bytes_order(a, c) <= 0,
        bytes_order(a, b) < 0 || bytes_order(b, c) < 0 ==> bytes_order(a, c) < 0,
    decreases a.len(),
{
    lemma_bytes_order_basics(a, b);
    lemma_bytes_order_basics(b, c);
    lemma_bytes_order_basics(a, c);
    if a.len() > 0 && b.len() > 0 && c.len() > 0 && a[0] == b[0] && b[0] == c[0] {
        lemma_bytes_order_transitive(a.drop_first(), b.drop_first(), c.drop_first());
    }
}

pub proof fn lemma_pair_order_properties(a: (Seq<u8>, Seq<u8>), b: (Seq<u8>, Seq<u8>))
    ensures
        -1 <= pair_order(a, b) <= 1,
        pair_order(a, b) == -pair_order(b, a),
        pair_order(a, b) == 0 <==> a == b,
{
    lemma_bytes_order_basics(a.0, b.0);
    lemma_bytes_order_basics(a.1, b.1);
}

pub proof fn lemma_pair_order_transitive(
    a: (Seq<u8>, Seq<u8>),
    b: (Seq<u8>, Seq<u8>),
    c: (Seq<u8>, Seq<u8>),
)
    requires
        pair_order(a, b) <= 0,
        pair_order(b, c) <= 0,
    ensures
        pair_order(a, c) <= 0,
{
    lemma_bytes_order_basics(a.0, b.0);
    lemma_bytes_order_basics(b.0, c.0);
    lemma_bytes_order_basics(a.0, c.0);
    if bytes_order(a.0, b.0) <= 0 && bytes_order(b.0, c.0) <= 0 {
        lemma_bytes_order_transitive(a.0, b.0, c.0);
    }
    if a.0 == b.0 && b.0 == c.0 {
        lemma_bytes_order_transitive(a.1, b.1, c.1);
    }
}

/// Three-way byte comparison: -1, 0 or 1.
pub fn compare_bytes(a: &[u8], b: &[u8]) -> (r: i8)
    ensures
        r as int == bytes_order(a@, b@),
{
    let mut i: usize = 0;
    assert(a@.skip(0) =~= a@ && b@.skip(0) =~= b@);
    while i < a.len() && i < b.len()
        invariant
            i <= a@.len(),
            i <= b@.len(),
            bytes_order(a@, b@) == bytes_order(a@.skip(i as int), b@.skip(i as int)),
        decreases a@.len() - i,
    {
        let x = a[i];
        let y = b[i];
        assert(a@.skip(i as int)[0] == x && b@.skip(i as int)[0] == y);
        if x < y {
            return -1;
        }
        if x > y {
            return 1;
        }
        assert(a@.skip(i as int).drop_first() =~= a@.skip(i + 1));
        assert(b@.skip(i as int).drop_first() =~= b@.skip(i + 1));
        i += 1;
    }
    if a.len() == i && b.len() == i {
        assert(a@.skip(i as int).len() == 0 && b@.skip(i as int).len() == 0);
        0
    } else if a.len() == i {
        -1
    } else {
        1
    }
}

/// Comparison of two (namespace, value) keys: namespace bytes first, then value bytes.
pub fn compare_key_parts(
    namespace_a: &String,
    value_a: &Vec<u8>,
    namespace_b: &String,
    value_b: &Vec<u8>,
) -> (r: i8)
    ensures
        r as int == pair_order(
            (utf8(namespace_a@), value_a@),
            (utf8(namespace_b@), value_b@),
        ),
{
    let c = compare_bytes(namespace_a.as_str().as_bytes(), namespace_b.as_str().as_bytes());
    if c != 0 {
        c
    } else {
        compare_bytes(value_a.as_slice(), value_b.as_slice())
    }
}

/// Equality of two (namespace, value) keys.
pub fn key_parts_equal(
    namespace_a: &String,
    value_a: &Vec<u8>,
    namespace_b: &String,
    value_b: &Vec<u8>,
) -> (r: bool)
    ensures
        r == (namespace_a@ == namespace_b@ && value_a@ == value_b@),
{
    *namespace_a == *namespace_b && bytes_equal(value_a.as_slice(), value_b.as_slice())
}

/// Byte length of a string.
pub fn text_len(s: &String) -> (r: usize)
    ensures
        r == utf8(s@).len(),
{
    s.as_str().as_bytes().len()
}

/// Executor-derived root identity included in deterministic plan digests.
#[derive(Clone, Debug, PartialEq, Eq)]
pub struct ExecutorRootIdentity {
    pub namespace: String,
    pub value: Vec<u8>,
}

/// Executor-derived path key used for conflict detection and deterministic ordering.
///
/// The key is scoped to one opened root and transaction plan.
#[derive(Clone, Debug, PartialEq, Eq, PartialOrd, Ord)]
pub struct CanonicalPathKey {
    pub namespace: String,
    pub value: Vec<u8>,
}

/// Executor-native path key that can be reopened safely after a restart.
#[derive(Clone, Debug, PartialEq, Eq)]
pub struct DurablePathKey {
    pub namespace: String,
    pub value: Vec<u8>,
}

/// Executor-native key that can reopen transaction evidence after a restart.
#[derive(Clone, Debug, PartialEq, Eq, PartialOrd, Ord)]
pub struct DurableTransactionKey {
    pub namespace: String,
    pub value: Vec<u8>,
}

/// Stable executor-native identity of one opened file object.
#[derive(Clone, Debug, PartialEq, Eq)]
pub struct ExecutorFileIdentity {
    pub namespace: String,
    pub value: Vec<u8>,
}

/// Collision-resistant transaction identifier chosen by the transaction engine.
#[derive(Clone, Debug, PartialEq, Eq)]
pub struct TransactionId(pub String);

/// Hard cap for one environment-owned recovery scan.
#[derive(Clone, Copy, Debug, PartialEq, Eq)]
pub struct RecoveryScanLimit {
    pub max_transactions: u64,
}

impl View for ExecutorRootIdentity {
    type V = (Seq<char>, Seq<u8>);

    open spec fn view(&self) -> (Seq<char>, Seq<u8>) {
        (self.namespace@, self.value@)
    }
}

impl View for CanonicalPathKey {
    type V = (Seq<char>, Seq<u8>);

    open spec fn view(&self) -> (Seq<char>, Seq<u8>) {
        (self.namespace@, self.value@)
    }
}

impl View for DurablePathKey {
    type V = (Seq<char>, Seq<u8>);

    open spec fn view(&self) -> (Seq<char>, Seq<u8>) {
        (self.namespace@, self.value@)
    }
}

impl View for DurableTransactionKey {
    type V = (Seq<char>, Seq<u8>);

    open spec fn view(&self) -> (Seq<char>, Seq<u8>) {
        (self.namespace@, self.value@)
    }
}

impl View for ExecutorFileIdentity {
    type V = (Seq<char>, Seq<u8>);

    open spec fn view(&self) -> (Seq<char>, Seq<u8>) {
        (self.namespace@, self.value@)
    }
}

/// The ordering bytes of a canonical key: its namespace in UTF-8, then its value.
pub open spec fn key_order_bytes(k: (Seq<char>, Seq<u8>)) -> (Seq<u8>, Seq<u8>) {
    (utf8(k.0), k.1)
}

impl CanonicalPathKey {
    /// Key order: namespace bytes, then value bytes, each lexicographically.
    pub fn compare(&self, other: &Self) -> (r: i8)
        ensures
            r as int == pair_order(key_order_bytes(self@), key_order_bytes(other@)),
    {
        compare_key_parts(&self.namespace, &self.value, &other.namespace, &other.value)
    }

    pub fn same(&self, other: &Self) -> (r: bool)
        ensures
            r == (self@ == other@),
    {
        key_parts_equal(&self.namespace, &self.value, &other.namespace, &other.value)
    }

    pub fn clone_key(&self) -> (r: Self)
        ensures
            r@ == self@,
    {
        CanonicalPathKey { namespace: self.namespace.clone(), value: self.value.clone() }
    }
}

impl DurablePathKey {
    pub fn same(&self, other: &Self) -> (r: bool)
        ensures
            r == (self@ == other@),
    {
        key_parts_equal(&self.namespace, &self.value, &other.namespace, &other.value)
    }
}

impl DurableTransactionKey {
    pub fn same(&self, other: &Self) -> (r: bool)
        ensures
            r == (self@ == other@),
    {
        key_parts_equal(&self.namespace, &self.value, &other.namespace, &other.value)
    }
}

impl ExecutorRootIdentity {
    pub fn same(&self, other: &Self) -> (r: bool)
        ensures
            r == (self@ == other@),
    {
        key_parts_equal(&self.namespace, &self.value, &other.namespace, &other.value)
    }
}

impl ExecutorFileIdentity {
    pub fn same(&self, other: &Self) -> (r: bool)
        ensures
            r == (self@ == other@),
    {
        key_parts_equal(&self.namespace, &self.value, &other.namespace, &other.value)
    }
}

} // verus!
