//! Immutable bytes that are shared instead of copied.

use core::cmp::Ordering;
use core::ops::Deref;
use std::sync::Arc;
use vstd::prelude::*;

verus! {

/// An immutable byte buffer that is cheap to clone.
///
/// Clones share the bytes, by atomic reference counting, so a buffer can be sent to and shared
/// between threads. How the bytes are shared is not part of the interface: two buffers are equal
/// where their bytes are.
#[derive(Debug, Eq, Hash, Ord)]
pub struct SharedBytes(Arc<[u8]>);

impl View for SharedBytes {
    type V = Seq<u8>;

    closed spec fn view(&self) -> Seq<u8> {
        self.0@
    }
}

/// `Arc::from` on a slice: the allocation that it gives holds a copy of the bytes of the slice.
#[verifier::external_body]
fn arc_from_slice(bytes: &[u8]) -> (shared: Arc<[u8]>)
    ensures
        shared@ == bytes@,
{
    Arc::from(bytes)
}

impl SharedBytes {
    /// A buffer with a copy of `bytes`.
    pub fn copy_from_slice(bytes: &[u8]) -> (shared: Self)
        ensures
            shared@ == bytes@,
    {
        SharedBytes(arc_from_slice(bytes))
    }

    /// The bytes as a slice.
    pub fn as_slice(&self) -> (bytes: &[u8])
        ensures
            bytes@ == self@,
    {
        &*self.0
    }

    /// The number of bytes.
    pub fn len(&self) -> (n: usize)
        ensures
            n == self@.len(),
    {
        self.0.len()
    }

    /// Whether there is no byte.
    pub fn is_empty(&self) -> (empty: bool)
        ensures
            empty == (self@.len() == 0),
    {
        self.0.is_empty()
    }
}

impl AsRef<[u8]> for SharedBytes {
    fn as_ref(&self) -> (bytes: &[u8])
        ensures
            bytes@ == self@,
    {
        self.as_slice()
    }
}

/// The elements of a slice.
pub open spec fn bytes_of(bytes: &[u8]) -> Seq<u8> {
    bytes@
}

impl core::borrow::Borrow<[u8]> for SharedBytes {
    fn borrow(&self) -> (bytes: &[u8])
        ensures
            bytes_of(bytes) == self@,
    {
        self.as_slice()
    }
}

impl core::ops::Deref for SharedBytes {
    type Target = [u8];

    fn deref(&self) -> (bytes: &[u8])
        ensures
            bytes@ == self@,
    {
        self.as_slice()
    }
}

impl Clone for SharedBytes {
    /// Another handle on the same bytes.
    fn clone(&self) -> (shared: Self)
        ensures
            shared@ == self@,
    {
        SharedBytes(self.0.clone())
    }
}

impl Default for SharedBytes {
    /// A buffer without bytes.
    fn default() -> (shared: Self)
        ensures
            shared@ == Seq::<u8>::empty(),
    {
        let nothing: [u8; 0] = [];
        let shared = Self::copy_from_slice(nothing.as_slice());
        proof {
            assert(shared@ =~= Seq::<u8>::empty());
        }
        shared
    }
}

impl From<Vec<u8>> for SharedBytes {
    fn from(bytes: Vec<u8>) -> (shared: Self)
        ensures
            shared@ == bytes@,
    {
        Self::copy_from_slice(bytes.as_slice())
    }
}

impl vstd::std_specs::convert::FromSpecImpl<Vec<u8>> for SharedBytes {
    // Which allocation holds the bytes is open, so only the bytes are promised, by `from` itself.
    open spec fn obeys_from_spec() -> bool {
        false
    }

    open spec fn from_spec(bytes: Vec<u8>) -> Self {
        choose|shared: Self| shared@ == bytes@
    }
}

impl From<Box<[u8]>> for SharedBytes {
    fn from(bytes: Box<[u8]>) -> (shared: Self)
        ensures
            shared@ == bytes@,
    {
        Self::copy_from_slice(&*bytes)
    }
}

impl vstd::std_specs::convert::FromSpecImpl<Box<[u8]>> for SharedBytes {
    open spec fn obeys_from_spec() -> bool {
        false
    }

    open spec fn from_spec(bytes: Box<[u8]>) -> Self {
        choose|shared: Self| shared@ == bytes@
    }
}

impl From<&[u8]> for SharedBytes {
    fn from(bytes: &[u8]) -> (shared: Self)
        ensures
            shared@ == bytes@,
    {
        Self::copy_from_slice(bytes)
    }
}

impl vstd::std_specs::convert::FromSpecImpl<&[u8]> for SharedBytes {
    open spec fn obeys_from_spec() -> bool {
        false
    }

    open spec fn from_spec(bytes: &[u8]) -> Self {
        choose|shared: Self| shared@ == bytes@
    }
}

impl<const N: usize> From<[u8; N]> for SharedBytes {
    fn from(bytes: [u8; N]) -> (shared: Self)
        ensures
            shared@ == bytes@,
    {
        Self::copy_from_slice(bytes.as_slice())
    }
}

impl<const N: usize> vstd::std_specs::convert::FromSpecImpl<[u8; N]> for SharedBytes {
    open spec fn obeys_from_spec() -> bool {
        false
    }

    open spec fn from_spec(bytes: [u8; N]) -> Self {
        choose|shared: Self| shared@ == bytes@
    }
}

impl<const N: usize> From<&[u8; N]> for SharedBytes {
    fn from(bytes: &[u8; N]) -> (shared: Self)
        ensures
            shared@ == bytes@,
    {
        Self::copy_from_slice(bytes.as_slice())
    }
}

impl<const N: usize> vstd::std_specs::convert::FromSpecImpl<&[u8; N]> for SharedBytes {
    open spec fn obeys_from_spec() -> bool {
        false
    }

    open spec fn from_spec(bytes: &[u8; N]) -> Self {
        choose|shared: Self| shared@ == bytes@
    }
}

impl PartialEq for SharedBytes {
    fn eq(&self, other: &Self) -> (equal: bool) {
        let n: usize = common_prefix(self.as_slice(), other.as_slice());
        let equal = n == self.len() && n == other.len();
        proof {
            if equal {
                assert(self@.take(self@.len() as int) =~= self@);
                assert(other@.take(other@.len() as int) =~= other@);
            }
        }
        equal
    }
}

impl vstd::std_specs::cmp::PartialEqSpecImpl for SharedBytes {
    open spec fn obeys_eq_spec() -> bool {
        true
    }

    open spec fn eq_spec(&self, other: &Self) -> bool {
        self@ == other@
    }
}

impl PartialOrd for SharedBytes {
    fn partial_cmp(&self, other: &Self) -> (order: Option<Ordering>) {
        let n: usize = common_prefix(self.as_slice(), other.as_slice());
        proof {
            lemma_order_is_decided_after_prefix(self@, other@, position(n));
        }
        if n == self.len() {
            if n == other.len() {
                Some(Ordering::Equal)
            } else {
                Some(Ordering::Less)
            }
        } else if n == other.len() {
            Some(Ordering::Greater)
        } else if self.as_slice()[n] < other.as_slice()[n] {
            Some(Ordering::Less)
        } else {
            Some(Ordering::Greater)
        }
    }
}

impl vstd::std_specs::cmp::PartialOrdSpecImpl for SharedBytes {
    open spec fn obeys_partial_cmp_spec() -> bool {
        true
    }

    open spec fn partial_cmp_spec(&self, other: &Self) -> Option<Ordering> {
        Some(order_of(self@, other@))
    }
}

/// The order of `a` and `b`: that of the first bytes in which they differ, and where there are
/// none, the shorter first.
pub open spec fn order_of(a: Seq<u8>, b: Seq<u8>) -> Ordering
    decreases a.len(),
{
    if a.len() == 0 {
        if b.len() == 0 {
            Ordering::Equal
        } else {
            Ordering::Less
        }
    } else if b.len() == 0 {
        Ordering::Greater
    } else if a[0] < b[0] {
        Ordering::Less
    } else if a[0] > b[0] {
        Ordering::Greater
    } else {
        order_of(a.drop_first(), b.drop_first())
    }
}

/// An index as an integer.
pub open spec fn position(n: usize) -> int {
    n as int
}

/// Bytes that two sequences start with alike do not decide their order.
proof fn lemma_order_is_decided_after_prefix(a: Seq<u8>, b: Seq<u8>, n: int)
    requires
        0 <= n <= a.len(),
        n <= b.len(),
        a.take(n) == b.take(n),
    ensures
        order_of(a, b) == order_of(a.skip(n), b.skip(n)),
        n < a.len() ==> a.skip(n).len() > 0 && a.skip(n)[0] == a[n],
        n < b.len() ==> b.skip(n).len() > 0 && b.skip(n)[0] == b[n],
    decreases n,
{
    if n == 0 {
        assert(a.skip(0) =~= a);
        assert(b.skip(0) =~= b);
    } else {
        assert(a[0] == a.take(n)[0]);
        assert(b[0] == b.take(n)[0]);
        assert(a.drop_first().take(n - 1) =~= a.take(n).drop_first());
        assert(b.drop_first().take(n - 1) =~= b.take(n).drop_first());
        lemma_order_is_decided_after_prefix(a.drop_first(), b.drop_first(), n - 1);
        assert(a.drop_first().skip(n - 1) =~= a.skip(n));
        assert(b.drop_first().skip(n - 1) =~= b.skip(n));
    }
}

/// The number of bytes that `a` and `b` start with alike.
fn common_prefix(a: &[u8], b: &[u8]) -> (n: usize)
    ensures
        n <= a@.len(),
        n <= b@.len(),
        a@.take(n as int) == b@.take(n as int),
        n < a@.len() && n < b@.len() ==> a@[n as int] != b@[n as int],
{
    let mut n: usize = 0;
    while n < a.len() && n < b.len() && a[n] == b[n]
        invariant
            n <= a@.len(),
            n <= b@.len(),
            a@.take(n as int) == b@.take(n as int),
        decreases a@.len() - n,
    {
        proof {
            assert(a@.take(n + 1) =~= a@.take(n as int).push(a@[n as int]));
            assert(b@.take(n + 1) =~= b@.take(n as int).push(b@[n as int]));
        }
        n = n + 1;
    }
    n
}

/// Two buffers come out equal in the order exactly where they are equal.
pub proof fn law_order_agrees_with_equality(a: Seq<u8>, b: Seq<u8>)
    ensures
        order_of(a, b) == Ordering::Equal <==> a == b,
    decreases a.len(),
{
    if a.len() > 0 && b.len() > 0 {
        law_order_agrees_with_equality(a.drop_first(), b.drop_first());
        if a[0] == b[0] && a.drop_first() == b.drop_first() {
            assert(a =~= seq![a[0]] + a.drop_first());
            assert(b =~= seq![b[0]] + b.drop_first());
        }
    } else if a.len() == 0 && b.len() == 0 {
        assert(a =~= b);
    }
}

/// Of two buffers one comes before the other exactly where the other comes after the one.
pub proof fn law_order_is_antisymmetric(a: Seq<u8>, b: Seq<u8>)
    ensures
        order_of(a, b) == Ordering::Less <==> order_of(b, a) == Ordering::Greater,
    decreases a.len(),
{
    if a.len() > 0 && b.len() > 0 {
        law_order_is_antisymmetric(a.drop_first(), b.drop_first());
    }
}

/// What comes before a buffer comes before everything that comes after it.
pub proof fn law_order_is_transitive(a: Seq<u8>, b: Seq<u8>, c: Seq<u8>)
    requires
        order_of(a, b) == Ordering::Less,
        order_of(b, c) == Ordering::Less,
    ensures
        order_of(a, c) == Ordering::Less,
    decreases a.len(),
{
    if a.len() > 0 && b.len() > 0 && c.len() > 0 && a[0] == b[0] && b[0] == c[0] {
        law_order_is_transitive(a.drop_first(), b.drop_first(), c.drop_first());
    }
}

/// Whether `a` and `b` start with the same `n` bytes.
pub open spec fn start_alike(a: Seq<u8>, b: Seq<u8>, n: int) -> bool {
    &&& 0 <= n <= a.len()
    &&& n <= b.len()
    &&& forall|i: int| 0 <= i < n ==> #[trigger] a[i] == b[i]
}

/// Whether `a` comes before `b` in a dictionary: at the first place where they differ it has the
/// smaller byte, or it ends there.
pub open spec fn comes_before(a: Seq<u8>, b: Seq<u8>) -> bool {
    exists|n: int| #[trigger]
        start_alike(a, b, n) && n < b.len() && (n < a.len() ==> a[n] < b[n])
}

/// The order of buffers is that of a dictionary.
pub proof fn law_order_is_that_of_a_dictionary(a: Seq<u8>, b: Seq<u8>)
    ensures
        order_of(a, b) == Ordering::Less <==> comes_before(a, b),
        order_of(a, b) == Ordering::Greater <==> comes_before(b, a),
        order_of(a, b) == Ordering::Equal <==> a == b,
{
    law_order_agrees_with_equality(a, b);
    lemma_order_finds_the_difference(a, b);
    law_order_is_antisymmetric(b, a);
    law_order_is_antisymmetric(a, b);
    lemma_order_finds_the_difference(b, a);
    if comes_before(a, b) {
        let n = choose|n: int| #[trigger]
            start_alike(a, b, n) && n < b.len() && (n < a.len() ==> a[n] < b[n]);
        lemma_difference_decides(a, b, n);
    }
    if comes_before(b, a) {
        let n = choose|n: int| #[trigger]
            start_alike(b, a, n) && n < a.len() && (n < b.len() ==> b[n] < a[n]);
        lemma_difference_decides(b, a, n);
    }
}

/// The first place where two sequences differ decides their order.
proof fn lemma_difference_decides(a: Seq<u8>, b: Seq<u8>, n: int)
    requires
        start_alike(a, b, n),
        n < b.len(),
        n < a.len() ==> a[n] < b[n],
    ensures
        order_of(a, b) == Ordering::Less,
{
    assert(a.take(n) =~= b.take(n));
    lemma_order_is_decided_after_prefix(a, b, n);
}

/// What comes first has a place where it shows.
proof fn lemma_order_finds_the_difference(a: Seq<u8>, b: Seq<u8>)
    ensures
        order_of(a, b) == Ordering::Less ==> comes_before(a, b),
    decreases a.len(),
{
    if order_of(a, b) == Ordering::Less {
        if a.len() == 0 || a[0] != b[0] {
            assert(start_alike(a, b, 0));
        } else {
            let (c, d) = (a.drop_first(), b.drop_first());
            lemma_order_finds_the_difference(c, d);
            let n = choose|n: int| #[trigger]
                start_alike(c, d, n) && n < d.len() && (n < c.len() ==> c[n] < d[n]);
            assert forall|i: int| 0 <= i < n + 1 implies #[trigger] a[i] == b[i] by {
                if i > 0 {
                    assert(c[i - 1] == d[i - 1]);
                }
            }
            assert(start_alike(a, b, n + 1));
        }
    }
}

/// Two buffers compare as their bytes do: equal where the bytes are, and in the order of a
/// dictionary.
pub proof fn law_buffers_compare_by_their_bytes(
    a: SharedBytes,
    b: SharedBytes,
    equal: bool,
    order: Option<Ordering>,
)
    requires
        call_ensures(SharedBytes::eq, (&a, &b), equal),
        call_ensures(SharedBytes::partial_cmp, (&a, &b), order),
    ensures
        equal <==> a@ == b@,
        order is Some,
        order->0 == Ordering::Less <==> comes_before(a@, b@),
        order->0 == Ordering::Greater <==> comes_before(b@, a@),
        order->0 == Ordering::Equal <==> a@ == b@,
{
    law_order_is_that_of_a_dictionary(a@, b@);
}

/// A buffer gives back the bytes that it was made of, as a slice and by dereference, and so does a
/// clone of it. Its length is their number.
pub proof fn law_buffer_gives_back_its_bytes(
    bytes: &[u8],
    buffer: SharedBytes,
    clone: SharedBytes,
    slice: &[u8],
    target: &[u8],
    len: usize,
    empty: bool,
)
    requires
        call_ensures(SharedBytes::copy_from_slice, (bytes,), buffer),
        call_ensures(SharedBytes::clone, (&buffer,), clone),
        call_ensures(SharedBytes::as_slice, (&clone,), slice),
        call_ensures(SharedBytes::deref, (&clone,), target),
        call_ensures(SharedBytes::len, (&clone,), len),
        call_ensures(SharedBytes::is_empty, (&clone,), empty),
    ensures
        slice@ == bytes@,
        target@ == bytes@,
        len == bytes@.len(),
        empty <==> bytes@.len() == 0,
{
}

/// Whatever bytes are converted from, the buffer holds just these bytes. By default it holds none.
pub proof fn law_conversions_keep_the_bytes<const N: usize>(
    vector: Vec<u8>,
    boxed: Box<[u8]>,
    slice: &[u8],
    array: [u8; N],
    from_vector: SharedBytes,
    from_boxed: SharedBytes,
    from_slice: SharedBytes,
    from_array: SharedBytes,
    from_array_reference: SharedBytes,
    default: SharedBytes,
)
    requires
        call_ensures(SharedBytes::from, (vector,), from_vector),
        call_ensures(SharedBytes::from, (boxed,), from_boxed),
        call_ensures(SharedBytes::from, (slice,), from_slice),
        call_ensures(SharedBytes::from, (array,), from_array),
        call_ensures(SharedBytes::from, (&array,), from_array_reference),
        call_ensures(SharedBytes::default, (), default),
    ensures
        from_vector@ == vector@,
        from_boxed@ == boxed@,
        from_slice@ == slice@,
        from_array@ == array@,
        from_array_reference@ == array@,
        default@.len() == 0,
{
}

} // verus!
