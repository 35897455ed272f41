use vstd::prelude::*;

verus! {

/// Fixed capacity of the receive buffer, in bytes. The receive loop stops
/// accepting bytes once the buffer holds this many.
pub const RCV_BUF_LEN: usize = 1600;

#[verifier::external_type_specification]
#[verifier::external_body]
#[verifier::reject_recursive_types(T)]
pub struct ExHeaplessVec<T, const N: usize>(heapless::Vec<T, N>);

/// The bytes a receive buffer currently holds, oldest first.
pub uninterp spec fn buf_bytes(v: heapless::Vec<u8, RCV_BUF_LEN>) -> Seq<u8>;

/// Relies on heapless::Vec::new: a freshly constructed vector is empty.
#[verifier::external_body]
pub(crate) fn buf_new() -> (r: heapless::Vec<u8, RCV_BUF_LEN>)
    ensures
        buf_bytes(r) == Seq::<u8>::empty(),
{
    heapless::Vec::new()
}

/// Relies on heapless::Vec::clear: removes every element.
#[verifier::external_body]
pub(crate) fn buf_clear(v: &mut heapless::Vec<u8, RCV_BUF_LEN>)
    ensures
        buf_bytes(*final(v)) == Seq::<u8>::empty(),
{
    v.clear()
}

/// Relies on heapless::Vec::push: appends the item and returns Ok when the
/// length is below the capacity N, and returns the item back (changing
/// nothing) when the vector is full.
#[verifier::external_body]
pub(crate) fn buf_push(v: &mut heapless::Vec<u8, RCV_BUF_LEN>, b: u8) -> (r: bool)
    ensures
        buf_bytes(*old(v)).len() < RCV_BUF_LEN ==> r && buf_bytes(*final(v))
            == buf_bytes(*old(v)).push(b),
        buf_bytes(*old(v)).len() >= RCV_BUF_LEN ==> !r && buf_bytes(*final(v))
            == buf_bytes(*old(v)),
{
    v.push(b).is_ok()
}

/// Relies on heapless::Vec::as_slice: returns the `len` initialized
/// elements, in order.
#[verifier::external_body]
pub(crate) fn buf_as_slice(v: &heapless::Vec<u8, RCV_BUF_LEN>) -> (r: &[u8])
    ensures
        r@ == buf_bytes(*v),
{
    v.as_slice()
}

} // verus!
