use vstd::prelude::*;

verus! {

/// Error returned when a position cannot be represented by the index type.
#[derive(Debug, Clone, Copy, PartialEq, Eq, Structural)]
pub struct IndexError;

/// The largest position representable both by an index type whose own maximum
/// value is `m` and by the machine's position counter.
pub open spec fn min_with_usize_max(m: int) -> usize {
    if m <= usize::MAX as int {
        m as usize
    } else {
        usize::MAX
    }
}

/// A bounded integer representation of a physical position.
///
/// A value is valid when its represented position lies in `0 ..= max_spec()`;
/// `from_usize`/`try_from_usize` only produce valid values, and `to_usize`
/// requires one, so the checked conversions establish what the unchecked
/// direction relies on.
pub trait StoreIndex: Sized {
    /// The largest position this type can represent.
    spec fn max_spec() -> usize;

    /// The position a value stands for.
    spec fn index_spec(&self) -> int;

    /// The maximum representable position, as a run-time value.
    fn get_max() -> (r: usize)
        ensures
            r == Self::max_spec(),
    ;

    /// Read the represented position back out of a valid value.
    fn to_usize(&self) -> (r: usize)
        requires
            0 <= self.index_spec() <= Self::max_spec() as int,
        ensures
            r as int == self.index_spec(),
    ;

    /// Checked conversion: succeeds exactly on representable positions.
    fn try_from_usize(value: usize) -> (r: Result<Self, IndexError>)
        ensures
            (value <= Self::max_spec()) <==> r is Ok,
            r matches Ok(i) ==> i.index_spec() == value as int,
    ;

    /// Reads the represented position out of any value, with a run-time
    /// validity check in place of `to_usize`'s precondition.
    fn checked_pos(&self) -> (r: Option<usize>)
        ensures
            r == if 0 <= self.index_spec() <= Self::max_spec() as int {
                Some(self.index_spec() as usize)
            } else {
                None::<usize>
            },
    ;

    /// Conversion whose precondition the caller has already established.
    fn from_usize(value: usize) -> (r: Self)
        requires
            value <= Self::max_spec(),
        ensures
            r.index_spec() == value as int,
    {
        match Self::try_from_usize(value) {
            Ok(i) => i,
            Err(_) => vstd::pervasive::unreached(),
        }
    }
}

impl StoreIndex for u8 {
    open spec fn max_spec() -> usize {
        min_with_usize_max(u8::MAX as int)
    }

    open spec fn index_spec(&self) -> int {
        *self as int
    }

    fn get_max() -> (r: usize) {
        u8::MAX as usize
    }

    fn to_usize(&self) -> (r: usize) {
        *self as usize
    }

    fn checked_pos(&self) -> (r: Option<usize>) {
        Some(*self as usize)
    }

    fn try_from_usize(value: usize) -> (r: Result<Self, IndexError>) {
        if value <= u8::MAX as usize {
            Ok(value as u8)
        } else {
            Err(IndexError)
        }
    }
}

impl StoreIndex for u16 {
    open spec fn max_spec() -> usize {
        min_with_usize_max(u16::MAX as int)
    }

    open spec fn index_spec(&self) -> int {
        *self as int
    }

    fn get_max() -> (r: usize) {
        u16::MAX as usize
    }

    fn to_usize(&self) -> (r: usize) {
        *self as usize
    }

    fn checked_pos(&self) -> (r: Option<usize>) {
        Some(*self as usize)
    }

    fn try_from_usize(value: usize) -> (r: Result<Self, IndexError>) {
        if value <= u16::MAX as usize {
            Ok(value as u16)
        } else {
            Err(IndexError)
        }
    }
}

impl StoreIndex for u32 {
    open spec fn max_spec() -> usize {
        min_with_usize_max(u32::MAX as int)
    }

    open spec fn index_spec(&self) -> int {
        *self as int
    }

    fn get_max() -> (r: usize) {
        u32::MAX as usize
    }

    fn to_usize(&self) -> (r: usize) {
        *self as usize
    }

    fn checked_pos(&self) -> (r: Option<usize>) {
        Some(*self as usize)
    }

    fn try_from_usize(value: usize) -> (r: Result<Self, IndexError>) {
        if value <= u32::MAX as usize {
            Ok(value as u32)
        } else {
            Err(IndexError)
        }
    }
}

impl StoreIndex for u64 {
    open spec fn max_spec() -> usize {
        min_with_usize_max(u64::MAX as int)
    }

    open spec fn index_spec(&self) -> int {
        *self as int
    }

    fn get_max() -> (r: usize) {
        if (u64::MAX as u128) <= (usize::MAX as u128) {
            u64::MAX as usize
        } else {
            usize::MAX
        }
    }

    fn to_usize(&self) -> (r: usize) {
        *self as usize
    }

    fn checked_pos(&self) -> (r: Option<usize>) {
        if (*self as u128) <= (usize::MAX as u128) {
            Some(*self as usize)
        } else {
            None
        }
    }

    fn try_from_usize(value: usize) -> (r: Result<Self, IndexError>) {
        Ok(value as u64)
    }
}

impl StoreIndex for u128 {
    open spec fn max_spec() -> usize {
        min_with_usize_max(u128::MAX as int)
    }

    open spec fn index_spec(&self) -> int {
        *self as int
    }

    fn get_max() -> (r: usize) {
        usize::MAX
    }

    fn to_usize(&self) -> (r: usize) {
        *self as usize
    }

    fn checked_pos(&self) -> (r: Option<usize>) {
        if *self <= (usize::MAX as u128) {
            Some(*self as usize)
        } else {
            None
        }
    }

    fn try_from_usize(value: usize) -> (r: Result<Self, IndexError>) {
        Ok(value as u128)
    }
}

impl StoreIndex for usize {
    open spec fn max_spec() -> usize {
        usize::MAX
    }

    open spec fn index_spec(&self) -> int {
        *self as int
    }

    fn get_max() -> (r: usize) {
        usize::MAX
    }

    fn to_usize(&self) -> (r: usize) {
        *self
    }

    fn checked_pos(&self) -> (r: Option<usize>) {
        Some(*self)
    }

    fn try_from_usize(value: usize) -> (r: Result<Self, IndexError>) {
        Ok(value)
    }
}

impl StoreIndex for i8 {
    open spec fn max_spec() -> usize {
        min_with_usize_max(i8::MAX as int)
    }

    open spec fn index_spec(&self) -> int {
        *self as int
    }

    fn get_max() -> (r: usize) {
        i8::MAX as usize
    }

    fn to_usize(&self) -> (r: usize) {
        *self as usize
    }

    fn checked_pos(&self) -> (r: Option<usize>) {
        if *self >= 0 {
            Some(*self as usize)
        } else {
            None
        }
    }

    fn try_from_usize(value: usize) -> (r: Result<Self, IndexError>) {
        if value <= i8::MAX as usize {
            Ok(value as i8)
        } else {
            Err(IndexError)
        }
    }
}

impl StoreIndex for i16 {
    open spec fn max_spec() -> usize {
        min_with_usize_max(i16::MAX as int)
    }

    open spec fn index_spec(&self) -> int {
        *self as int
    }

    fn get_max() -> (r: usize) {
        i16::MAX as usize
    }

    fn to_usize(&self) -> (r: usize) {
        *self as usize
    }

    fn checked_pos(&self) -> (r: Option<usize>) {
        if *self >= 0 {
            Some(*self as usize)
        } else {
            None
        }
    }

    fn try_from_usize(value: usize) -> (r: Result<Self, IndexError>) {
        if value <= i16::MAX as usize {
            Ok(value as i16)
        } else {
            Err(IndexError)
        }
    }
}

impl StoreIndex for i32 {
    open spec fn max_spec() -> usize {
        min_with_usize_max(i32::MAX as int)
    }

    open spec fn index_spec(&self) -> int {
        *self as int
    }

    fn get_max() -> (r: usize) {
        i32::MAX as usize
    }

    fn to_usize(&self) -> (r: usize) {
        *self as usize
    }

    fn checked_pos(&self) -> (r: Option<usize>) {
        if *self >= 0 {
            Some(*self as usize)
        } else {
            None
        }
    }

    fn try_from_usize(value: usize) -> (r: Result<Self, IndexError>) {
        if value <= i32::MAX as usize {
            Ok(value as i32)
        } else {
            Err(IndexError)
        }
    }
}

impl StoreIndex for i64 {
    open spec fn max_spec() -> usize {
        min_with_usize_max(i64::MAX as int)
    }

    open spec fn index_spec(&self) -> int {
        *self as int
    }

    fn get_max() -> (r: usize) {
        if (i64::MAX as u128) <= (usize::MAX as u128) {
            i64::MAX as usize
        } else {
            usize::MAX
        }
    }

    fn to_usize(&self) -> (r: usize) {
        *self as usize
    }

    fn checked_pos(&self) -> (r: Option<usize>) {
        if *self >= 0 && (*self as u128) <= (usize::MAX as u128) {
            Some(*self as usize)
        } else {
            None
        }
    }

    fn try_from_usize(value: usize) -> (r: Result<Self, IndexError>) {
        if (value as u128) <= (i64::MAX as u128) {
            Ok(value as i64)
        } else {
            Err(IndexError)
        }
    }
}

impl StoreIndex for i128 {
    open spec fn max_spec() -> usize {
        min_with_usize_max(i128::MAX as int)
    }

    open spec fn index_spec(&self) -> int {
        *self as int
    }

    fn get_max() -> (r: usize) {
        usize::MAX
    }

    fn to_usize(&self) -> (r: usize) {
        *self as usize
    }

    fn checked_pos(&self) -> (r: Option<usize>) {
        if *self >= 0 && *self <= (usize::MAX as i128) {
            Some(*self as usize)
        } else {
            None
        }
    }

    fn try_from_usize(value: usize) -> (r: Result<Self, IndexError>) {
        Ok(value as i128)
    }
}

impl StoreIndex for isize {
    open spec fn max_spec() -> usize {
        min_with_usize_max(isize::MAX as int)
    }

    open spec fn index_spec(&self) -> int {
        *self as int
    }

    fn get_max() -> (r: usize) {
        isize::MAX as usize
    }

    fn to_usize(&self) -> (r: usize) {
        *self as usize
    }

    fn checked_pos(&self) -> (r: Option<usize>) {
        if *self >= 0 {
            Some(*self as usize)
        } else {
            None
        }
    }

    fn try_from_usize(value: usize) -> (r: Result<Self, IndexError>) {
        if value <= isize::MAX as usize {
            Ok(value as isize)
        } else {
            Err(IndexError)
        }
    }
}

#[verifier::external_type_specification]
#[verifier::external_body]
pub struct ExNonMaxU8(nonmax::NonMaxU8);

pub uninterp spec fn non_max_u8_val(x: nonmax::NonMaxU8) -> u8;

/// Relies on nonmax::NonMaxU8::get: returns the wrapped value, which by the
/// type's construction is never u8::MAX.
#[verifier::external_body]
fn non_max_u8_get(x: &nonmax::NonMaxU8) -> (r: u8)
    ensures
        r == non_max_u8_val(*x),
        r != u8::MAX,
{
    x.get()
}

/// Relies on nonmax::NonMaxU8::new: `Some` exactly when the value is not
/// u8::MAX, wrapping that value.
#[verifier::external_body]
fn non_max_u8_new(v: u8) -> (r: Option<nonmax::NonMaxU8>)
    ensures
        (v != u8::MAX) <==> r is Some,
        r matches Some(n) ==> non_max_u8_val(n) == v,
{
    nonmax::NonMaxU8::new(v)
}

impl StoreIndex for nonmax::NonMaxU8 {
    open spec fn max_spec() -> usize {
        min_with_usize_max(u8::MAX as int - 1)
    }

    open spec fn index_spec(&self) -> int {
        non_max_u8_val(*self) as int
    }

    fn get_max() -> (r: usize) {
        (u8::MAX - 1) as usize
    }

    fn to_usize(&self) -> (r: usize) {
        non_max_u8_get(self) as usize
    }

    fn checked_pos(&self) -> (r: Option<usize>) {
        Some(non_max_u8_get(self) as usize)
    }

    fn try_from_usize(value: usize) -> (r: Result<Self, IndexError>) {
        if value <= (u8::MAX - 1) as usize {
            match non_max_u8_new(value as u8) {
                Some(n) => Ok(n),
                None => vstd::pervasive::unreached(),
            }
        } else {
            Err(IndexError)
        }
    }
}

#[verifier::external_type_specification]
#[verifier::external_body]
pub struct ExNonMaxU32(nonmax::NonMaxU32);

pub uninterp spec fn non_max_u32_val(x: nonmax::NonMaxU32) -> u32;

/// Relies on nonmax::NonMaxU32::get: returns the wrapped value, which by the
/// type's construction is never u32::MAX.
#[verifier::external_body]
fn non_max_u32_get(x: &nonmax::NonMaxU32) -> (r: u32)
    ensures
        r == non_max_u32_val(*x),
        r != u32::MAX,
{
    x.get()
}

/// Relies on nonmax::NonMaxU32::new: `Some` exactly when the value is not
/// u32::MAX, wrapping that value.
#[verifier::external_body]
fn non_max_u32_new(v: u32) -> (r: Option<nonmax::NonMaxU32>)
    ensures
        (v != u32::MAX) <==> r is Some,
        r matches Some(n) ==> non_max_u32_val(n) == v,
{
    nonmax::NonMaxU32::new(v)
}

impl StoreIndex for nonmax::NonMaxU32 {
    open spec fn max_spec() -> usize {
        min_with_usize_max(u32::MAX as int - 1)
    }

    open spec fn index_spec(&self) -> int {
        non_max_u32_val(*self) as int
    }

    fn get_max() -> (r: usize) {
        (u32::MAX - 1) as usize
    }

    fn to_usize(&self) -> (r: usize) {
        non_max_u32_get(self) as usize
    }

    fn checked_pos(&self) -> (r: Option<usize>) {
        Some(non_max_u32_get(self) as usize)
    }

    fn try_from_usize(value: usize) -> (r: Result<Self, IndexError>) {
        if (value as u128) <= ((u32::MAX - 1) as u128) {
            match non_max_u32_new(value as u32) {
                Some(n) => Ok(n),
                None => vstd::pervasive::unreached(),
            }
        } else {
            Err(IndexError)
        }
    }
}

#[verifier::external_type_specification]
#[verifier::external_body]
pub struct ExNonMaxU64(nonmax::NonMaxU64);

pub uninterp spec fn non_max_u64_val(x: nonmax::NonMaxU64) -> u64;

/// Relies on nonmax::NonMaxU64::get: returns the wrapped value, which by the
/// type's construction is never u64::MAX.
#[verifier::external_body]
fn non_max_u64_get(x: &nonmax::NonMaxU64) -> (r: u64)
    ensures
        r == non_max_u64_val(*x),
        r != u64::MAX,
{
    x.get()
}

/// Relies on nonmax::NonMaxU64::new: `Some` exactly when the value is not
/// u64::MAX, wrapping that value.
#[verifier::external_body]
fn non_max_u64_new(v: u64) -> (r: Option<nonmax::NonMaxU64>)
    ensures
        (v != u64::MAX) <==> r is Some,
        r matches Some(n) ==> non_max_u64_val(n) == v,
{
    nonmax::NonMaxU64::new(v)
}

impl StoreIndex for nonmax::NonMaxU64 {
    open spec fn max_spec() -> usize {
        min_with_usize_max(u64::MAX as int - 1)
    }

    open spec fn index_spec(&self) -> int {
        non_max_u64_val(*self) as int
    }

    fn get_max() -> (r: usize) {
        if ((u64::MAX - 1) as u128) <= (usize::MAX as u128) {
            (u64::MAX - 1) as usize
        } else {
            usize::MAX
        }
    }

    fn to_usize(&self) -> (r: usize) {
        non_max_u64_get(self) as usize
    }

    fn checked_pos(&self) -> (r: Option<usize>) {
        let v = non_max_u64_get(self);
        if (v as u128) <= (usize::MAX as u128) {
            Some(v as usize)
        } else {
            None
        }
    }

    fn try_from_usize(value: usize) -> (r: Result<Self, IndexError>) {
        if (value as u128) <= ((u64::MAX - 1) as u128) {
            match non_max_u64_new(value as u64) {
                Some(n) => Ok(n),
                None => vstd::pervasive::unreached(),
            }
        } else {
            Err(IndexError)
        }
    }
}

#[verifier::external_type_specification]
#[verifier::external_body]
pub struct ExNonMaxU128(nonmax::NonMaxU128);

pub uninterp spec fn non_max_u128_val(x: nonmax::NonMaxU128) -> u128;

/// Relies on nonmax::NonMaxU128::get: returns the wrapped value, which by the
/// type's construction is never u128::MAX.
#[verifier::external_body]
fn non_max_u128_get(x: &nonmax::NonMaxU128) -> (r: u128)
    ensures
        r == non_max_u128_val(*x),
        r != u128::MAX,
{
    x.get()
}

/// Relies on nonmax::NonMaxU128::new: `Some` exactly when the value is not
/// u128::MAX, wrapping that value.
#[verifier::external_body]
fn non_max_u128_new(v: u128) -> (r: Option<nonmax::NonMaxU128>)
    ensures
        (v != u128::MAX) <==> r is Some,
        r matches Some(n) ==> non_max_u128_val(n) == v,
{
    nonmax::NonMaxU128::new(v)
}

impl StoreIndex for nonmax::NonMaxU128 {
    open spec fn max_spec() -> usize {
        min_with_usize_max(u128::MAX as int - 1)
    }

    open spec fn index_spec(&self) -> int {
        non_max_u128_val(*self) as int
    }

    fn get_max() -> (r: usize) {
        usize::MAX
    }

    fn to_usize(&self) -> (r: usize) {
        non_max_u128_get(self) as usize
    }

    fn checked_pos(&self) -> (r: Option<usize>) {
        let v = non_max_u128_get(self);
        if v <= (usize::MAX as u128) {
            Some(v as usize)
        } else {
            None
        }
    }

    fn try_from_usize(value: usize) -> (r: Result<Self, IndexError>) {
        match non_max_u128_new(value as u128) {
            Some(n) => Ok(n),
            None => vstd::pervasive::unreached(),
        }
    }
}

#[verifier::external_type_specification]
#[verifier::external_body]
pub struct ExNonMaxUsize(nonmax::NonMaxUsize);

pub uninterp spec fn non_max_usize_val(x: nonmax::NonMaxUsize) -> usize;

/// Relies on nonmax::NonMaxUsize::get: returns the wrapped value, which by the
/// type's construction is never usize::MAX.
#[verifier::external_body]
fn non_max_usize_get(x: &nonmax::NonMaxUsize) -> (r: usize)
    ensures
        r == non_max_usize_val(*x),
        r != usize::MAX,
{
    x.get()
}

/// Relies on nonmax::NonMaxUsize::new: `Some` exactly when the value is not
/// usize::MAX, wrapping that value.
#[verifier::external_body]
fn non_max_usize_new(v: usize) -> (r: Option<nonmax::NonMaxUsize>)
    ensures
        (v != usize::MAX) <==> r is Some,
        r matches Some(n) ==> non_max_usize_val(n) == v,
{
    nonmax::NonMaxUsize::new(v)
}

impl StoreIndex for nonmax::NonMaxUsize {
    open spec fn max_spec() -> usize {
        min_with_usize_max(usize::MAX as int - 1)
    }

    open spec fn index_spec(&self) -> int {
        non_max_usize_val(*self) as int
    }

    fn get_max() -> (r: usize) {
        usize::MAX - 1
    }

    fn to_usize(&self) -> (r: usize) {
        non_max_usize_get(self)
    }

    fn checked_pos(&self) -> (r: Option<usize>) {
        Some(non_max_usize_get(self))
    }

    fn try_from_usize(value: usize) -> (r: Result<Self, IndexError>) {
        if value <= usize::MAX - 1 {
            match non_max_usize_new(value) {
                Some(n) => Ok(n),
                None => vstd::pervasive::unreached(),
            }
        } else {
            Err(IndexError)
        }
    }
}

#[verifier::external_type_specification]
#[verifier::external_body]
pub struct ExNonMaxI8(nonmax::NonMaxI8);

pub uninterp spec fn non_max_i8_val(x: nonmax::NonMaxI8) -> i8;

/// Relies on nonmax::NonMaxI8::get: returns the wrapped value, which by the
/// type's construction is never i8::MAX.
#[verifier::external_body]
fn non_max_i8_get(x: &nonmax::NonMaxI8) -> (r: i8)
    ensures
        r == non_max_i8_val(*x),
        r != i8::MAX,
{
    x.get()
}

/// Relies on nonmax::NonMaxI8::new: `Some` exactly when the value is not
/// i8::MAX, wrapping that value.
#[verifier::external_body]
fn non_max_i8_new(v: i8) -> (r: Option<nonmax::NonMaxI8>)
    ensures
        (v != i8::MAX) <==> r is Some,
        r matches Some(n) ==> non_max_i8_val(n) == v,
{
    nonmax::NonMaxI8::new(v)
}

impl StoreIndex for nonmax::NonMaxI8 {
    open spec fn max_spec() -> usize {
        min_with_usize_max(i8::MAX as int - 1)
    }

    open spec fn index_spec(&self) -> int {
        non_max_i8_val(*self) as int
    }

    fn get_max() -> (r: usize) {
        (i8::MAX - 1) as usize
    }

    fn to_usize(&self) -> (r: usize) {
        non_max_i8_get(self) as usize
    }

    fn checked_pos(&self) -> (r: Option<usize>) {
        let v = non_max_i8_get(self);
        if v >= 0 {
            Some(v as usize)
        } else {
            None
        }
    }

    fn try_from_usize(value: usize) -> (r: Result<Self, IndexError>) {
        if value <= (i8::MAX - 1) as usize {
            match non_max_i8_new(value as i8) {
                Some(n) => Ok(n),
                None => vstd::pervasive::unreached(),
            }
        } else {
            Err(IndexError)
        }
    }
}

/// One physical slot of the backing array: a payload and the links that place
/// it in the logical order.
#[derive(Debug, Default)]
pub struct VecNode<T, I = usize> {
    pub payload: T,
    pub next: Option<I>,
    pub prev: Option<I>,
}

impl<T, I> VecNode<T, I> {
    pub fn new(payload: T) -> (r: Self)
        ensures
            r.payload == payload,
            r.next is None,
            r.prev is None,
    {
        VecNode { payload, next: None, prev: None }
    }
}

impl<T: Clone, I> VecNode<T, I> {
    /// A fresh node around a clone of the payload, with no links; links tie a
    /// node to one specific store, so they are deliberately not carried over.
    pub fn to_owned(&self) -> (r: Self)
        ensures
            vstd::pervasive::cloned(self.payload, r.payload),
            r.next is None,
            r.prev is None,
    {
        VecNode { payload: self.payload.clone(), next: None, prev: None }
    }
}

impl<T: Clone, I: Copy> VecNode<T, I> {
    /// Duplicates the node, links included. Links are meaningful only relative
    /// to the store the node came from, so this is not a `Clone` impl: it is
    /// for copying a whole store at once, where every link stays valid.
    pub fn not_clone(&self) -> (r: Self)
        ensures
            vstd::pervasive::cloned(self.payload, r.payload),
            r.next == self.next,
            r.prev == self.prev,
    {
        VecNode { payload: self.payload.clone(), next: self.next, prev: self.prev }
    }
}

} // verus!
