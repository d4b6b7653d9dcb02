//! Byte keys that tell the registrations of one component type apart.

use crate::std_calls::{boxed_bytes, lossy_string, utf8_lossy};
use vstd::prelude::*;
use vstd::utf8::{decode_utf8, valid_utf8};
use vstd::string::StringSliceAdditionalSpecFns;

verus! {

/// The key of one registration: an owned byte string.
pub type Key = Box<[u8]>;

/// Shows a key as text, replacing invalid UTF-8 with U+FFFD.
pub struct KeyDisplay<'a>(pub &'a [u8]);

impl<'a> KeyDisplay<'a> {
    /// The text this key shows as.
    pub fn to_string(&self) -> (res: String)
        ensures
            res@ == utf8_lossy(self.0@),
            valid_utf8(self.0@) ==> res@ == decode_utf8(self.0@),
    {
        lossy_string(self.0)
    }
}

/// A key, tagged with the argument position `N` it is meant for.
///
/// A system that names several keyed components reads the key of its `N`th argument from
/// the `DefKey<N>` that the world holds.
pub struct DefKey<const N: usize>(pub Key);

impl<const N: usize> View for DefKey<N> {
    type V = Seq<u8>;

    open spec fn view(&self) -> Seq<u8> {
        self.0@
    }
}

impl<const N: usize> Clone for DefKey<N> {
    fn clone(&self) -> (res: Self)
        ensures
            res@ == self@,
    {
        DefKey(boxed_bytes(&self.0))
    }
}

impl<const N: usize> DefKey<N> {
    /// A key holding a copy of `bytes`.
    pub fn from_bytes(bytes: &[u8]) -> (res: Self)
        ensures
            res@ == bytes@,
    {
        DefKey(boxed_bytes(bytes))
    }

    /// The same key, tagged for argument position `M`.
    pub fn arg<const M: usize>(&self) -> (res: DefKey<M>)
        ensures
            res@ == self@,
    {
        DefKey(boxed_bytes(&self.0))
    }

    /// A copy of the key's bytes.
    pub fn key(&self) -> (res: Key)
        ensures
            res@ == self@,
    {
        boxed_bytes(&self.0)
    }

    /// The key as text, with invalid UTF-8 replaced by U+FFFD.
    pub fn to_string(&self) -> (res: String)
        ensures
            res@ == utf8_lossy(self@),
            valid_utf8(self@) ==> res@ == decode_utf8(self@),
    {
        lossy_string(&self.0)
    }
}

impl<const N: usize> std::str::FromStr for DefKey<N> {
    type Err = std::convert::Infallible;

    /// The key holding the bytes of `s`; this never fails.
    fn from_str(s: &str) -> (res: Result<Self, Self::Err>)
        ensures
            res matches Ok(k) && k@ == s.spec_bytes(),
    {
        Ok(Self::from_bytes(s.as_bytes()))
    }
}

impl<const N: usize> std::ops::Deref for DefKey<N> {
    type Target = Key;

    fn deref(&self) -> (res: &Key)
        ensures
            res@ == self@,
    {
        &self.0
    }
}

} // verus!
