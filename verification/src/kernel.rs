//! What the running kernel says of itself.

use vstd::prelude::*;
use vstd::utf8::{decode_utf8, valid_utf8};
use crate::error::Error;

verus! {

/// The answer to the question which system is running: five texts, each in a
/// field of 65 bytes and ended by a zero byte.
#[derive(Clone, Copy, Debug, PartialEq, Eq)]
pub struct Utsname {
    pub sysname: [u8; 65],
    pub nodename: [u8; 65],
    pub release: [u8; 65],
    pub version: [u8; 65],
    pub machine: [u8; 65],
}

/// Every byte of a field is zero.
pub open spec fn blank(field: Seq<u8>) -> bool {
    forall|i: int| 0 <= i < field.len() ==> field[i] == 0
}

/// The bytes of a field before its first zero byte; all of them where it has
/// none.
pub open spec fn until_nul(field: Seq<u8>) -> Seq<u8>
    decreases field.len(),
{
    if field.len() == 0 || field[0] == 0 {
        Seq::<u8>::empty()
    } else {
        seq![field[0]] + until_nul(field.drop_first())
    }
}

/// `until_nul` ends at the first position that is the field's end or holds a
/// zero byte.
pub proof fn lemma_until_nul(field: Seq<u8>, end: int)
    requires
        0 <= end <= field.len(),
        forall|i: int| 0 <= i < end ==> field[i] != 0,
        end == field.len() || field[end] == 0,
    ensures
        until_nul(field) == field.take(end),
    decreases field.len(),
{
    if end == 0 {
        assert(field.take(0) =~= Seq::<u8>::empty());
    } else {
        let rest = field.drop_first();
        assert forall|i: int| 0 <= i < end - 1 implies rest[i] != 0 by {
            assert(rest[i] == field[i + 1]);
        }
        lemma_until_nul(rest, end - 1);
        assert(field.take(end) =~= seq![field[0]] + rest.take(end - 1));
    }
}

/// `String::from_utf8` of std: the text that the bytes encode, and `None` where
/// they are not UTF-8. What is valid and what the bytes then decode to is as
/// vstd defines it.
#[verifier::external_body]
pub(crate) fn text_of(bytes: Vec<u8>) -> (text: Option<String>)
    ensures
        text is Some <==> valid_utf8(bytes@),
        text matches Some(t) ==> t@ == decode_utf8(bytes@),
{
    String::from_utf8(bytes).ok()
}

impl Utsname {
    /// An answer that is still to be filled in: every byte is zero.
    pub fn new() -> (empty: Utsname)
        ensures
            blank(empty.sysname@),
            blank(empty.nodename@),
            blank(empty.release@),
            blank(empty.version@),
            blank(empty.machine@),
    {
        Utsname {
            sysname: [0u8; 65],
            nodename: [0u8; 65],
            release: [0u8; 65],
            version: [0u8; 65],
            machine: [0u8; 65],
        }
    }

    /// The bytes of the kernel's release, without the zero byte that ends
    /// them.
    pub open spec fn release_bytes(&self) -> Seq<u8> {
        until_nul(self.release@)
    }

    /// The kernel's release as text: the name of its module tree.
    ///
    /// Fails with a decoding error where the bytes are not UTF-8.
    pub fn release_text(&self) -> (text: Result<String, Error>)
        ensures
            match text {
                Ok(t) => valid_utf8(self.release_bytes()) && t@ == decode_utf8(
                    self.release_bytes(),
                ),
                Err(e) => !valid_utf8(self.release_bytes()) && e == Error::Decoding,
            },
    {
        let mut bytes: Vec<u8> = Vec::new();
        let mut i: usize = 0;
        while i < 65 && self.release[i] != 0
            invariant
                i <= 65,
                self.release@.len() == 65,
                bytes@ == self.release@.take(i as int),
                forall|k: int| 0 <= k < i ==> self.release@[k] != 0,
            decreases 65 - i,
        {
            bytes.push(self.release[i]);
            assert(self.release@.take(i + 1) =~= self.release@.take(i as int).push(
                self.release@[i as int],
            ));
            i += 1;
        }
        proof {
            lemma_until_nul(self.release@, i as int);
        }
        match text_of(bytes) {
            Some(t) => Ok(t),
            None => Err(Error::Decoding),
        }
    }
}

} // verus!
