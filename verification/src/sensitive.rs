//! A holder for secret text that is erased on request.

use vstd::prelude::*;
use zeroize::Zeroize;

verus! {

/// `Zeroize::zeroize` of the `zeroize` crate, on a `String`: the bytes of the
/// string are overwritten with zeros and the string is left empty.
#[verifier::external_body]
pub(crate) fn wipe_text(text: &mut String)
    ensures
        final(text)@.len() == 0,
{
    text.zeroize()
}

/// `Zeroize::zeroize` of the `zeroize` crate, on a `Vec<u8>`: the bytes of the
/// vector are overwritten with zeros and the vector is left empty.
#[verifier::external_body]
pub(crate) fn wipe_bytes(bytes: &mut Vec<u8>)
    ensures
        final(bytes)@.len() == 0,
{
    bytes.zeroize()
}

/// Secret text: a password, or the decrypted text of a container.
///
/// Whoever holds one calls `wipe` before letting go of it. The library's own
/// functions let go of a holder through `discard`, which takes none that has
/// not been wiped.
pub struct SensitiveData {
    content: String,
}

impl View for SensitiveData {
    type V = Seq<char>;

    closed spec fn view(&self) -> Seq<char> {
        self.content@
    }
}

impl SensitiveData {
    /// Nothing of the secret is left in the holder.
    pub open spec fn is_wiped(&self) -> bool {
        self@.len() == 0
    }

    /// Takes the secret into a holder.
    pub fn new(content: String) -> (data: SensitiveData)
        ensures
            data@ == content@,
    {
        SensitiveData { content }
    }

    /// The secret, to read.
    pub fn expose(&self) -> (text: &str)
        ensures
            text@ == self@,
    {
        self.content.as_str()
    }

    /// Gives the secret up to the caller, who then answers for it.
    pub fn into_text(self) -> (text: String)
        ensures
            text@ == self@,
    {
        self.content
    }

    /// Erases the secret.
    pub fn wipe(&mut self)
        ensures
            final(self).is_wiped(),
    {
        wipe_text(&mut self.content);
    }

    /// Lets go of a holder that has been wiped.
    pub(crate) fn discard(self)
        requires
            self.is_wiped(),
    {
    }
}

} // verus!
