//! Fresh identifiers.

use vstd::prelude::*;

verus! {

/// Whether a character is a hexadecimal digit in lower case.
pub open spec fn is_hex(c: char) -> bool {
    ('0' <= c && c <= '9') || ('a' <= c && c <= 'f')
}

/// Whether a text has the hyphenated form of a random UUID, which is the fourth version of them.
pub open spec fn is_uuid(s: Seq<char>) -> bool {
    &&& s.len() == 36
    &&& forall|i: int|
        0 <= i < 36 ==> if i == 8 || i == 13 || i == 18 || i == 23 {
            #[trigger] s[i] == '-'
        } else {
            is_hex(s[i])
        }
    &&& s[14] == '4'
    &&& s[19] == '8' || s[19] == '9' || s[19] == 'a' || s[19] == 'b'
}

/// `uuid::Uuid::new_v4`, printed. The digits are random but for those that tell the version and the
/// variant; the text has the hyphenated form with lower case digits.
#[verifier::external_body]
pub(crate) fn new_uuid() -> (r: String)
    ensures
        is_uuid(r@),
{
    uuid::Uuid::new_v4().to_string()
}

/// The identifier of the user prompt that started a request: what a user submits at one time.
#[derive(Debug, PartialEq, Eq, PartialOrd, Ord, Hash, Clone)]
pub struct PromptId(String);

impl PromptId {
    /// The text of the identifier.
    pub closed spec fn text(self) -> Seq<char> {
        self.0@
    }

    /// A fresh identifier.
    pub fn new() -> (r: PromptId)
        ensures
            is_uuid(r.text()),
    {
        PromptId(new_uuid())
    }

    /// The identifier as a text.
    pub fn to_text(&self) -> (r: String)
        ensures
            r@ == self.text(),
    {
        self.0.clone()
    }
}

} // verus!
