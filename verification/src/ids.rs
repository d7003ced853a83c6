use vstd::prelude::*;

verus! {

/// True iff `c` may appear in a hyphenated identifier: a lowercase
/// hexadecimal digit or the hyphen.
pub open spec fn is_id_char(c: char) -> bool {
    ||| c == '-'
    ||| '0' as u32 <= c as u32 && c as u32 <= '9' as u32
    ||| 'a' as u32 <= c as u32 && c as u32 <= 'f' as u32
}

/// Relies on `uuid::Uuid::new_v4` (and `Uuid::to_string`): a freshly drawn
/// random identifier, rendered in the hyphenated form. Nothing can be
/// promised about which identifier comes back; every outcome is 36
/// characters, each a lowercase hexadecimal digit or a hyphen, so never
/// empty and never holding a newline.
#[verifier::external_body]
pub(crate) fn fresh_id() -> (r: String)
    ensures
        r@.len() == 36,
        forall|i: int| 0 <= i < r@.len() ==> r@[i] != '\n',
        forall|i: int| 0 <= i < r@.len() ==> is_id_char(#[trigger] r@[i]),
{
    uuid::Uuid::new_v4().to_string()
}

} // verus!
