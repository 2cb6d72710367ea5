//! The characters that may stand in an identifier of the host language.
use vstd::prelude::*;

verus! {

/// What `unicode_ident::is_xid_start` answers: whether the character has the
/// Unicode property `XID_Start`.
pub uninterp spec fn xid_start(c: char) -> bool;

/// What `unicode_ident::is_xid_continue` answers: whether the character has
/// the Unicode property `XID_Continue`.
pub uninterp spec fn xid_continue(c: char) -> bool;

/// `unicode_ident::is_xid_start` looks the character up in fixed tables, so
/// its answer depends on the character alone and is named [`xid_start`].
pub assume_specification[ unicode_ident::is_xid_start ](ch: char) -> (r: bool)
    ensures
        r == xid_start(ch),
;

/// `unicode_ident::is_xid_continue` looks the character up in fixed tables,
/// so its answer depends on the character alone and is named
/// [`xid_continue`].
pub assume_specification[ unicode_ident::is_xid_continue ](ch: char) -> (r: bool)
    ensures
        r == xid_continue(ch),
;

/// Whether the character may stand inside an identifier.
pub open spec fn is_ident_char(c: char) -> bool {
    xid_continue(c) || xid_start(c)
}

/// Whether the character may stand inside an identifier.
pub fn ident_char(c: char) -> (r: bool)
    ensures
        r == is_ident_char(c),
{
    unicode_ident::is_xid_continue(c) || unicode_ident::is_xid_start(c)
}

} // verus!
