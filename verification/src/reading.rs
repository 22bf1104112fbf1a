//! One field of a reply, held as the text that the module wrote.
use crate::literal::{is_decimal, is_decimal_literal};
use vstd::prelude::*;

verus! {

/// The number of bytes in one field of a reply.
pub const FIELD_LEN: usize = 7;

/// One channel's value as the module wrote it: seven bytes of text that form
/// a decimal literal, such as `+04.123`.
///
/// The text is kept as it came. Turning it into a binary floating-point
/// number is left to the caller: the grammar of the literal, given in
/// [`crate::literal`], is written after that of the standard decimal parser.
#[derive(Clone, Copy, Debug, PartialEq, Eq)]
pub struct Reading {
    text: [u8; FIELD_LEN],
}

impl View for Reading {
    type V = Seq<u8>;

    closed spec fn view(&self) -> Seq<u8> {
        self.text@
    }
}

impl Reading {
    #[verifier::type_invariant]
    spec fn holds_literal(self) -> bool {
        is_decimal(self.text@)
    }

    /// Takes `field` as a reading if it is seven bytes that form a decimal
    /// literal, and refuses it otherwise.
    pub fn from_bytes(field: &[u8]) -> (r: Option<Reading>)
        ensures
            r is Some <==> field@.len() == FIELD_LEN && is_decimal(field@),
            r matches Some(reading) ==> reading@ == field@,
    {
        if field.len() != FIELD_LEN || !is_decimal_literal(field) {
            return None;
        }
        let text = [field[0], field[1], field[2], field[3], field[4], field[5], field[6]];
        assert(text@ =~= field@);
        Some(Reading { text })
    }

    /// The seven bytes of the literal.
    pub fn as_bytes(&self) -> (text: &[u8; FIELD_LEN])
        ensures
            text@ == self@,
            self@.len() == FIELD_LEN,
            is_decimal(self@),
    {
        proof {
            use_type_invariant(self);
        }
        &self.text
    }
}

} // verus!
