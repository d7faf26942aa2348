use vstd::prelude::*;
use crate::inner::inner::{code_printable, code_text, int_to_code};
use crate::util::bytes::i32_to_u32;

verus! {

/// A game code: its number and its six letters.
#[derive(Debug, Clone, PartialEq, Eq, Hash)]
pub struct GameCode {
    pub code_int: i32,
    pub code_string: String,
}

impl GameCode {
    /// The code of a game number; its letters are those of `int_to_code`.
    pub fn new_code_int(code_int: i32) -> (r: GameCode)
        requires
            code_printable(code_int),
        ensures
            r.code_int == code_int,
            r.code_string@ == code_text(code_int),
    {
        GameCode { code_int, code_string: int_to_code(code_int) }
    }

    /// The code of a game number, when `int_to_code` can spell it.
    pub fn checked_code_int(code_int: i32) -> (r: Option<GameCode>)
        ensures
            r is Some <==> code_printable(code_int),
            r is Some ==> r.unwrap().code_int == code_int && r.unwrap().code_string@ == code_text(code_int),
    {
        if code_int < 0 && i32_to_u32(code_int) % 1024 >= 676 {
            None
        } else {
            Some(GameCode::new_code_int(code_int))
        }
    }

    /// An equal copy.
    pub fn duplicate(&self) -> (r: GameCode)
        ensures
            r == *self,
    {
        GameCode { code_int: self.code_int, code_string: self.code_string.clone() }
    }
}

} // verus!
