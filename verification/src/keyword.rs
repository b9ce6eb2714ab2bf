//! The reserved words, which no identifier may spell.

use vstd::prelude::*;
use vstd::string::StringSliceAdditionalSpecFns;

verus! {

/// `if`
pub open spec fn word_if() -> Seq<u8> {
    seq![105u8, 102u8]
}

/// `then`
pub open spec fn word_then() -> Seq<u8> {
    seq![116u8, 104u8, 101u8, 110u8]
}

/// `else`
pub open spec fn word_else() -> Seq<u8> {
    seq![101u8, 108u8, 115u8, 101u8]
}

/// `when`
pub open spec fn word_when() -> Seq<u8> {
    seq![119u8, 104u8, 101u8, 110u8]
}

/// `as`
pub open spec fn word_as() -> Seq<u8> {
    seq![97u8, 115u8]
}

/// `is`
pub open spec fn word_is() -> Seq<u8> {
    seq![105u8, 115u8]
}

/// `expect`
pub open spec fn word_expect() -> Seq<u8> {
    seq![101u8, 120u8, 112u8, 101u8, 99u8, 116u8]
}

/// Whether `text` spells one of the reserved words `if`, `then`, `else`,
/// `when`, `as`, `is` and `expect`.
pub open spec fn is_keyword(text: Seq<u8>) -> bool {
    ||| text == word_if()
    ||| text == word_then()
    ||| text == word_else()
    ||| text == word_when()
    ||| text == word_as()
    ||| text == word_is()
    ||| text == word_expect()
}

/// Whether the bytes of `text` spell a reserved word.
pub fn spells_keyword(text: &[u8]) -> (r: bool)
    ensures
        r == is_keyword(text@),
{
    let n: usize = text.len();
    if n == 2 {
        let r: bool = (text[0] == 105 && text[1] == 102) || (text[0] == 97 && text[1] == 115) || (
        text[0] == 105 && text[1] == 115);
        proof {
            if text[0] == 105 && text[1] == 102 {
                assert(text@ =~= word_if());
            }
            if text[0] == 97 && text[1] == 115 {
                assert(text@ =~= word_as());
            }
            if text[0] == 105 && text[1] == 115 {
                assert(text@ =~= word_is());
            }
            if !r {
                assert(word_if()[0] == 105 && word_if()[1] == 102);
                assert(word_as()[0] == 97 && word_as()[1] == 115);
                assert(word_is()[0] == 105 && word_is()[1] == 115);
            }
        }
        r
    } else if n == 4 {
        let r: bool = (text[0] == 116 && text[1] == 104 && text[2] == 101 && text[3] == 110) || (
        text[0] == 101 && text[1] == 108 && text[2] == 115 && text[3] == 101) || (text[0] == 119
            && text[1] == 104 && text[2] == 101 && text[3] == 110);
        proof {
            if text[0] == 116 && text[1] == 104 && text[2] == 101 && text[3] == 110 {
                assert(text@ =~= word_then());
            }
            if text[0] == 101 && text[1] == 108 && text[2] == 115 && text[3] == 101 {
                assert(text@ =~= word_else());
            }
            if text[0] == 119 && text[1] == 104 && text[2] == 101 && text[3] == 110 {
                assert(text@ =~= word_when());
            }
            if !r {
                assert(word_then()[0] == 116 && word_then()[1] == 104 && word_then()[2] == 101
                    && word_then()[3] == 110);
                assert(word_else()[0] == 101 && word_else()[1] == 108 && word_else()[2] == 115
                    && word_else()[3] == 101);
                assert(word_when()[0] == 119 && word_when()[1] == 104 && word_when()[2] == 101
                    && word_when()[3] == 110);
            }
        }
        r
    } else if n == 6 {
        let r: bool = text[0] == 101 && text[1] == 120 && text[2] == 112 && text[3] == 101
            && text[4] == 99 && text[5] == 116;
        proof {
            if r {
                assert(text@ =~= word_expect());
            } else {
                assert(word_expect()[0] == 101 && word_expect()[1] == 120 && word_expect()[2]
                    == 112 && word_expect()[3] == 101 && word_expect()[4] == 99
                    && word_expect()[5] == 116);
            }
        }
        r
    } else {
        false
    }
}

/// Whether `word` is a reserved word.
pub fn is_reserved(word: &str) -> (r: bool)
    ensures
        r == is_keyword(word.spec_bytes()),
{
    spells_keyword(word.as_bytes())
}

} // verus!
