use vstd::prelude::*;

verus! {

/// The class of a math character, the first hexadecimal digit of its math
/// code.
#[derive(Clone, Copy, Debug, PartialEq, Eq, Structural)]
pub enum MathClass {
    Ordinary,
    LargeOperator,
    BinaryOperation,
    Relation,
    Opening,
    Closing,
    Punctuation,
    VariableFamily,
    Active,
}

impl MathClass {
    pub open spec fn spec_from_number(num: u8) -> MathClass {
        if num == 0 {
            MathClass::Ordinary
        } else if num == 1 {
            MathClass::LargeOperator
        } else if num == 2 {
            MathClass::BinaryOperation
        } else if num == 3 {
            MathClass::Relation
        } else if num == 4 {
            MathClass::Opening
        } else if num == 5 {
            MathClass::Closing
        } else if num == 6 {
            MathClass::Punctuation
        } else {
            MathClass::VariableFamily
        }
    }

    pub fn from_number(num: u8) -> (c: MathClass)
        requires
            num <= 7,
        ensures
            c == MathClass::spec_from_number(num),
    {
        match num {
            0 => MathClass::Ordinary,
            1 => MathClass::LargeOperator,
            2 => MathClass::BinaryOperation,
            3 => MathClass::Relation,
            4 => MathClass::Opening,
            5 => MathClass::Closing,
            6 => MathClass::Punctuation,
            _ => MathClass::VariableFamily,
        }
    }
}

/// A math code: the class, family and position that a character or a
/// `\mathchardef` stands for in math mode.
#[derive(Clone, Copy, Debug, PartialEq, Eq, Structural)]
pub struct MathCode {
    pub class: MathClass,
    pub family: u8,
    pub position: u8,
}

/// The math code that a number in 0..=0x8000 stands for: "8000 makes a
/// character active in math; below it, the digits are class, family and
/// position, 4 + 4 + 8 bits.
pub open spec fn math_code_of_number(num: u32) -> MathCode {
    if num == 0x8000 {
        MathCode { class: MathClass::Active, family: 0, position: 0 }
    } else {
        MathCode {
            class: MathClass::spec_from_number((num / 0x1000) as u8),
            family: ((num / 0x100) % 0x10) as u8,
            position: (num % 0x100) as u8,
        }
    }
}

impl MathCode {
    pub fn from_number(num: u32) -> (code: MathCode)
        requires
            num <= 0x8000,
        ensures
            code == math_code_of_number(num),
    {
        if num == 0x8000 {
            return MathCode { class: MathClass::Active, family: 0, position: 0 };
        }
        let class = (num / 0x1000) as u8;
        let family = ((num / 0x100) % 0x10) as u8;
        let position = (num % 0x100) as u8;

        MathCode { class: MathClass::from_number(class), family, position }
    }
}

/// The classes of math codes are numbered as in TeX: 0 ordinary, 1 large
/// operator (such as `\sum`, "1350), 2 binary operation (such as `+`,
/// "202B), 3 relation, 4 opening, 5 closing, 6 punctuation, and 7 (or more)
/// variable family. A math code below "8000 has the class numbered by its
/// top hexadecimal digit, the family of the next digit and the position of
/// its low byte; "8000 makes a character active.
pub proof fn law_math_class_numbers(n: u8, code: u32)
    ensures
        n == 0 ==> MathClass::spec_from_number(n) == MathClass::Ordinary,
        n == 1 ==> MathClass::spec_from_number(n) == MathClass::LargeOperator,
        n == 2 ==> MathClass::spec_from_number(n) == MathClass::BinaryOperation,
        n == 3 ==> MathClass::spec_from_number(n) == MathClass::Relation,
        n == 4 ==> MathClass::spec_from_number(n) == MathClass::Opening,
        n == 5 ==> MathClass::spec_from_number(n) == MathClass::Closing,
        n == 6 ==> MathClass::spec_from_number(n) == MathClass::Punctuation,
        n >= 7 ==> MathClass::spec_from_number(n) == MathClass::VariableFamily,
        code < 0x8000 ==> {
            &&& math_code_of_number(code).class == MathClass::spec_from_number((code / 0x1000) as u8)
            &&& math_code_of_number(code).family as int == (code / 0x100) % 0x10
            &&& math_code_of_number(code).position as int == code % 0x100
            &&& code == math_code_of_number(code).family as int * 0x100 + math_code_of_number(
                code,
            ).position as int + (code / 0x1000) * 0x1000
        },
        math_code_of_number(0x8000).class == MathClass::Active,
{
    if code < 0x8000 {
        assert(code == (code / 0x1000) * 0x1000 + ((code / 0x100) % 0x10) * 0x100 + code % 0x100)
            by (nonlinear_arith)
            requires
                code < 0x8000,
        ;
    }
}

} // verus!
