//! The boundary to the outside expression evaluator (`calculator_lib`).
//!
//! Construction of an evaluator from text and evaluation at a sample are
//! given names (`construct_of`, `eval_of`) that the pipeline's contracts are
//! stated over. Whether each call succeeds, and every error text, depend on
//! the arguments alone, and so does the evaluated value — except for the
//! payload bits of a NaN result and for values computed through the power
//! operator, which go through a platform-dependent library function; the
//! contracts leave those bits unpinned. The evaluated value is carried as
//! the bit pattern of the 64-bit floating-point result; the host turns it
//! back into a number for drawing.

use vstd::prelude::*;
use crate::scan::{dip_then_completion, group_head_op, has_power_char};

verus! {

#[verifier::external_type_specification]
#[verifier::external_body]
pub struct ExCalculator(calculator_lib::Calculator);

/// What constructing an evaluator from the equation text yields: `Ok` when
/// the text parses, otherwise the parse error's description. Parsing depends
/// on the text alone.
pub uninterp spec fn construct_of(eq: Seq<char>) -> Result<(), Seq<char>>;

/// What evaluating the equation at an integer sample yields: the bit pattern
/// of the 64-bit floating-point result, otherwise the evaluation error's
/// description. Success, failure and error text depend on the text and the
/// sample alone; the value's bits do too, unless the value is a NaN or the
/// text holds a power operator (see the module comment), in which case the
/// trusted contracts say nothing about them.
pub uninterp spec fn eval_of(eq: Seq<char>, x: int) -> Result<u64, Seq<char>>;

/// The bit pattern of a 64-bit floating-point NaN: exponent bits all set and
/// a non-zero mantissa.
pub open spec fn is_nan_bits(b: u64) -> bool {
    (b >> 52) & 0x7ff == 0x7ff && b & 0xf_ffff_ffff_ffff != 0
}

/// An expression evaluator paired with the text it was built from. Values
/// exist only through [`Evaluator::construct`], so the pairing always holds.
pub struct Evaluator {
    calc: calculator_lib::Calculator,
    text: String,
}

impl Evaluator {
    /// The text this evaluator was built from.
    pub closed spec fn source(self) -> Seq<char> {
        self.text@
    }

    /// Relies on `calculator_lib::Calculator::new`: it parses the text it is
    /// given and nothing else, and returns `Err` on text it cannot parse. On
    /// text where a bracket group completes after the bracket depth has
    /// dipped below zero, it inserts the group at an out-of-range index, so
    /// such text is excluded here and screened by the caller.
    #[verifier::external_body]
    pub(crate) fn construct(text: &String) -> (r: Result<Evaluator, String>)
        requires
            !dip_then_completion(text@),
        ensures
            r is Ok <==> construct_of(text@) is Ok,
            r is Ok ==> r->Ok_0.source() == text@,
            r is Err ==> r->Err_0@ == construct_of(text@)->Err_0,
    {
        match calculator_lib::Calculator::new(text.clone()) {
            Ok(calc) => Ok(Evaluator { calc, text: text.clone() }),
            Err(e) => Err(e.to_string()),
        }
    }

    /// Relies on `calculator_lib::Calculator::calculate`: success, failure,
    /// the error text, and every value bit not excepted in the module
    /// comment depend on the parsed text and the sample alone. On text where
    /// an operator heads the token list of the equation or of a bracket
    /// group that takes part in evaluation, it subtracts below zero while
    /// indexing, so such text is excluded here and screened by the caller.
    #[verifier::external_body]
    pub(crate) fn evaluate(&self, x: i64) -> (r: Result<u64, String>)
        requires
            construct_of(self.source()) is Ok,
            !dip_then_completion(self.source()),
            !group_head_op(self.source()),
        ensures
            r is Ok <==> eval_of(self.source(), x as int) is Ok,
            r is Ok && !has_power_char(self.source()) && !is_nan_bits(
                eval_of(self.source(), x as int)->Ok_0,
            ) ==> r->Ok_0 == eval_of(self.source(), x as int)->Ok_0,
            r is Err ==> r->Err_0@ == eval_of(self.source(), x as int)->Err_0,
    {
        match self.calc.calculate(Some(x as _)) {
            Ok(y) => Ok(y.to_bits()),
            Err(e) => Err(e.to_string()),
        }
    }
}

} // verus!
