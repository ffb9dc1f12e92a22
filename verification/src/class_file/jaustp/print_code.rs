use vstd::prelude::*;
use vstd::string::*;

use crate::class_file::bytecode::ByteCode;
use crate::class_file::constant_pool::ConstantPool;
use crate::class_file::methods::{Method, MethodView};
use crate::class_file::text::concat_each;

verus! {

/// The line of a method's listing for one instruction.
pub open spec fn instruction_line() -> spec_fn(ByteCode) -> Seq<char> {
    |instruction: ByteCode| "\t- "@ + instruction.text() + "\n"@
}

/// `acc`, followed by a line for each instruction of the method's code;
/// `acc` as it is for a method without code.
pub open spec fn code_onto(acc: Seq<char>, method: MethodView) -> Seq<char> {
    match method.code(0) {
        Some(code) => concat_each(acc, code.code, 0, instruction_line()),
        None => acc,
    }
}

/// Appends a line for each instruction of the method's code.
#[verifier::loop_isolation(false)]
pub fn print_code(method: &Method, _cp: &ConstantPool, out: &mut String)
    ensures
        final(out)@ == code_onto(old(out)@, method@),
{
    match method.get_code() {
        Some(code) => {
            let instructions = code.code();
            let mut i: usize = 0;
            while i < instructions.len()
                invariant
                    i <= instructions.len(),
                    concat_each(out@, instructions@, i as int, instruction_line()) == code_onto(
                        old(out)@,
                        method@,
                    ),
                decreases instructions.len() - i,
            {
                let mut line = String::from_str("\t- ");
                line.append(instructions[i].to_string().as_str());
                line.append("\n");
                out.append(line.as_str());
                i += 1;
            }
        },
        None => {},
    }
}

} // verus!
