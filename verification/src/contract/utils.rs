use vstd::prelude::*;
use vstd::string::*;
use crate::text::{signed_decimal, signed_digits};

verus! {

/// The code with which a call to the ledger reports success.
pub const SUCCESS_CODE: i32 = 0;

/// A call to the ledger that failed: which call, and the code it gave.
#[derive(Debug)]
pub struct SysCallError(pub &'static str, pub i32);

impl SysCallError {
    /// The text of the error: the call's name, then the code it gave.
    pub open spec fn text(&self) -> Seq<char> {
        "syscall: "@ + self.0@ + ", result_code: "@ + signed_digits(self.1 as int)
    }

    /// What failed, as text.
    pub fn to_text(&self) -> (r: String)
        ensures
            r@ == self.text(),
    {
        let mut r = String::from_str("syscall: ");
        r.append(self.0);
        r.append(", result_code: ");
        let code = signed_decimal(self.1);
        r.append(code.as_str());
        r
    }
}

/// The error of a call that gave a code.
pub fn sys_call_err(call: &'static str, code: i32) -> (e: SysCallError)
    ensures
        e.0 == call,
        e.1 == code,
        e.text() == "syscall: "@ + call@ + ", result_code: "@ + signed_digits(code as int),
{
    SysCallError(call, code)
}

/// Tells success from failure by the code that a call gave.
pub fn sys_call(call: &'static str, code: i32) -> (r: Result<(), SysCallError>)
    ensures
        r is Ok <==> code == SUCCESS_CODE,
        r matches Err(e) ==> e.0 == call && e.1 == code && e.text() == "syscall: "@ + call@
            + ", result_code: "@ + signed_digits(code as int),
{
    if code == SUCCESS_CODE {
        Ok(())
    } else {
        Err(SysCallError(call, code))
    }
}

} // verus!
