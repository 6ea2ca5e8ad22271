use vstd::prelude::*;

use crate::error::NetraError;
use crate::text::{push_str, string_from_chars};

verus! {

/// Text of the error for a registration that lacks callbacks.
pub open spec fn missing_callbacks_message() -> Seq<char> {
    "native executor registration is missing one or more callbacks"@
}

/// Accepts a native executor registration only when every callback is
/// present (`present[i]` tells whether callback `i` was supplied).
pub fn check_native_bindings(present: &Vec<bool>) -> (r: Result<(), NetraError>)
    ensures
        r is Ok <==> forall|i: int| 0 <= i < present@.len() ==> #[trigger] present@[i],
        r matches Err(e) ==> e matches NetraError::InvalidInput(m) && m@ == missing_callbacks_message(),
{
    let mut i: usize = 0;
    while i < present.len()
        invariant
            i <= present.len(),
            forall|k: int| 0 <= k < i ==> #[trigger] present@[k],
        decreases present.len() - i,
    {
        if !present[i] {
            return Err(NetraError::InvalidInput(
                "native executor registration is missing one or more callbacks".to_string(),
            ));
        }
        i += 1;
    }
    Ok(())
}

/// Text of the error for a failed native operation.
pub open spec fn native_failure_message(operation: Seq<char>) -> Seq<char> {
    "native "@ + operation + " operation failed"@
}

/// Interprets the status a native callback returned: 1 is success, any
/// other value a failure of the named operation.
pub fn native_status(operation_name: &str, status: i32) -> (r: Result<(), NetraError>)
    ensures
        r is Ok <==> status == 1,
        r matches Err(e) ==> e matches NetraError::OperationFailed(m) && m@ == native_failure_message(
            operation_name@,
        ),
{
    if status == 1 {
        Ok(())
    } else {
        let mut text: Vec<char> = Vec::new();
        push_str(&mut text, "native ");
        push_str(&mut text, operation_name);
        push_str(&mut text, " operation failed");
        assert(text@ =~= native_failure_message(operation_name@));
        Err(NetraError::OperationFailed(string_from_chars(&text)))
    }
}

/// Text of the error for an argument that cannot cross as a C string.
pub open spec fn interior_nul_message(operation: Seq<char>) -> Seq<char> {
    operation + " argument contains an interior null byte"@
}

/// Accepts an argument for a native call only when it holds no NUL
/// character (a C string cannot carry one).
pub fn check_c_string_argument(operation_name: &str, value: &str) -> (r: Result<(), NetraError>)
    ensures
        r is Ok <==> !value@.contains('\0'),
        r matches Err(e) ==> e matches NetraError::InvalidInput(m) && m@ == interior_nul_message(
            operation_name@,
        ),
{
    let chars = crate::text::chars_of(value);
    if crate::text::contains_char(&chars, '\0') {
        let mut text: Vec<char> = Vec::new();
        push_str(&mut text, operation_name);
        push_str(&mut text, " argument contains an interior null byte");
        assert(text@ =~= interior_nul_message(operation_name@));
        return Err(NetraError::InvalidInput(string_from_chars(&text)));
    }
    Ok(())
}

} // verus!
