//! What the bindings decide around KenLM's command-line tools: which argument
//! lists may be handed to a tool's `main`, and which exit code a tool's status
//! becomes.

use vstd::prelude::*;
use vstd::utf8::encode_utf8;
use crate::error::KenlmError;
use crate::error::{first_nul_at, nul_free};
use crate::text::c_string_bytes;

verus! {

/// The exit code for a tool status: the status clamped into `0..=255`.
pub open spec fn exit_code_of(status: i32) -> u8 {
    if status < 0 {
        0
    } else if status > 255 {
        255
    } else {
        status as u8
    }
}

/// A status that fits in a byte is its own exit code; a negative status
/// becomes 0 and a status above 255 becomes 255.
pub proof fn lemma_exit_code_clamps(status: i32)
    ensures
        0 <= status <= 255 ==> exit_code_of(status) as int == status as int,
        status < 0 ==> exit_code_of(status) == 0,
        status > 255 ==> exit_code_of(status) == 255,
{
}

/// The exit code a process reports for a tool that returned `status`.
pub fn exit_code(status: i32) -> (code: u8)
    ensures
        code == exit_code_of(status),
        0 <= status <= 255 ==> code as int == status as int,
        status < 0 ==> code == 0,
        status > 255 ==> code == 255,
{
    if status < 0 {
        0
    } else if status > 255 {
        255
    } else {
        status as u8
    }
}

/// The bytes of each argument, ready to become C strings, or the error for
/// the first argument that holds a NUL byte.
pub fn argument_bytes(args: &Vec<String>) -> (result: Result<Vec<Vec<u8>>, KenlmError>)
    ensures
        result matches Ok(bytes) ==> {
            &&& bytes@.len() == args@.len()
            &&& forall|i: int|
                0 <= i < args@.len() ==> (#[trigger] bytes@[i])@ == encode_utf8(args@[i]@)
                    && nul_free(bytes@[i]@)
        },
        result is Ok <==> forall|i: int|
            0 <= i < args@.len() ==> nul_free(encode_utf8((#[trigger] args@[i])@)),
        result matches Err(error) ==> exists|k: int|
            {
                &&& 0 <= k < args@.len()
                &&& forall|i: int| 0 <= i < k ==> nul_free(encode_utf8((#[trigger] args@[i])@))
                &&& (error matches KenlmError::InteriorNul(e) && e@.bytes == encode_utf8(
                    #[trigger] args@[k]@,
                ) && first_nul_at(e@.bytes, e@.position as int))
            },
{
    let mut out: Vec<Vec<u8>> = Vec::new();
    let mut i: usize = 0;
    while i < args.len()
        invariant
            i <= args@.len(),
            out@.len() == i,
            forall|j: int|
                0 <= j < i ==> (#[trigger] out@[j])@ == encode_utf8(args@[j]@) && nul_free(
                    out@[j]@,
                ),
            forall|j: int| 0 <= j < i ==> nul_free(encode_utf8((#[trigger] args@[j])@)),
        decreases args@.len() - i,
    {
        match c_string_bytes(args[i].as_str()) {
            Ok(bytes) => out.push(bytes),
            Err(error) => {
                return Err(error);
            },
        }
        i = i + 1;
    }
    Ok(out)
}

} // verus!
