//! What running a command with the secrets of an environment decides: the
//! program and its arguments, and the exit code passed on.
use vstd::prelude::*;
use crate::error::ShieldError;
use crate::sorted_map::SortedMap;
use crate::state::DecryptedSecrets;

verus! {

/// Holds decrypted secrets so that they are wiped when no longer needed.
pub fn to_decrypted(values: SortedMap<String>) -> (s: DecryptedSecrets)
    ensures
        s.values == values,
{
    DecryptedSecrets::new(values)
}

/// Splits a command line into the program and its arguments; an empty command
/// line is refused.
pub fn command_parts(command: &Vec<String>) -> (r: Result<(String, Vec<String>), ShieldError>)
    ensures
        command@.len() == 0 ==> r matches Err(ShieldError::NoCommand),
        command@.len() > 0 ==> (r matches Ok((program, args)) && {
            &&& program@ == command@[0]@
            &&& args@.len() == command@.len() - 1
            &&& forall|i: int| 0 <= i < args@.len() ==> (#[trigger] args@[i])@ == command@[i + 1]@
        }),
{
    if command.len() == 0 {
        return Err(ShieldError::NoCommand);
    }
    let program = command[0].clone();
    let mut args: Vec<String> = Vec::new();
    let n = command.len();
    let mut i: usize = 1;
    while i < n
        invariant
            n == command@.len(),
            1 <= i <= n,
            args@.len() == i - 1,
            forall|j: int| 0 <= j < args@.len() ==> (#[trigger] args@[j])@ == command@[j + 1]@,
        decreases n - i,
    {
        args.push(command[i].clone());
        i = i + 1;
    }
    Ok((program, args))
}

/// The exit code passed on from the command: its own, or 1 where it has none
/// (it was ended by a signal).
pub fn exit_code(code: Option<i32>) -> (c: i32)
    ensures
        c == match code {
            Some(x) => x,
            None => 1i32,
        },
{
    match code {
        Some(x) => x,
        None => 1,
    }
}

} // verus!
