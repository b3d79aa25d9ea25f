//! The sources a sampling run reads, named by command-line arguments.

use vstd::prelude::*;

verus! {

/// One source of stream items.
#[derive(Debug, PartialEq, Eq)]
pub enum Input {
    /// A file, by its path.
    File(String),
    /// The standard input.
    Stdin,
}

/// The argument that names the standard input.
pub open spec fn is_stdin_name(arg: Seq<char>) -> bool {
    arg == "-"@
}

/// The source that one argument names.
pub open spec fn input_named(arg: String) -> Input {
    if is_stdin_name(arg@) {
        Input::Stdin
    } else {
        Input::File(arg)
    }
}

/// The sources that the file arguments name, in order: `-` is the standard input,
/// any other argument a file; no argument at all means the standard input alone.
pub fn inputs_from_arg_values(args: Vec<String>) -> (r: Vec<Input>)
    ensures
        args@.len() == 0 ==> r@ == seq![Input::Stdin],
        args@.len() > 0 ==> r@.len() == args@.len() && forall|i: int|
            0 <= i < args@.len() ==> r@[i] == input_named(#[trigger] args@[i]),
{
    if args.len() == 0 {
        return vec![Input::Stdin];
    }
    let dash: String = "-".to_owned();
    let mut r: Vec<Input> = Vec::new();
    let mut i: usize = 0;
    while i < args.len()
        invariant
            i <= args@.len(),
            dash@ == "-"@,
            r@.len() == i,
            forall|j: int| 0 <= j < i ==> r@[j] == input_named(#[trigger] args@[j]),
        decreases args@.len() - i,
    {
        let arg = args[i].clone();
        if arg == dash {
            r.push(Input::Stdin);
        } else {
            r.push(Input::File(arg));
        }
        i = i + 1;
    }
    r
}

} // verus!
