//! The options of one conversion run.

use vstd::prelude::*;

verus! {

/// What the command line asks for: the source path, the destination path if
/// one was given, and the two output options.
#[derive(Debug)]
pub struct Args {
    /// Path of the comma-separated source file.
    pub input: String,
    /// Path of the JSON destination file, when given explicitly.
    pub output: Option<String>,
    /// Blank fields become JSON null instead of the empty string.
    pub is_nulled: bool,
    /// The document is an object keyed by each row's first field, not an array.
    pub is_keyed: bool,
}

/// The run that parsed command-line options ask for: none where help is
/// asked for or no source path is given; otherwise the first free argument
/// is the source path.
pub fn args_from_options(
    help: bool,
    keyed: bool,
    nulled: bool,
    output: Option<String>,
    free: &Vec<String>,
) -> (r: Option<Args>)
    ensures
        r is None <==> (help || free@.len() == 0),
        r matches Some(a) ==> a.input@ == free@[0]@ && a.output == output && a.is_keyed == keyed
            && a.is_nulled == nulled,
{
    if help || free.len() == 0 {
        return None;
    }
    Some(Args { input: free[0].clone(), output, is_nulled: nulled, is_keyed: keyed })
}

} // verus!
