//! The settings of one conversion.

use vstd::prelude::*;

verus! {

/// What the command line asks for.
#[derive(Debug)]
pub struct Args {
    /// Path of the CSV file to read.
    pub input: String,
    /// Path of the JSON file to write, where one was given.
    pub output: Option<String>,
    /// Whether an empty cell becomes JSON `null` rather than `""`.
    pub is_nulled: bool,
    /// Whether the document is one object keyed by the first column rather
    /// than an array with one object per row.
    pub is_keyed: bool,
}

impl Args {
    /// The settings that parsed options give: none where help was asked for
    /// or no free argument names the file to read, else the first free
    /// argument as the input and the options as they are.
    pub fn from_options(
        help: bool,
        is_keyed: bool,
        is_nulled: bool,
        output: Option<String>,
        free: &Vec<String>,
    ) -> (args: Option<Args>)
        ensures
            args is None <==> help || free.len() == 0,
            args matches Some(args) ==> {
                &&& args.input@ == free[0]@
                &&& args.output == output
                &&& args.is_nulled == is_nulled
                &&& args.is_keyed == is_keyed
            },
    {
        if help || free.len() == 0 {
            None
        } else {
            Some(Args { input: free[0].clone(), output, is_nulled, is_keyed })
        }
    }
}

} // verus!
