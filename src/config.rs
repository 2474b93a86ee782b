use vstd::prelude::*;

verus! {

/// What the command line asks for: the text to look for and the file to look in.
pub struct Config {
    pub query: String,
    pub file_path: String,
}

/// The message given when the command line names no query or no file.
pub open spec fn not_enough_arguments() -> Seq<char> {
    "Not enough arguments"@
}

impl Config {
    /// Reads the query and the file path from the arguments that follow the
    /// program's name; fails when either is missing.
    pub fn build(args: &[String]) -> (r: Result<Config, &'static str>)
        ensures
            r is Err <==> args@.len() < 3,
            r matches Err(e) ==> e@ == not_enough_arguments(),
            r matches Ok(c) ==> c.query@ == args@[1]@ && c.file_path@ == args@[2]@,
    {
        if args.len() < 3 {
            proof {
                reveal_strlit("Not enough arguments");
            }
            return Err("Not enough arguments");
        }
        let query = args[1].clone();
        let file_path = args[2].clone();
        Ok(Config { query, file_path })
    }
}

} // verus!
