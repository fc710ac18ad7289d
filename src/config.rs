use vstd::prelude::*;

verus! {

/// Where the text to measure is read from.
pub struct Config {
    pub file_path: String,
}

/// The message given when no file path was passed.
pub open spec fn missing_path_message() -> Seq<char> {
    "not enough arguments"@
}

impl Config {
    /// Takes the file path from a process's arguments: the first one after
    /// the program's name. Fails when there is none.
    pub fn build(args: &[String]) -> (r: Result<Config, &'static str>)
        ensures
            r is Ok <==> args@.len() >= 2,
            r matches Ok(config) ==> config.file_path@ == args@[1]@,
            r matches Err(message) ==> message@ == missing_path_message(),
    {
        if args.len() < 2 {
            return Err("not enough arguments");
        }
        let file_path = args[1].clone();
        Ok(Config { file_path })
    }
}

} // verus!
