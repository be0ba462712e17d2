use vstd::prelude::*;

use crate::text::same_text;

verus! {

/// One invocation's settings, built from the arguments the user gave.
pub struct Config {
    /// The text searched for.
    pub query: String,
    /// The path of the file searched.
    pub file_path: String,
    /// Compare lowered forms of lines and query.
    pub ignore_case: bool,
    /// Only usage was asked for; the other fields are left empty.
    pub help: bool,
    /// Keep the lines that do not match.
    pub invert_match: bool,
}

/// Whether some argument is exactly `flag`.
pub open spec fn has_flag(args: Seq<String>, flag: Seq<char>) -> bool {
    exists|i: int| 0 <= i < args.len() && #[trigger] args[i]@ == flag
}

/// Whether some argument is exactly `flag`.
fn find_flag(args: &[String], flag: &str) -> (r: bool)
    ensures
        r == has_flag(args@, flag@),
{
    let mut i: usize = 0;
    while i < args.len()
        invariant
            0 <= i <= args.len(),
            forall|m: int| 0 <= m < i ==> #[trigger] args@[m]@ != flag@,
        decreases args.len() - i,
    {
        if same_text(args[i].as_str(), flag) {
            return true;
        }
        i += 1;
    }
    false
}

impl Config {
    /// Reads the arguments (without the program name). `--help` anywhere wins over
    /// everything else; otherwise the first two arguments are the query and the path,
    /// and `--ignore_case` / `--invert_match` anywhere set their switches.
    pub fn build(args: &[String]) -> (r: Result<Config, &'static str>)
        ensures
            has_flag(args@, "--help"@) ==> (r matches Ok(c) && c.help && c.query@.len() == 0
                && c.file_path@.len() == 0 && !c.ignore_case && !c.invert_match),
            !has_flag(args@, "--help"@) && args.len() < 2 ==> (r matches Err(e) && e@
                == "Expected more arguments!"@),
            !has_flag(args@, "--help"@) && args.len() >= 2 ==> (r matches Ok(c) && !c.help
                && c.query@ == args@[0]@ && c.file_path@ == args@[1]@
                && c.ignore_case == has_flag(args@, "--ignore_case"@)
                && c.invert_match == has_flag(args@, "--invert_match"@)),
    {
        if find_flag(args, "--help") {
            return Ok(
                Config {
                    query: String::new(),
                    file_path: String::new(),
                    ignore_case: false,
                    help: true,
                    invert_match: false,
                },
            );
        }
        if args.len() < 2 {
            return Err("Expected more arguments!");
        }
        let query = args[0].clone();
        let file_path = args[1].clone();
        let ignore_case = find_flag(args, "--ignore_case");
        let invert_match = find_flag(args, "--invert_match");
        Ok(Config { query, file_path, ignore_case, help: false, invert_match })
    }
}

} // verus!
