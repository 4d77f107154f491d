pub mod index;
pub mod laws;
pub mod norm;
pub mod postings;

pub use index::Document;
pub use index::Index;

use vstd::prelude::*;

verus! {

/// The inputs a run needs: where the corpus lives and what to ask of it.
#[derive(Debug)]
pub struct Config {
    pub query: String,
    pub db_path: String,
}

impl Config {
    /// Builds a `Config` from the raw argument list, whose first element is
    /// the program name and is skipped.
    pub fn new(args: &Vec<String>) -> (r: Result<Self, &'static str>)
        ensures
            args@.len() >= 3 ==> (r matches Ok(c) && c.db_path@ == args@[1]@ && c.query@
                == args@[2]@),
            args@.len() < 2 ==> (r matches Err(e) && e@ == "Didn't get a db path"@),
            2 <= args@.len() < 3 ==> (r matches Err(e) && e@ == "Didn't get a query"@),
    {
        if args.len() < 2 {
            return Err("Didn't get a db path");
        }
        if args.len() < 3 {
            return Err("Didn't get a query");
        }
        let db_path = args[1].clone();
        let query = args[2].clone();
        Ok(Config { query, db_path })
    }
}

} // verus!
