use vstd::prelude::*;

verus! {

/// What a search run needs: the query, the name of the file to search, and
/// whether matching ignores case.
pub struct Config {
    pub query: String,
    pub filename: String,
    pub should_use_case_insensitive: bool,
}

impl Config {
    /// Builds a configuration from the query and filename taken off the
    /// command line, if they were given, and the case flag taken from the
    /// environment. A missing query or filename is reported as an error.
    pub fn new(
        query: Option<String>,
        filename: Option<String>,
        should_use_case_insensitive: bool,
    ) -> (result: Result<Config, &'static str>)
        ensures
            query is Some && filename is Some ==> (result matches Ok(config)
                && Some(config.query) == query
                && Some(config.filename) == filename
                && config.should_use_case_insensitive == should_use_case_insensitive),
            query is None ==> (result matches Err(message)
                && message@ == "Didn't get any query string"@),
            query is Some && filename is None ==> (result matches Err(message)
                && message@ == "Didn't get a file name"@),
    {
        let query = match query {
            Some(arg) => arg,
            None => {
                return Err("Didn't get any query string");
            },
        };
        let filename = match filename {
            Some(arg) => arg,
            None => {
                return Err("Didn't get a file name");
            },
        };
        Ok(Config { query, filename, should_use_case_insensitive })
    }
}

} // verus!
