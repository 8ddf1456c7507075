use vstd::prelude::*;

verus! {

/// The settings a job run is given: the input document, the working
/// directory, the variable bindings, and optional base directories that
/// resolved paths are anchored under.
#[derive(Debug)]
pub struct Runtime {
    pub input: String,
    pub working_directory: String,
    pub variables: Vec<(String, String)>,
    pub dry_run: bool,
    pub source_base: Option<String>,
    pub destination_base: Option<String>,
}

/// The variable bindings as pairs of character sequences.
pub open spec fn vars_view(vars: Seq<(String, String)>) -> Seq<(Seq<char>, Seq<char>)> {
    vars.map_values(|p: (String, String)| (p.0@, p.1@))
}

impl Default for Runtime {
    /// An empty runtime: no input, no variables, a real (non-dry) run.
    fn default() -> (r: Runtime)
        ensures
            r.input@ == Seq::<char>::empty(),
            r.working_directory@ == Seq::<char>::empty(),
            r.variables@.len() == 0,
            !r.dry_run,
            r.source_base is None,
            r.destination_base is None,
    {
        Runtime {
            input: String::new(),
            working_directory: String::new(),
            variables: Vec::new(),
            dry_run: false,
            source_base: None,
            destination_base: None,
        }
    }
}

} // verus!
