use vstd::prelude::*;

verus! {

/// Options for a run of the bytecode-to-Solidity compiler front end. Only
/// plain settings live here; the command-line parsing wraps this type.
#[derive(Debug, Clone, PartialEq, Eq)]
pub struct Options {
    /// Directories where to look up dependencies.
    pub dependencies: Vec<String>,
    /// Named address mappings.
    pub named_address_mapping: Vec<String>,
    /// Output file name.
    pub output: String,
    /// Solidity compiler executable.
    pub solc_exe: String,
    /// Whether to dump bytecode to a file.
    pub dump_bytecode: bool,
    /// Sources to compile.
    pub sources: Vec<String>,
}

impl Default for Options {
    /// No inputs, bytecode dumping off, and the conventional output file and
    /// compiler executable names.
    fn default() -> (r: Self)
        ensures
            r.dependencies@.len() == 0,
            r.named_address_mapping@.len() == 0,
            r.output@ == "output.yul"@,
            r.solc_exe@ == "solc"@,
            !r.dump_bytecode,
            r.sources@.len() == 0,
    {
        Options {
            dependencies: Vec::new(),
            named_address_mapping: Vec::new(),
            output: "output.yul".to_owned(),
            solc_exe: "solc".to_owned(),
            dump_bytecode: false,
            sources: Vec::new(),
        }
    }
}

impl Options {
    /// The tool's version string.
    pub fn version(&self) -> (r: &'static str)
        ensures
            r@ == "0.0"@,
    {
        "0.0"
    }
}

} // verus!
