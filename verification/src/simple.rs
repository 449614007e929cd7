//! A single-module compiler front end: one source text and the address it is
//! published at, and the result reported for it.
use vstd::prelude::*;

verus! {

/// A compilation request: a module's source text and its address literal.
pub struct SimpleModule {
    pub source: String,
    pub address: String,
}

/// Whether compilation succeeded, a message, and the bytecode of the first
/// compiled module when there is one.
pub struct CompileResult {
    pub success: bool,
    pub message: String,
    pub bytecode: Option<Vec<u8>>,
}

/// A compiler for one module.
pub struct SimpleCompiler {
    pub source: String,
    pub address: String,
}

impl SimpleCompiler {
    /// A compiler for the module of the request.
    pub fn new(module: SimpleModule) -> (r: Self)
        ensures
            r.source == module.source,
            r.address == module.address,
    {
        Self { source: module.source, address: module.address }
    }

    /// The result of compiling the module, from what the Move tool chain
    /// reported: whether the source parsed, whether the address literal
    /// parsed, and, when both did, the serialized modules that compilation
    /// produced (`Err` when it failed). The checks are made in that order and
    /// the first failure decides; on success the first module's bytecode is
    /// returned.
    pub fn compile(&self, parsed: bool, address_valid: bool, compiled: Result<Vec<Vec<u8>>, ()>) -> (r:
        CompileResult)
        ensures
            r.success <==> r.bytecode is Some,
            !parsed ==> !r.success && r.message@ == "Parse error"@ && r.bytecode is None,
            parsed && !address_valid ==> !r.success && r.message@ == "Invalid address"@
                && r.bytecode is None,
            parsed && address_valid ==> match compiled {
                Ok(units) => if units@.len() > 0 {
                    r.success && r.message@ == "Compilation successful"@ && r.bytecode
                        == Some(units@[0])
                } else {
                    !r.success && r.message@ == "No output generated"@ && r.bytecode is None
                },
                Err(_) => !r.success && r.message@ == "Compilation failed"@ && r.bytecode is None,
            },
    {
        if !parsed {
            return CompileResult {
                success: false,
                message: String::from_str("Parse error"),
                bytecode: None,
            };
        }
        if !address_valid {
            return CompileResult {
                success: false,
                message: String::from_str("Invalid address"),
                bytecode: None,
            };
        }
        match compiled {
            Ok(mut units) => {
                if units.len() > 0 {
                    CompileResult {
                        success: true,
                        message: String::from_str("Compilation successful"),
                        bytecode: Some(units.remove(0)),
                    }
                } else {
                    CompileResult {
                        success: false,
                        message: String::from_str("No output generated"),
                        bytecode: None,
                    }
                }
            },
            Err(_) => CompileResult {
                success: false,
                message: String::from_str("Compilation failed"),
                bytecode: None,
            },
        }
    }
}

} // verus!
