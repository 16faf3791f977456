//! What the compilation backend answers, and the sample payload of the
//! diagnostic endpoint.

use vstd::prelude::*;
use vstd::string::StringExecFns;

verus! {

/// The backend's reply to one job.
#[derive(Clone, Debug, PartialEq, Eq)]
pub enum BackendResponse {
    /// The compilation succeeded.
    Output {
        /// A page of the backend's own; the assembler does not read it.
        index_html: String,
        /// The generated glue script.
        script: String,
        /// The compiled binary module.
        module: Vec<u8>,
    },
    /// The compilation failed; the field is the compiler's message.
    CompileError(String),
}

/// A `BackendResponse` as mathematical sequences.
pub enum ResponseView {
    Output { index_html: Seq<char>, script: Seq<char>, module: Seq<u8> },
    CompileError(Seq<char>),
}

impl View for BackendResponse {
    type V = ResponseView;

    open spec fn view(&self) -> ResponseView {
        match self {
            BackendResponse::Output { index_html, script, module } => ResponseView::Output {
                index_html: index_html@,
                script: script@,
                module: module@,
            },
            BackendResponse::CompileError(message) => ResponseView::CompileError(message@),
        }
    }
}

/// The payload of the diagnostic endpoint.
#[derive(Clone, Debug, PartialEq, Eq)]
pub struct RunResponse {
    pub index_html: String,
    pub script: String,
    pub module: Vec<u8>,
}

/// The fixed sample that the diagnostic endpoint answers with: each text
/// field holds a short name of its own, the module the four bytes of the
/// word `wasm`.
pub fn hello() -> (sample: RunResponse)
    ensures
        sample.index_html@ == "index_html"@,
        sample.script@ == "js"@,
        sample.module@ == seq![119u8, 97u8, 115u8, 109u8],
{
    let mut module: Vec<u8> = Vec::new();
    module.push(119);
    module.push(97);
    module.push(115);
    module.push(109);
    assert(module@ =~= seq![119u8, 97u8, 115u8, 109u8]);
    RunResponse {
        index_html: String::from_str("index_html"),
        script: String::from_str("js"),
        module,
    }
}

} // verus!
