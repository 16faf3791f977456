//! Builds the page for one backend response: finds the script's entry point,
//! writes the call that starts the module, and sets both into the template.

use vstd::prelude::*;
use crate::response::{BackendResponse, ResponseView};
use crate::template::{head, lemma_page_layout, middle, page, page_chars, tail};
use crate::text::{
    append, append_decimal, chars_of, decimal, find, first_occurrence, occurs, occurs_at,
    string_of, trim, trimmed,
};

verus! {

/// The text that precedes the name of the entry point in a script.
pub const ENTRY_MARKER: &'static str = "export default";

/// The character that ends a statement.
pub const TERMINATOR: char = ';';

/// What stands between the entry point's name and the module's bytes.
pub const CALL_OPEN: &'static str = "((new Int8Array(";

/// What stands after the module's bytes.
pub const CALL_CLOSE: &'static str = ")).buffer)";

/// Why no page could be assembled.
#[derive(Clone, Copy, Debug, PartialEq, Eq)]
pub enum AssembleError {
    /// The script names no default-exported entry point.
    MalformedScript,
}

/// `text` without one statement terminator at its end, if it ends in one.
pub open spec fn without_terminator(text: Seq<char>) -> Seq<char> {
    if text.len() > 0 && text.last() == TERMINATOR {
        text.drop_last()
    } else {
        text
    }
}

/// The entry point that `script` names: what follows the first entry marker,
/// trimmed, without a closing terminator. There is none where the marker is
/// missing or only white space follows it.
pub open spec fn entry_point(script: Seq<char>) -> Option<Seq<char>> {
    match first_occurrence(script, ENTRY_MARKER@) {
        None => None,
        Some(at) => {
            let rest = trimmed(script.subrange(at + ENTRY_MARKER@.len(), script.len() as int));
            if rest.len() == 0 {
                None
            } else {
                Some(without_terminator(rest))
            }
        },
    }
}

/// The bytes in decimal, separated by a comma and a space.
pub open spec fn byte_items(bytes: Seq<u8>) -> Seq<char>
    decreases bytes.len(),
{
    if bytes.len() == 0 {
        Seq::empty()
    } else if bytes.len() == 1 {
        decimal(bytes[0] as nat)
    } else {
        byte_items(bytes.drop_last()) + seq![',', ' '] + decimal(bytes.last() as nat)
    }
}

/// The bytes as an array literal: `[1, 2, 3]`.
pub open spec fn byte_list(bytes: Seq<u8>) -> Seq<char> {
    seq!['['] + byte_items(bytes) + seq![']']
}

/// The call that hands a fresh buffer with the module's bytes to the entry
/// point.
pub open spec fn init_call(entry: Seq<char>, module: Seq<u8>) -> Seq<char> {
    entry + CALL_OPEN@ + byte_list(module) + CALL_CLOSE@
}

/// What assembling `response` gives: the compiler's message as it is, or the
/// page for the script and module, or the error where the script names no
/// entry point.
pub open spec fn assembled(response: ResponseView) -> Result<Seq<char>, AssembleError> {
    match response {
        ResponseView::CompileError(message) => Ok(message),
        ResponseView::Output { index_html, script, module } => match entry_point(script) {
            Some(entry) => Ok(page(script, init_call(entry, module))),
            None => Err(AssembleError::MalformedScript),
        },
    }
}

/// A result of `assemble` with its text as a sequence.
pub open spec fn outcome(result: Result<String, AssembleError>) -> Result<
    Seq<char>,
    AssembleError,
> {
    match result {
        Ok(html) => Ok(html@),
        Err(error) => Err(error),
    }
}

/// The entry point of `script`, as a part of it.
fn entry_point_of(script: &[char]) -> (found: Option<&[char]>)
    ensures
        match found {
            Some(entry) => entry_point(script@) == Some(entry@),
            None => entry_point(script@) is None,
        },
{
    let marker = chars_of(ENTRY_MARKER);
    match find(script, marker.as_slice()) {
        None => None,
        Some(at) => {
            let end = script.len();
            let rest = trim(&script[at + marker.len()..end]);
            if rest.len() == 0 {
                None
            } else if rest[rest.len() - 1] == TERMINATOR {
                Some(&rest[0..rest.len() - 1])
            } else {
                Some(rest)
            }
        },
    }
}

/// Finds the name of the entry point that `script` exports by default.
pub fn extract_entry_point(script: &str) -> (found: Option<String>)
    ensures
        match found {
            Some(entry) => entry_point(script@) == Some(entry@),
            None => entry_point(script@) is None,
        },
{
    let chars = chars_of(script);
    match entry_point_of(chars.as_slice()) {
        Some(entry) => Some(string_of(entry)),
        None => None,
    }
}

/// Appends the array literal of `bytes` to `out`.
fn append_byte_list(out: &mut Vec<char>, bytes: &[u8])
    ensures
        final(out)@ == old(out)@ + byte_list(bytes@),
{
    out.push('[');
    let mut i: usize = 0;
    while i < bytes.len()
        invariant
            i <= bytes.len(),
            out@ == old(out)@ + seq!['['] + byte_items(bytes@.take(i as int)),
        decreases bytes.len() - i,
    {
        assert(bytes@.take(i + 1).drop_last() =~= bytes@.take(i as int));
        if i > 0 {
            out.push(',');
            out.push(' ');
        }
        append_decimal(out, bytes[i]);
        i += 1;
    }
    assert(bytes@.take(bytes@.len() as int) =~= bytes@);
    out.push(']');
}

/// The characters of the call for `entry` and `module`.
fn init_call_chars(entry: &[char], module: &[u8]) -> (call: Vec<char>)
    ensures
        call@ == init_call(entry@, module@),
{
    let mut call: Vec<char> = Vec::new();
    append(&mut call, entry);
    append(&mut call, chars_of(CALL_OPEN).as_slice());
    append_byte_list(&mut call, module);
    append(&mut call, chars_of(CALL_CLOSE).as_slice());
    call
}

/// Writes the call that starts the module: the entry point applied to the
/// buffer of a fresh array that holds the module's bytes.
pub fn init_expression(entry: &str, module: &[u8]) -> (call: String)
    ensures
        call@ == init_call(entry@, module@),
{
    let entry = chars_of(entry);
    let call = init_call_chars(entry.as_slice(), module);
    string_of(call.as_slice())
}

/// Assembles the page for one backend response.
///
/// A compile error is no failure: its message is returned as it stands, with
/// nothing escaped. An output gives the page for its script and module, or
/// `MalformedScript` where the script names no entry point; nothing is
/// returned beside the error then.
pub fn assemble(response: BackendResponse) -> (result: Result<String, AssembleError>)
    ensures
        outcome(result) == assembled(response@),
        response@ matches ResponseView::CompileError(message) ==> outcome(result) == Ok::<
            Seq<char>,
            AssembleError,
        >(message),
        response@ matches ResponseView::Output { script, .. } ==> (!occurs(script, ENTRY_MARKER@)
            ==> result == Err::<String, AssembleError>(AssembleError::MalformedScript)),
{
    match response {
        BackendResponse::CompileError(message) => Ok(message),
        BackendResponse::Output { index_html: _, script, module } => {
            let script = chars_of(script.as_str());
            match entry_point_of(script.as_slice()) {
                None => Err(AssembleError::MalformedScript),
                Some(entry) => {
                    let init = init_call_chars(entry, module.as_slice());
                    let html = page_chars(script.as_slice(), init.as_slice());
                    Ok(string_of(html.as_slice()))
                },
            }
        },
    }
}

/// An output whose script names an entry point always gives a page. The
/// page begins with the template's head, the script follows at once, whole
/// and unchanged whatever it holds, and after the template's middle part
/// stands the call for that entry point.
pub proof fn lemma_page_holds_script_and_call(response: ResponseView)
    requires
        response is Output,
        entry_point(response->script) is Some,
    ensures
        assembled(response) is Ok,
        assembled(response)->Ok_0 == head() + response->script + middle() + init_call(
            entry_point(response->script)->Some_0,
            response->module,
        ) + tail(),
        occurs_at(assembled(response)->Ok_0, head(), 0),
        occurs_at(assembled(response)->Ok_0, response->script, head().len() as int),
        occurs_at(
            assembled(response)->Ok_0,
            init_call(entry_point(response->script)->Some_0, response->module),
            (head().len() + response->script.len() + middle().len()) as int,
        ),
{
    lemma_page_layout(
        response->script,
        init_call(entry_point(response->script)->Some_0, response->module),
    );
}

/// The call begins with the name of the entry point.
pub proof fn lemma_call_names_entry_point(entry: Seq<char>, module: Seq<u8>)
    ensures
        occurs_at(init_call(entry, module), entry, 0),
{
    assert(init_call(entry, module).subrange(0, entry.len() as int) =~= entry);
}

/// Assembling is a function of the response alone: whatever two runs on the
/// same response return, they return the same page, or both the same error.
pub proof fn lemma_assemble_repeatable(
    response: BackendResponse,
    first: Result<String, AssembleError>,
    second: Result<String, AssembleError>,
)
    requires
        outcome(first) == assembled(response@),
        outcome(second) == assembled(response@),
    ensures
        outcome(first) == outcome(second),
        first is Ok <==> second is Ok,
        first is Ok ==> first->Ok_0@ == second->Ok_0@,
{
}

} // verus!
