//! The published record: one small document that holds the overall
//! percentage under a versioned key, so that its shape can change later
//! without breaking those who read it.

use vstd::prelude::*;
use vstd::string::StringExecFns;

verus! {

/// The document that carries `number`, which is a number written as text:
/// `{"v1":{"percentage":` + number + `}}`, with nothing between the parts.
pub open spec fn document_of(number: Seq<char>) -> Seq<char> {
    "{\"v1\":{\"percentage\":"@ + number + "}}"@
}

/// Writes the document around a percentage that is given as text.
pub fn render_document(number: &str) -> (document: String)
    ensures
        document@ == document_of(number@),
{
    let mut document = "{\"v1\":{\"percentage\":".to_owned();
    document.append(number);
    document.append("}}");
    document
}

} // verus!
