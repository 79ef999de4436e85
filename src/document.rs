//! The text block written for each kept file.

use vstd::prelude::*;

verus! {

/// The block for a file: a blank line, the `---` delimiter, the
/// `FILE_PATH:` line, an opening fence, the content, a closing fence on a
/// line of its own, and a trailing blank line.
pub open spec fn block_text(label: Seq<char>, content: Seq<char>) -> Seq<char> {
    "\n---\nFILE_PATH: "@ + label + "\n```\n"@ + content + "\n```\n\n"@
}

/// The block for a file with the given label and content.
pub fn render_block(label: &str, content: &str) -> (r: String)
    ensures
        r@ == block_text(label@, content@),
{
    let mut r = String::from_str("\n---\nFILE_PATH: ");
    r.append(label);
    r.append("\n```\n");
    r.append(content);
    r.append("\n```\n\n");
    r
}

} // verus!
