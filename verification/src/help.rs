//! The buffer that shows the help text.

use crate::buffer::Buffer;
use crate::utilities::help::HELP_TEXT;
use vstd::prelude::*;
use vstd::string::StringExecFns;
use vstd::string::StringSliceAdditionalSpecFns;

verus! {

/// A buffer that holds the help text and cannot be edited.
pub fn help_buffer() -> (buffer: Buffer)
    ensures
        buffer.wf(),
        buffer.readonly,
        buffer@.text == HELP_TEXT.spec_bytes(),
        buffer@.position == 0,
{
    let mut buffer = Buffer::from_string(String::from_str(HELP_TEXT));
    buffer.set_readonly(true);
    buffer
}

} // verus!
