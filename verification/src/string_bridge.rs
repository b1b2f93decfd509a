//! The string bridge: converting an engine-allocated text handle into owned
//! text, releasing the engine's buffer exactly once when data is present and
//! never when the handle carries no data.

use vstd::prelude::*;

verus! {

/// Model of an engine-allocated text handle. The engine hands back a handle
/// that either carries text or carries nothing (a null data pointer); a
/// handle that carried text owns an engine-side buffer that must be released
/// exactly once.
pub struct StringHandle {
    /// The text the handle carries, if any.
    pub data: Option<String>,
    /// Whether the engine-side buffer of this handle has been released.
    pub released: bool,
}

impl StringHandle {
    /// Converts the handle into owned text. Returns `None` when the handle
    /// carries no data, in which case nothing is released; otherwise returns
    /// the exact text and releases the engine's buffer, exactly once.
    pub fn convert(&mut self) -> (r: Option<String>)
        requires
            !old(self).released,
        ensures
            r == old(self).data,
            final(self).released == old(self).data is Some,
            final(self).data == old(self).data,
    {
        match &self.data {
            Option::None => Option::None,
            Option::Some(s) => {
                let text = s.clone();
                self.released = true;
                Option::Some(text)
            },
        }
    }
}

} // verus!
