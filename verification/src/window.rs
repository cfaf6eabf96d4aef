use vstd::prelude::*;

verus! {

/// Builds the main window and the web view inside it. It carries no state:
/// the window's title, size and page are fixed.
pub struct WindowBuilder;

impl Default for WindowBuilder {
    fn default() -> (r: WindowBuilder)
        ensures
            r == WindowBuilder,
    {
        WindowBuilder
    }
}

} // verus!
