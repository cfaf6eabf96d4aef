use vstd::prelude::*;

verus! {

/// The system the shell runs on, as far as the web page is told.
#[derive(Clone, Copy, Debug, PartialEq, Eq, Structural)]
pub enum TargetOs {
    Macos,
    Linux,
    /// Windows and every other system.
    Other,
}

/// The browser identity that the web view announces on each system: Safari
/// on macOS, Chrome on Linux, and Chrome on Windows elsewhere.
pub open spec fn user_agent_spec(os: TargetOs) -> Seq<char> {
    match os {
        TargetOs::Macos => "Mozilla/5.0 (Macintosh; Intel Mac OS X 10_15_7) AppleWebKit/605.1.15 (KHTML, like Gecko) Version/17.6 Safari/605.1.15"@,
        TargetOs::Linux => "Mozilla/5.0 (X11; Linux x86_64) AppleWebKit/537.36 (KHTML, like Gecko) Chrome/134.0.0.0 Safari/537.3"@,
        TargetOs::Other => "Mozilla/5.0 (Windows NT 10.0; Win64; x64) AppleWebKit/537.36 (KHTML, like Gecko) Chrome/134.0.0.0 Safari/537.36 Trailer/93.3.8652.5"@,
    }
}

/// The user agent string for the web view on the given system.
pub fn user_agent(os: TargetOs) -> (r: &'static str)
    ensures
        r@ == user_agent_spec(os),
{
    match os {
        TargetOs::Macos => "Mozilla/5.0 (Macintosh; Intel Mac OS X 10_15_7) AppleWebKit/605.1.15 (KHTML, like Gecko) Version/17.6 Safari/605.1.15",
        TargetOs::Linux => "Mozilla/5.0 (X11; Linux x86_64) AppleWebKit/537.36 (KHTML, like Gecko) Chrome/134.0.0.0 Safari/537.3",
        TargetOs::Other => "Mozilla/5.0 (Windows NT 10.0; Win64; x64) AppleWebKit/537.36 (KHTML, like Gecko) Chrome/134.0.0.0 Safari/537.36 Trailer/93.3.8652.5",
    }
}

} // verus!
