use vstd::prelude::*;
use vstd::slice::slice_subrange;
use vstd::string::StringSliceAdditionalSpecFns;

verus! {

/// What the tray badge shows: nothing, a bare dot, or a count of unread items.
#[derive(Clone, Copy, Debug, PartialEq, Eq, Structural)]
pub enum BadgeState {
    Clear,
    Dot,
    Count(u32),
}

/// The events that the page inside the web view raises for the shell.
#[derive(Clone, Copy, Debug, PartialEq, Eq, Structural)]
pub enum UserEvent {
    /// The page asks the shell to start moving the window with the mouse.
    DragWindow,
    /// The page has started loading.
    PageLoaded,
    /// The page reports a new unread state.
    SetBadge(BadgeState),
}

// ---------------------------------------------------------------------------
// Decimal numbers, as `u32::from_str` reads them
// ---------------------------------------------------------------------------

/// ASCII `0` ..= `9`.
pub open spec fn is_digit(b: u8) -> bool {
    48 <= b <= 57
}

pub open spec fn all_digits(s: Seq<u8>) -> bool {
    forall|i: int| 0 <= i < s.len() ==> is_digit(#[trigger] s[i])
}

/// The number that a sequence of ASCII digits spells in base ten.
pub open spec fn digits_value(s: Seq<u8>) -> nat
    decreases s.len(),
{
    if s.len() == 0 {
        0
    } else {
        digits_value(s.drop_last()) * 10 + (s.last() - 48) as nat
    }
}

/// The digits that `parse_u32` reads: a single leading `+` is skipped when
/// something follows it.
pub open spec fn unsigned_digits(s: Seq<u8>) -> Seq<u8> {
    if s.len() >= 2 && s[0] == 43 {
        s.drop_first()
    } else {
        s
    }
}

/// The result of reading `s` as an unsigned 32-bit decimal number: at least
/// one digit, nothing but digits after an optional `+`, and no overflow.
pub open spec fn parse_u32_spec(s: Seq<u8>) -> Option<u32> {
    let d = unsigned_digits(s);
    if d.len() > 0 && all_digits(d) && digits_value(d) <= u32::MAX {
        Some(digits_value(d) as u32)
    } else {
        None
    }
}

/// Appending digits never makes the value smaller.
pub proof fn lemma_digits_value_grows(u: Seq<u8>, v: Seq<u8>)
    requires
        all_digits(v),
    ensures
        digits_value(u + v) >= digits_value(u),
    decreases v.len(),
{
    if v.len() > 0 {
        assert((u + v).drop_last() =~= u + v.drop_last());
        assert(is_digit(v[v.len() - 1]));
        lemma_digits_value_grows(u, v.drop_last());
    } else {
        assert(u + v =~= u);
    }
}

/// Reads a decimal `u32` the way `str::parse::<u32>` does.
pub fn parse_u32(s: &[u8]) -> (r: Option<u32>)
    ensures
        r == parse_u32_spec(s@),
{
    let n = s.len();
    if n == 0 {
        return None;
    }
    let start: usize = if n >= 2 && s[0] == 43 {
        1
    } else {
        0
    };
    let ghost d = unsigned_digits(s@);
    assert(d =~= s@.subrange(start as int, n as int));
    let mut acc: u32 = 0;
    let mut i: usize = start;
    while i < n
        invariant
            start <= i <= n,
            n == s@.len(),
            start < n,
            d == s@.subrange(start as int, n as int),
            d == unsigned_digits(s@),
            all_digits(s@.subrange(start as int, i as int)),
            acc as nat == digits_value(s@.subrange(start as int, i as int)),
        decreases n - i,
    {
        let b = s[i];
        let ghost pre = s@.subrange(start as int, i as int);
        let ghost next = s@.subrange(start as int, i + 1);
        assert(next =~= pre.push(b));
        assert(next.drop_last() =~= pre);
        if b < 48 || b > 57 {
            assert(d[i - start] == b);
            return None;
        }
        let digit: u32 = (b - 48) as u32;
        if acc > 429496729 || (acc == 429496729 && digit > 5) {
            proof {
                assert(digits_value(next) == digits_value(pre) * 10 + digit);
                let rest = s@.subrange(i + 1, n as int);
                assert(d =~= next + rest);
                if all_digits(d) {
                    assert forall|k: int| 0 <= k < rest.len() implies is_digit(#[trigger] rest[k]) by {
                        assert(rest[k] == d[(i + 1 - start) + k]);
                    }
                    lemma_digits_value_grows(next, rest);
                }
            }
            return None;
        }
        acc = acc * 10 + digit;
        i = i + 1;
        assert(all_digits(next)) by {
            assert forall|k: int| 0 <= k < next.len() implies is_digit(#[trigger] next[k]) by {
                if k < pre.len() {
                    assert(next[k] == pre[k]);
                }
            }
        }
    }
    assert(s@.subrange(start as int, n as int) =~= d);
    Some(acc)
}

// ---------------------------------------------------------------------------
// Messages from the page
// ---------------------------------------------------------------------------

/// `drag`
pub open spec fn drag_message() -> Seq<u8> {
    seq![100u8, 114, 97, 103]
}

/// `badge:`
pub open spec fn badge_prefix() -> Seq<u8> {
    seq![98u8, 97, 100, 103, 101, 58]
}

/// `dot`
pub open spec fn dot_word() -> Seq<u8> {
    seq![100u8, 111, 116]
}

/// `0`
pub open spec fn zero_word() -> Seq<u8> {
    seq![48u8]
}

/// The badge state that the text after `badge:` asks for.
pub open spec fn badge_request(rest: Seq<u8>) -> BadgeState {
    if rest == zero_word() {
        BadgeState::Clear
    } else if rest == dot_word() {
        BadgeState::Dot
    } else {
        match parse_u32_spec(rest) {
            Some(n) => BadgeState::Count(n),
            None => BadgeState::Clear,
        }
    }
}

/// The event that an IPC message body (given by its UTF-8 bytes) raises:
/// `drag` starts a window drag, `badge:<x>` sets the badge, anything else is
/// ignored.
pub open spec fn ipc_event(body: Seq<u8>) -> Option<UserEvent> {
    if body == drag_message() {
        Some(UserEvent::DragWindow)
    } else if body.len() >= 6 && body.take(6) == badge_prefix() {
        Some(UserEvent::SetBadge(badge_request(body.skip(6))))
    } else {
        None
    }
}

/// Whether `s` is exactly the bytes of `word`.
fn bytes_are(s: &[u8], word: &[u8]) -> (r: bool)
    ensures
        r == (s@ == word@),
{
    if s.len() != word.len() {
        return false;
    }
    let mut i: usize = 0;
    while i < s.len()
        invariant
            s@.len() == word@.len(),
            i <= s@.len(),
            forall|k: int| 0 <= k < i ==> s@[k] == word@[k],
        decreases s@.len() - i,
    {
        if s[i] != word[i] {
            return false;
        }
        i = i + 1;
    }
    assert(s@ =~= word@);
    true
}

/// Decides what an IPC message from the page asks for.
pub fn parse_ipc_message(body: &str) -> (r: Option<UserEvent>)
    ensures
        r == ipc_event(body.spec_bytes()),
{
    let bytes = body.as_bytes();
    let drag: [u8; 4] = [100, 114, 97, 103];
    let prefix: [u8; 6] = [98, 97, 100, 103, 101, 58];
    assert(drag@ =~= drag_message());
    assert(prefix@ =~= badge_prefix());
    if bytes_are(bytes, drag.as_slice()) {
        return Some(UserEvent::DragWindow);
    }
    if bytes.len() < 6 {
        return None;
    }
    let head = slice_subrange(bytes, 0, 6);
    assert(head@ =~= bytes@.take(6));
    if !bytes_are(head, prefix.as_slice()) {
        return None;
    }
    let rest = slice_subrange(bytes, 6, bytes.len());
    assert(rest@ =~= bytes@.skip(6));
    let zero: [u8; 1] = [48];
    let dot: [u8; 3] = [100, 111, 116];
    assert(zero@ =~= zero_word());
    assert(dot@ =~= dot_word());
    let state = if bytes_are(rest, zero.as_slice()) {
        BadgeState::Clear
    } else if bytes_are(rest, dot.as_slice()) {
        BadgeState::Dot
    } else {
        match parse_u32(rest) {
            Some(n) => BadgeState::Count(n),
            None => BadgeState::Clear,
        }
    };
    Some(UserEvent::SetBadge(state))
}

/// `loaded`
pub open spec fn loaded_message() -> Seq<u8> {
    seq![108u8, 111, 97, 100, 101, 100]
}

/// Whether an IPC message body is the page's `loaded` notice, on which the
/// hidden window is shown.
pub fn is_loaded_message(body: &str) -> (r: bool)
    ensures
        r == (body.spec_bytes() == loaded_message()),
{
    let loaded: [u8; 6] = [108, 111, 97, 100, 101, 100];
    assert(loaded@ =~= loaded_message());
    bytes_are(body.as_bytes(), loaded.as_slice())
}

} // verus!
