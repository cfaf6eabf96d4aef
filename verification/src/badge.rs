use vstd::prelude::*;
use vstd::string::StringExecFns;

use crate::ipc::{
    all_digits, badge_prefix, badge_request, digits_value, dot_word, drag_message, ipc_event,
    is_digit, parse_u32_spec, unsigned_digits, zero_word, BadgeState, UserEvent,
};

verus! {

/// The character of a decimal digit.
pub open spec fn digit_char(d: int) -> char {
    (48 + d) as char
}

/// The decimal text of a number, without leading zeros.
pub open spec fn decimal(n: nat) -> Seq<char>
    decreases n,
{
    if n < 10 {
        seq![digit_char(n as int)]
    } else {
        decimal(n / 10).push(digit_char((n % 10) as int))
    }
}

/// The bytes of an ASCII text.
pub open spec fn ascii_bytes(s: Seq<char>) -> Seq<u8> {
    s.map_values(|c: char| c as u8)
}

/// The text next to the badge: none when clear, a bullet for a bare dot, and
/// the count itself up to 99, beyond which it reads `99+`.
pub open spec fn badge_label(state: BadgeState) -> Option<Seq<char>> {
    match state {
        BadgeState::Clear => None,
        BadgeState::Dot => Some(seq!['\u{2022}']),
        BadgeState::Count(n) => Some(
            if n > 99 {
                seq!['9', '9', '+']
            } else {
                decimal(n as nat)
            },
        ),
    }
}

/// How the tray shows a badge state.
pub struct BadgeAppearance {
    /// Whether the badged glyph (white silhouette with a red dot) is shown
    /// in place of the plain one.
    pub badged: bool,
    /// Whether the glyph is handed to the system as a template image, which
    /// macOS tints to match the menu bar.
    pub template: bool,
    /// The text for the dock badge.
    pub label: Option<String>,
}

/// The text of one decimal digit.
fn digit_text(d: u32) -> (s: &'static str)
    requires
        d < 10,
    ensures
        s@ == seq![digit_char(d as int)],
{
    match d {
        0 => {
            proof {
                reveal_strlit("0");
            }
            "0"
        },
        1 => {
            proof {
                reveal_strlit("1");
            }
            "1"
        },
        2 => {
            proof {
                reveal_strlit("2");
            }
            "2"
        },
        3 => {
            proof {
                reveal_strlit("3");
            }
            "3"
        },
        4 => {
            proof {
                reveal_strlit("4");
            }
            "4"
        },
        5 => {
            proof {
                reveal_strlit("5");
            }
            "5"
        },
        6 => {
            proof {
                reveal_strlit("6");
            }
            "6"
        },
        7 => {
            proof {
                reveal_strlit("7");
            }
            "7"
        },
        8 => {
            proof {
                reveal_strlit("8");
            }
            "8"
        },
        _ => {
            proof {
                reveal_strlit("9");
            }
            "9"
        },
    }
}

/// The decimal text of a count up to 99.
fn small_decimal(n: u32) -> (s: String)
    requires
        n <= 99,
    ensures
        s@ == decimal(n as nat),
{
    if n < 10 {
        digit_text(n).to_owned()
    } else {
        let mut s = digit_text(n / 10).to_owned();
        s.append(digit_text(n % 10));
        proof {
            assert(decimal((n / 10) as nat) == seq![digit_char((n / 10) as int)]);
        }
        s
    }
}

/// The text next to the badge for a badge state.
pub fn badge_label_text(state: BadgeState) -> (r: Option<String>)
    ensures
        r.deep_view() == badge_label(state),
        state matches BadgeState::Count(n) && n > 99 ==> r.deep_view() == Some(
            seq!['9', '9', '+'],
        ),
{
    match state {
        BadgeState::Clear => None,
        BadgeState::Dot => {
            proof {
                reveal_strlit("\u{2022}");
            }
            Some("\u{2022}".to_owned())
        },
        BadgeState::Count(n) => {
            if n > 99 {
                proof {
                    reveal_strlit("99+");
                }
                Some("99+".to_owned())
            } else {
                Some(small_decimal(n))
            }
        },
    }
}

/// How the tray shows a badge state: the plain glyph stays a template image
/// on macOS so the system tints it; the badged glyph opts out so its dot
/// stays red.
pub fn badge_appearance(state: BadgeState, on_macos: bool) -> (a: BadgeAppearance)
    ensures
        a.badged == !(state is Clear),
        a.template == (on_macos && !a.badged),
        a.label.deep_view() == badge_label(state),
        state matches BadgeState::Count(n) && n > 99 ==> a.label.deep_view() == Some(
            seq!['9', '9', '+'],
        ),
{
    let badged = match state {
        BadgeState::Clear => false,
        _ => true,
    };
    BadgeAppearance { badged, template: on_macos && !badged, label: badge_label_text(state) }
}

// ---------------------------------------------------------------------------
// Counts sent by the page and shown back
// ---------------------------------------------------------------------------

proof fn lemma_decimal_digits(n: nat)
    ensures
        decimal(n).len() >= 1,
        all_digits(ascii_bytes(decimal(n))),
        digits_value(ascii_bytes(decimal(n))) == n,
        n > 0 ==> ascii_bytes(decimal(n))[0] != 48,
    decreases n,
{
    let t = ascii_bytes(decimal(n));
    if n < 10 {
        assert(digit_char(n as int) as u8 == 48 + n);
        assert(t[0] == 48 + n);
        assert(t.drop_last() =~= Seq::<u8>::empty());
        assert(digits_value(t.drop_last()) == 0);
    } else {
        lemma_decimal_digits(n / 10);
        let u = ascii_bytes(decimal(n / 10));
        assert(digit_char((n % 10) as int) as u8 == 48 + n % 10);
        assert(t =~= u.push((48 + n % 10) as u8));
        assert(t.drop_last() =~= u);
        assert(digits_value(t) == digits_value(t.drop_last()) * 10 + (t.last() - 48) as nat);
        assert forall|i: int| 0 <= i < t.len() implies is_digit(#[trigger] t[i]) by {
            if i < u.len() {
                assert(t[i] == u[i]);
            }
        }
        assert(t[0] == u[0]);
    }
}

/// A count the page sends as `badge:<n>` in decimal comes back as that
/// count, and its label is the same decimal text up to 99; `badge:0` clears
/// the badge.
pub proof fn law_badge_count_roundtrip(n: u32)
    ensures
        parse_u32_spec(ascii_bytes(decimal(n as nat))) == Some(n),
        ipc_event(badge_prefix() + ascii_bytes(decimal(n as nat))) == Some(
            UserEvent::SetBadge(
                if n == 0 {
                    BadgeState::Clear
                } else {
                    BadgeState::Count(n)
                },
            ),
        ),
        0 < n <= 99 ==> badge_label(badge_request(ascii_bytes(decimal(n as nat)))) == Some(
            decimal(n as nat),
        ),
{
    lemma_decimal_digits(n as nat);
    let t = ascii_bytes(decimal(n as nat));
    assert(unsigned_digits(t) == t);
    let body = badge_prefix() + t;
    assert(body.take(6) =~= badge_prefix());
    assert(body.skip(6) =~= t);
    assert(body != drag_message()) by {
        assert(body[0] != drag_message()[0]);
    }
    if n == 0 {
        assert(decimal(0) =~= seq!['0']);
        assert(t =~= zero_word());
    } else {
        assert(t != zero_word()) by {
            if t.len() == 1 {
                assert(t[0] != 48);
            }
        }
        assert(t != dot_word()) by {
            assert(!is_digit(dot_word()[0]));
            assert(is_digit(t[0]));
        }
    }
}

/// Every count above 99 reads `99+`, whatever its size.
pub proof fn law_big_counts_read_99_plus(n: u32)
    requires
        n > 99,
    ensures
        badge_label(BadgeState::Count(n)) == Some(seq!['9', '9', '+']),
{
}

/// A count up to 99 reads as its own decimal digits: one digit below ten,
/// two from ten on, no leading zero, and the digits spell the count.
pub proof fn law_small_counts_read_their_digits(n: u32)
    requires
        n <= 99,
    ensures
        badge_label(BadgeState::Count(n)) matches Some(l) && {
            &&& l.len() == if n < 10 {
                1int
            } else {
                2int
            }
            &&& all_digits(ascii_bytes(l))
            &&& digits_value(ascii_bytes(l)) == n
            &&& (n >= 10 ==> l[0] != '0')
        },
{
    lemma_decimal_digits(n as nat);
    if n >= 10 {
        assert(decimal((n / 10) as nat) == seq![digit_char((n / 10) as int)]);
    }
    let l = decimal(n as nat);
    assert(ascii_bytes(l)[0] == l[0] as u8);
}

/// A clear badge has no text; a bare dot reads as a bullet.
pub proof fn law_clear_and_dot_labels()
    ensures
        badge_label(BadgeState::Clear) is None,
        badge_label(BadgeState::Dot) == Some(seq!['\u{2022}']),
{
}

} // verus!
