//! Visible-width measurement for strings that may contain ANSI terminal
//! escape sequences.
//!
//! A value shown in a table cell may carry styling such as `"\x1b[93mwarn\x1b[0m"`.
//! The escape sequences take no space on the screen, so the width a column must
//! reserve for the value is the number of *visible* characters only.  This
//! module defines that notion once, as a small character-level state machine,
//! and provides the two executable operations the rendering engine needs:
//! counting visible characters, and truncating to a visible-character budget
//! while keeping every escape sequence intact.

use vstd::prelude::*;

verus! {

/// State of the scanner while walking a string from left to right.
///
/// `Text` is ordinary text; an ESC character (`'\u{1b}'`) switches to
/// `Escape`; if the next character is `'['` the scanner is inside a CSI
/// sequence (`Sequence`) until a final byte in `'@'..='~'` closes it.  Any
/// other character after ESC is consumed as a two-character sequence.
#[derive(Clone, Copy, Debug, PartialEq, Eq, Structural)]
pub enum ScanState {
    Text,
    Escape,
    Sequence,
}

/// Scanner transition for one character.
pub open spec fn step_state(st: ScanState, c: char) -> ScanState {
    match st {
        ScanState::Text => if c == '\u{1b}' {
            ScanState::Escape
        } else {
            ScanState::Text
        },
        ScanState::Escape => if c == '[' {
            ScanState::Sequence
        } else {
            ScanState::Text
        },
        ScanState::Sequence => if 0x40 <= (c as u32) && (c as u32) <= 0x7e {
            ScanState::Text
        } else {
            ScanState::Sequence
        },
    }
}

/// A character counts toward the visible width exactly when the scanner is in
/// ordinary text and the character does not itself start an escape sequence.
pub open spec fn char_visible(st: ScanState, c: char) -> bool {
    st == ScanState::Text && c != '\u{1b}'
}

/// Number of visible characters of `s` when scanning starts in state `st`.
pub open spec fn visible_count_from(s: Seq<char>, st: ScanState) -> nat
    decreases s.len(),
{
    if s.len() == 0 {
        0
    } else {
        (if char_visible(st, s[0]) {
            1nat
        } else {
            0nat
        }) + visible_count_from(s.drop_first(), step_state(st, s[0]))
    }
}

/// The visible width of a string: its character count with all escape
/// sequences excluded.
pub open spec fn visible_len(s: Seq<char>) -> nat {
    visible_count_from(s, ScanState::Text)
}

/// Scanner state after walking all of `s`, starting from `st`.
pub open spec fn end_state(s: Seq<char>, st: ScanState) -> ScanState
    decreases s.len(),
{
    if s.len() == 0 {
        st
    } else {
        end_state(s.drop_first(), step_state(st, s[0]))
    }
}

/// `s` truncated to at most `n` visible characters, scanning from `st`:
/// every character that belongs to an escape sequence is kept, and of the
/// visible characters only the first `n` are kept.
pub open spec fn truncated_from(s: Seq<char>, st: ScanState, n: nat) -> Seq<char>
    decreases s.len(),
{
    if s.len() == 0 {
        Seq::empty()
    } else {
        let c = s[0];
        let rest = truncated_from(
            s.drop_first(),
            step_state(st, c),
            if char_visible(st, c) && n > 0 {
                (n - 1) as nat
            } else {
                n
            },
        );
        if char_visible(st, c) && n == 0 {
            rest
        } else {
            seq![c] + rest
        }
    }
}

/// The first `n` visible characters of `s`, with every escape sequence kept.
pub open spec fn spec_truncated(s: Seq<char>, n: nat) -> Seq<char> {
    truncated_from(s, ScanState::Text, n)
}

/// Unfolding step for `visible_count_from` at position `i`.
proof fn lemma_count_unfold(s: Seq<char>, i: int, st: ScanState)
    requires
        0 <= i < s.len(),
    ensures
        visible_count_from(s.skip(i), st) == (if char_visible(st, s[i]) {
            1nat
        } else {
            0nat
        }) + visible_count_from(s.skip(i + 1), step_state(st, s[i])),
{
    assert(s.skip(i).drop_first() =~= s.skip(i + 1));
    assert(s.skip(i)[0] == s[i]);
}

/// Unfolding step for `truncated_from` at position `i`.
proof fn lemma_truncated_unfold(s: Seq<char>, i: int, st: ScanState, n: nat)
    requires
        0 <= i < s.len(),
    ensures
        truncated_from(s.skip(i), st, n) == (if char_visible(st, s[i]) && n == 0 {
            Seq::<char>::empty()
        } else {
            seq![s[i]]
        }) + truncated_from(
            s.skip(i + 1),
            step_state(st, s[i]),
            if char_visible(st, s[i]) && n > 0 {
                (n - 1) as nat
            } else {
                n
            },
        ),
{
    assert(s.skip(i).drop_first() =~= s.skip(i + 1));
    assert(s.skip(i)[0] == s[i]);
    if char_visible(st, s[i]) && n == 0 {
        assert(Seq::<char>::empty() + truncated_from(
            s.skip(i + 1),
            step_state(st, s[i]),
            n,
        ) =~= truncated_from(s.skip(i + 1), step_state(st, s[i]), n));
    }
}

/// The visible count of a concatenation splits at the scanner state reached
/// after the first part.
pub proof fn lemma_visible_append(a: Seq<char>, b: Seq<char>, st: ScanState)
    ensures
        visible_count_from(a + b, st) == visible_count_from(a, st) + visible_count_from(
            b,
            end_state(a, st),
        ),
    decreases a.len(),
{
    if a.len() == 0 {
        assert(a + b =~= b);
    } else {
        assert((a + b)[0] == a[0]);
        assert((a + b).drop_first() =~= a.drop_first() + b);
        lemma_visible_append(a.drop_first(), b, step_state(st, a[0]));
    }
}

/// Truncating to the full visible count (or more) keeps the string unchanged.
pub proof fn lemma_truncated_whole(s: Seq<char>, st: ScanState, n: nat)
    requires
        n >= visible_count_from(s, st),
    ensures
        truncated_from(s, st, n) == s,
    decreases s.len(),
{
    if s.len() == 0 {
        assert(truncated_from(s, st, n) =~= s);
    } else {
        let c = s[0];
        let m = if char_visible(st, c) && n > 0 {
            (n - 1) as nat
        } else {
            n
        };
        lemma_truncated_whole(s.drop_first(), step_state(st, c), m);
        assert(seq![c] + s.drop_first() =~= s);
    }
}

/// A truncation to `n` visible characters has exactly `min(n, width)`
/// visible characters, where `width` is the visible count of the whole
/// string.
pub proof fn lemma_truncated_visible_count(s: Seq<char>, st: ScanState, n: nat)
    ensures
        visible_count_from(truncated_from(s, st, n), st) == if n <= visible_count_from(s, st) {
            n
        } else {
            visible_count_from(s, st)
        },
    decreases s.len(),
{
    if s.len() > 0 {
        let c = s[0];
        let st2 = step_state(st, c);
        if char_visible(st, c) {
            if n > 0 {
                lemma_truncated_visible_count(s.drop_first(), st2, (n - 1) as nat);
                let rest = truncated_from(s.drop_first(), st2, (n - 1) as nat);
                assert((seq![c] + rest)[0] == c);
                assert((seq![c] + rest).drop_first() =~= rest);
            } else {
                lemma_truncated_visible_count(s.drop_first(), st2, 0);
            }
        } else {
            lemma_truncated_visible_count(s.drop_first(), st2, n);
            let rest = truncated_from(s.drop_first(), st2, n);
            assert((seq![c] + rest)[0] == c);
            assert((seq![c] + rest).drop_first() =~= rest);
        }
    }
}

/// Executable scanner transition.
fn step(st: ScanState, c: char) -> (r: ScanState)
    ensures
        r == step_state(st, c),
{
    match st {
        ScanState::Text => if c == '\u{1b}' {
            ScanState::Escape
        } else {
            ScanState::Text
        },
        ScanState::Escape => if c == '[' {
            ScanState::Sequence
        } else {
            ScanState::Text
        },
        ScanState::Sequence => {
            let u = c as u32;
            if 0x40 <= u && u <= 0x7e {
                ScanState::Text
            } else {
                ScanState::Sequence
            }
        },
    }
}

/// The visible width of `s`: the number of characters shown on the screen,
/// with ANSI escape sequences excluded.
pub fn visible_width(s: &str) -> (r: usize)
    ensures
        r == visible_len(s@),
{
    let n = s.unicode_len();
    let mut i: usize = 0;
    let mut count: usize = 0;
    let mut st = ScanState::Text;
    proof {
        assert(s@.skip(0) =~= s@);
    }
    while i < n
        invariant
            n == s@.len(),
            i <= n,
            count <= i,
            visible_len(s@) == count + visible_count_from(s@.skip(i as int), st),
        decreases n - i,
    {
        let c = s.get_char(i);
        proof {
            lemma_count_unfold(s@, i as int, st);
        }
        if st == ScanState::Text && c != '\u{1b}' {
            count = count + 1;
        }
        st = step(st, c);
        i = i + 1;
    }
    proof {
        assert(s@.skip(n as int) =~= Seq::<char>::empty());
    }
    count
}

/// `s` truncated to at most `n` visible characters.  Every escape sequence of
/// `s` is kept in place, so styling (and any final reset sequence) survives
/// the cut.
pub fn truncate_visible(s: &str, n: usize) -> (r: String)
    ensures
        r@ == spec_truncated(s@, n as nat),
{
    let len = s.unicode_len();
    let mut out = String::new();
    let mut i: usize = 0;
    let mut left: usize = n;
    let mut st = ScanState::Text;
    proof {
        assert(s@.skip(0) =~= s@);
    }
    while i < len
        invariant
            len == s@.len(),
            i <= len,
            spec_truncated(s@, n as nat) == out@ + truncated_from(
                s@.skip(i as int),
                st,
                left as nat,
            ),
        decreases len - i,
    {
        let c = s.get_char(i);
        proof {
            lemma_truncated_unfold(s@, i as int, st, left as nat);
        }
        let visible = st == ScanState::Text && c != '\u{1b}';
        let ghost prev_out = out@;
        if visible && left == 0 {
            proof {
                assert(Seq::<char>::empty() + truncated_from(
                    s@.skip(i as int + 1),
                    step_state(st, c),
                    left as nat,
                ) =~= truncated_from(s@.skip(i as int + 1), step_state(st, c), left as nat));
            }
        } else {
            let piece = s.substring_char(i, i + 1);
            out.append(piece);
            proof {
                assert(piece@ =~= seq![c]);
                assert(prev_out + (seq![c] + truncated_from(
                    s@.skip(i as int + 1),
                    step_state(st, c),
                    if char_visible(st, c) && left > 0 {
                        (left - 1) as nat
                    } else {
                        left as nat
                    },
                )) =~= out@ + truncated_from(
                    s@.skip(i as int + 1),
                    step_state(st, c),
                    if char_visible(st, c) && left > 0 {
                        (left - 1) as nat
                    } else {
                        left as nat
                    },
                ));
            }
            if visible {
                left = left - 1;
            }
        }
        st = step(st, c);
        i = i + 1;
    }
    proof {
        assert(s@.skip(len as int) =~= Seq::<char>::empty());
        assert(out@ + Seq::<char>::empty() =~= out@);
    }
    out
}

/// Relies on `String::push`: appends the character to the end of the string.
pub assume_specification[ String::push ](s: &mut String, c: char)
    ensures
        final(s)@ == old(s)@.push(c),
;

} // verus!
