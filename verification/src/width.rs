//! Wide-character-aware display width, and padding of a string to a target
//! display width with trailing spaces.

use vstd::prelude::*;
use vstd::string::StringExecFns;

verus! {

/// Number of terminal columns a character sequence occupies when displayed
/// (East-Asian wide characters count as two columns).
pub uninterp spec fn display_width(s: Seq<char>) -> nat;

/// `n` ASCII spaces.
pub open spec fn spec_spaces(n: nat) -> Seq<char> {
    Seq::new(n, |i: int| ' ')
}

/// Every character of `s` is an ASCII space.
pub open spec fn all_spaces(s: Seq<char>) -> bool {
    forall|i: int| 0 <= i < s.len() ==> s[i] == ' '
}

/// Relies on unicode_width's `UnicodeWidthStr::width`: the width depends on
/// the characters alone, and each trailing ASCII space contributes exactly
/// one column on top of the width of what precedes it.
#[verifier::external_body]
pub(crate) fn str_width(s: &str) -> (w: usize)
    ensures
        w == display_width(s@),
        s@.len() == 0 ==> w == 0,
        forall|k: int|
            0 <= k <= s@.len() && all_spaces(#[trigger] s@.subrange(s@.len() - k, s@.len() as int))
                ==> w == display_width(s@.subrange(0, s@.len() - k)) + k,
{
    unicode_width::UnicodeWidthStr::width(s)
}

/// `s` right-padded with ASCII spaces to display width `target`; a string
/// whose width already meets or exceeds the target is unchanged.
pub open spec fn spec_pad(s: Seq<char>, target: nat) -> Seq<char> {
    if display_width(s) >= target {
        s
    } else {
        s + spec_spaces((target - display_width(s)) as nat)
    }
}

/// Right-pads `text` with ASCII spaces until its display width reaches
/// `target`; returns it unchanged when it is already wide enough.
/// Padding is idempotent: padding the result again to the same target
/// returns it unchanged.
pub fn pad_to_width(text: &str, target: usize) -> (r: String)
    ensures
        r@ == spec_pad(text@, target as nat),
        display_width(r@) == if display_width(text@) >= target {
            display_width(text@)
        } else {
            target as nat
        },
        text@.len() == 0 ==> display_width(text@) == 0,
        spec_pad(r@, target as nat) == r@,
{
    let current = str_width(text);
    if current >= target {
        text.to_owned()
    } else {
        let mut out = text.to_owned();
        let ghost base = text@;
        let mut added: usize = 0;
        let needed = target - current;
        while added < needed
            invariant
                added <= needed,
                out@ == base + spec_spaces(added as nat),
            decreases needed - added,
        {
            out.append(" ");
            proof {
                reveal_strlit(" ");
                assert(out@ =~= base + spec_spaces((added + 1) as nat));
            }
            added = added + 1;
        }
        let w2 = str_width(out.as_str());
        proof {
            let k = needed as int;
            let n = out@.len() as int;
            assert(all_spaces(out@.subrange(n - k, n))) by {
                assert forall|i: int| 0 <= i < k implies #[trigger] out@.subrange(n - k, n)[i] == ' ' by {
                    assert(out@[n - k + i] == spec_spaces(needed as nat)[n - k + i - base.len()]);
                }
            }
            assert(out@.subrange(0, n - k) =~= base);
            assert(w2 == display_width(base) + k);
            assert(out@ =~= spec_pad(base, target as nat));
        }
        out
    }
}

} // verus!
