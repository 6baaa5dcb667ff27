//! Grouped numeral strings: spacer characters inserted at fixed intervals.

use vstd::prelude::*;

verus! {

use crate::chars::push_char;
use vstd::string::StrSliceExecFns;
use vstd::string::StringExecFns;

/// `s` with `sp` inserted after every `block` characters, counted from the
/// right end, and never in front of the whole string.
pub open spec fn spaced(s: Seq<char>, sp: char, block: nat) -> Seq<char>
    recommends
        block >= 1,
    decreases s.len(),
    when block >= 1
{
    if s.len() <= block {
        s
    } else {
        spaced(s.subrange(0, s.len() - block), sp, block) + seq![sp] + s.subrange(
            s.len() - block,
            s.len() as int,
        )
    }
}

/// A grouped string keeps the first character of the original in front.
pub proof fn lemma_spaced_head(s: Seq<char>, sp: char, block: nat)
    requires
        block >= 1,
        s.len() >= 1,
    ensures
        spaced(s, sp, block).len() >= s.len(),
        spaced(s, sp, block)[0] == s[0],
    decreases s.len(),
{
    if s.len() > block {
        lemma_spaced_head(s.subrange(0, s.len() - block), sp, block);
    }
}

/// Law: a grouped string never begins with the spacer, as long as the
/// original did not itself begin with that character.
pub proof fn lemma_spaced_no_leading_spacer(s: Seq<char>, sp: char, block: nat)
    requires
        block >= 1,
        s.len() >= 1,
        s[0] != sp,
    ensures
        spaced(s, sp, block)[0] != sp,
{
    lemma_spaced_head(s, sp, block);
}

/// Adds spacer characters to a non-empty string: one `spacer` after every
/// `block_len` characters, counted from the right, never at the front.
pub fn add_spacers(string: &str, spacer: char, block_len: u32) -> (r: String)
    requires
        string@.len() >= 1,
        block_len >= 1,
    ensures
        r@ == spaced(string@, spacer, block_len as nat),
        r@.len() >= 1,
        r@[0] == string@[0],
    decreases string@.len(),
{
    proof {
        lemma_spaced_head(string@, spacer, block_len as nat);
    }
    let n = string.unicode_len();
    let b = block_len as usize;
    if n <= b {
        string.to_owned()
    } else {
        let head = string.substring_char(0, n - b);
        let mut s = add_spacers(head, spacer, block_len);
        push_char(&mut s, spacer);
        let tail = string.substring_char(n - b, n);
        s.append(tail);
        proof {
            assert(s@ =~= spaced(head@, spacer, block_len as nat) + seq![spacer] + tail@);
        }
        s
    }
}

} // verus!
