//! Text helpers shared by the codec and the statement builders.

use vstd::prelude::*;
use vstd::utf8::encode_utf8_decode_utf8;

verus! {

/// `String::push` of the standard library: the pushed character becomes the
/// last one and the characters before it stay as they were.
pub assume_specification[ String::push ](s: &mut String, c: char)
    ensures
        final(s)@ == old(s)@.push(c),
;

/// Whether a character is a control character, one whose code point lies
/// below 0x20.
pub open spec fn is_control(c: char) -> bool {
    (c as u32) < 0x20
}

/// What one character becomes in cleaned text: nothing for a control
/// character, two of itself for a double or a single quote, itself otherwise.
pub open spec fn cleaned_char(c: char) -> Seq<char> {
    if is_control(c) {
        Seq::empty()
    } else if c == '"' || c == '\'' {
        seq![c, c]
    } else {
        seq![c]
    }
}

/// Text with its control characters removed and its quotes doubled, in the
/// order in which its characters stood.
pub open spec fn cleaned(s: Seq<char>) -> Seq<char>
    decreases s.len(),
{
    if s.len() == 0 {
        Seq::empty()
    } else {
        cleaned(s.drop_last()) + cleaned_char(s.last())
    }
}

/// Text cut to at most `max_chars` characters, with three dots in place of
/// whatever was cut off.
pub open spec fn truncated(s: Seq<char>, max_chars: nat) -> Seq<char> {
    if s.len() <= max_chars {
        s
    } else {
        s.take(max_chars as int) + "..."@
    }
}

/// The texts of `parts` in order, with `sep` between neighbours.
pub open spec fn joined(parts: Seq<Seq<char>>, sep: Seq<char>) -> Seq<char>
    decreases parts.len(),
{
    if parts.len() == 0 {
        Seq::empty()
    } else if parts.len() == 1 {
        parts[0]
    } else {
        joined(parts.drop_last(), sep) + sep + parts.last()
    }
}

/// The views of a vector of strings.
pub open spec fn views(v: Seq<String>) -> Seq<Seq<char>> {
    Seq::new(v.len(), |i: int| v[i]@)
}

/// Whether two texts hold the same characters.
pub fn str_equal(a: &str, b: &str) -> (r: bool)
    ensures
        r == (a@ == b@),
{
    let x = a.as_bytes();
    let y = b.as_bytes();
    proof {
        encode_utf8_decode_utf8(a@);
        encode_utf8_decode_utf8(b@);
    }
    if x.len() != y.len() {
        return false;
    }
    let n: usize = x.len();
    let mut i: usize = 0;
    while i < n
        invariant
            n == x@.len(),
            n == y@.len(),
            i <= n,
            x@ == vstd::utf8::encode_utf8(a@),
            y@ == vstd::utf8::encode_utf8(b@),
            forall|j: int| 0 <= j < i ==> x@[j] == y@[j],
        decreases n - i,
    {
        if x[i] != y[i] {
            return false;
        }
        i += 1;
    }
    assert(x@ =~= y@);
    true
}

/// Removes the control characters of `s` and doubles its quotes, so that the
/// text can stand between quotes in a statement.
pub fn clean_string(s: &str) -> (r: String)
    ensures
        r@ == cleaned(s@),
{
    let mut out = String::new();
    for c in it: s.chars()
        invariant
            it.seq() == s@,
            out@ == cleaned(s@.take(it.index() as int)),
    {
        proof {
            assert(s@.take(it.index() + 1).drop_last() == s@.take(it.index() as int));
        }
        if (c as u32) >= 0x20 {
            out.push(c);
            if c == '"' || c == '\'' {
                out.push(c);
            }
        }
    }
    proof {
        assert(s@.take(s@.len() as int) == s@);
    }
    out
}

/// Cuts `s` to its first `max_chars` characters and marks the cut with three
/// dots; a text that is short enough comes back unchanged.
pub fn truncate(s: &str, max_chars: usize) -> (r: String)
    ensures
        r@ == truncated(s@, max_chars as nat),
{
    let mut out = String::new();
    let mut kept: usize = 0;
    let mut cut = false;
    for c in it: s.chars()
        invariant
            it.seq() == s@,
            kept <= max_chars,
            kept == if it.index() <= max_chars { it.index() as int } else { max_chars as int },
            cut == (it.index() > max_chars),
            out@ == s@.take(kept as int),
    {
        if kept < max_chars {
            out.push(c);
            kept += 1;
        } else {
            cut = true;
        }
    }
    if cut {
        out.append("...");
    }
    out
}

/// Joins `parts` with `sep` between neighbours.
pub fn join(parts: &Vec<String>, sep: &str) -> (r: String)
    ensures
        r@ == joined(views(parts@), sep@),
{
    let mut out = String::new();
    let n: usize = parts.len();
    let mut i: usize = 0;
    while i < n
        invariant
            n == parts@.len(),
            i <= n,
            out@ == joined(views(parts@).take(i as int), sep@),
        decreases n - i,
    {
        proof {
            let all = views(parts@);
            assert(all.take(i + 1).drop_last() == all.take(i as int));
        }
        if i > 0 {
            out.append(sep);
        }
        out.append(parts[i].as_str());
        i += 1;
    }
    proof {
        assert(views(parts@).take(n as int) == views(parts@));
    }
    out
}

} // verus!
