//! Text for the macOS dialogs, which are AppleScript programs.

use vstd::prelude::*;

use crate::workflow::same_text;

verus! {

/// How one character appears inside an AppleScript string literal.
pub open spec fn escaped_char(c: char) -> Seq<char> {
    if c == '"' {
        seq!['\\', '"']
    } else if c == '\\' {
        seq!['\\', '\\']
    } else {
        seq![c]
    }
}

/// `s` with every `"` and `\` escaped by a backslash.
pub open spec fn escaped(s: Seq<char>) -> Seq<char>
    decreases s.len(),
{
    if s.len() == 0 {
        Seq::empty()
    } else {
        escaped(s.drop_last()) + escaped_char(s.last())
    }
}

/// `s` as an AppleScript string literal.
pub open spec fn applescript_literal(s: Seq<char>) -> Seq<char> {
    seq!['"'] + escaped(s) + seq!['"']
}

/// Escape a string for inclusion as an AppleScript string literal.
/// Wraps in double quotes and escapes `"` and `\`.
pub fn as_quoted(s: &str) -> (out: String)
    ensures
        out@ == applescript_literal(s@),
{
    let mut out = String::new();
    proof {
        reveal_strlit("\"");
        reveal_strlit("\\\"");
        reveal_strlit("\\\\");
    }
    out.append("\"");
    let n = s.unicode_len();
    let mut i: usize = 0;
    while i < n
        invariant
            n == s@.len(),
            i <= n,
            out@ == seq!['"'] + escaped(s@.take(i as int)),
            "\""@ == seq!['"'],
            "\\\""@ == seq!['\\', '"'],
            "\\\\"@ == seq!['\\', '\\'],
        decreases n - i,
    {
        let c = s.get_char(i);
        if c == '"' {
            out.append("\\\"");
        } else if c == '\\' {
            out.append("\\\\");
        } else {
            out.append(s.substring_char(i, i + 1));
        }
        proof {
            let next = s@.take(i + 1);
            assert(next.drop_last() =~= s@.take(i as int));
            assert(next.last() == c);
            assert(s@.subrange(i as int, i + 1) =~= seq![c]);
        }
        i = i + 1;
        assert(out@ =~= seq!['"'] + escaped(s@.take(i as int)));
    }
    assert(s@.take(n as int) =~= s@);
    out.append("\"");
    assert(out@ =~= applescript_literal(s@));
    out
}

/// The item that a single-choice list preselects, given which items are
/// marked as the default: the first one marked, else the first item.
pub fn preselected(defaults: &[bool]) -> (i: usize)
    requires
        defaults@.len() > 0,
    ensures
        i < defaults@.len(),
        forall|k: int| 0 <= k < i ==> !defaults@[k],
        defaults@[i as int] || (i == 0 && forall|k: int| 0 <= k < defaults@.len() ==> !defaults@[k]),
{
    let mut i: usize = 0;
    while i < defaults.len()
        invariant
            i <= defaults@.len(),
            forall|k: int| 0 <= k < i ==> !defaults@[k],
        decreases defaults@.len() - i,
    {
        if defaults[i] {
            return i;
        }
        i = i + 1;
    }
    0
}

/// The position of the first item whose label is `chosen`, if any: the
/// dialog answers with the label, and the caller wants the item's tag.
pub fn label_position(labels: &[&str], chosen: &str) -> (r: Option<usize>)
    ensures
        match r {
            Some(i) => {
                &&& i < labels@.len()
                &&& labels@[i as int]@ == chosen@
                &&& forall|k: int| 0 <= k < i ==> labels@[k]@ != chosen@
            },
            None => forall|k: int| 0 <= k < labels@.len() ==> labels@[k]@ != chosen@,
        },
{
    let mut i: usize = 0;
    while i < labels.len()
        invariant
            i <= labels@.len(),
            forall|k: int| 0 <= k < i ==> labels@[k]@ != chosen@,
        decreases labels@.len() - i,
    {
        if same_text(labels[i], chosen) {
            return Some(i);
        }
        i = i + 1;
    }
    None
}

/// Whether the confirmation dialog's script answered yes.
pub fn dialog_said_yes(answer: &str) -> (r: bool)
    ensures
        r == (answer@ == "yes"@),
{
    same_text(answer, "yes")
}

} // verus!
