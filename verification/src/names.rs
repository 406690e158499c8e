//! Output file names: the `.bml` name of an input, the name a `.bml`
//! decrypts to, and the numbered name that avoids a collision. Names are
//! the bytes of one path component; joining it to its directory is left to
//! the caller.

use vstd::prelude::*;

use crate::text::{decimal, decimal_bytes};

verus! {

/// `.`
pub const DOT: u8 = 46;

/// The extension that encrypted files carry, after the dot.
pub open spec fn bml() -> Seq<u8> {
    seq![98u8, 109u8, 108u8]
}

/// The name `..`, which has no extension.
pub open spec fn parent_name() -> Seq<u8> {
    seq![DOT, DOT]
}

/// `i` is the dot that starts the extension of `name`: the last dot, which
/// is not the first byte, in a name other than `..`.
pub open spec fn extension_dot_at(name: Seq<u8>, i: int) -> bool {
    &&& name != parent_name()
    &&& 0 < i < name.len()
    &&& name[i] == DOT
    &&& forall|k: int| i < k < name.len() ==> name[k] != DOT
}

/// Whether `name` has an extension.
pub open spec fn has_extension(name: Seq<u8>) -> bool {
    exists|i: int| extension_dot_at(name, i)
}

/// The dot that starts the extension of a name is unique.
proof fn lemma_extension_dot_unique(name: Seq<u8>, i: int, j: int)
    requires
        extension_dot_at(name, i),
        extension_dot_at(name, j),
    ensures
        i == j,
{
    if i < j {
        assert(name[j] != DOT);
    } else if j < i {
        assert(name[i] != DOT);
    }
}

/// The position of the dot that starts the extension of `name`, if it has
/// one.
pub fn extension_dot(name: &[u8]) -> (r: Option<usize>)
    ensures
        match r {
            Some(i) => extension_dot_at(name@, i as int),
            None => !has_extension(name@),
        },
{
    let n = name.len();
    if n == 2 && name[0] == DOT && name[1] == DOT {
        assert(name@ =~= parent_name());
        return None;
    }
    assert(name@ != parent_name());
    let mut j: usize = n;
    while j > 1
        invariant
            j <= n,
            n == name@.len(),
            name@ != parent_name(),
            forall|k: int| j <= k < n ==> name@[k] != DOT,
        decreases j,
    {
        if name[j - 1] == DOT {
            return Some(j - 1);
        }
        j = j - 1;
    }
    assert forall|i: int| !extension_dot_at(name@, i) by {
        if 0 < i < n && name@[i] == DOT {
            assert(j <= i);
        }
    }
    None
}

fn push_all(out: &mut Vec<u8>, bytes: &[u8], from: usize, to: usize)
    requires
        from <= to <= bytes@.len(),
    ensures
        final(out)@ == old(out)@ + bytes@.subrange(from as int, to as int),
{
    let ghost start = out@;
    let mut i: usize = from;
    while i < to
        invariant
            from <= i <= to,
            to <= bytes@.len(),
            out@ == start + bytes@.subrange(from as int, i as int),
        decreases to - i,
    {
        out.push(bytes[i]);
        i = i + 1;
        assert(out@ =~= start + bytes@.subrange(from as int, i as int));
    }
}

/// ` (n)`, the mark that tells a numbered name apart.
pub open spec fn counter_mark(n: nat) -> Seq<u8> {
    seq![32u8, 40u8] + decimal(n) + seq![41u8]
}

/// `name` numbered with `n`: ` (n)` goes before the extension, or at the
/// end of a name without one. So `doc.pdf` becomes `doc (1).pdf`, `notes`
/// becomes `notes (3)`, and `archive.tar.gz` becomes `archive.tar (1).gz`.
pub fn numbered_name(name: &[u8], n: u32) -> (out: Vec<u8>)
    ensures
        forall|i: int|
            extension_dot_at(name@, i) ==> out@ == name@.take(i) + counter_mark(n as nat) + name@.skip(i),
        !has_extension(name@) ==> out@ == name@ + counter_mark(n as nat),
{
    let counter = decimal_bytes(n as u64);
    let cut = match extension_dot(name) {
        Some(i) => i,
        None => name.len(),
    };
    let mut out: Vec<u8> = Vec::new();
    push_all(&mut out, name, 0, cut);
    out.push(32u8);
    out.push(40u8);
    push_all(&mut out, &counter, 0, counter.len());
    out.push(41u8);
    push_all(&mut out, name, cut, name.len());
    proof {
        assert(counter@.subrange(0, counter@.len() as int) =~= counter@);
        assert forall|i: int| extension_dot_at(name@, i) implies out@ == name@.take(i) + counter_mark(n as nat)
            + name@.skip(i) by {
            lemma_extension_dot_unique(name@, i, cut as int);
            assert(out@ =~= name@.take(i) + counter_mark(n as nat) + name@.skip(i));
        }
        if !has_extension(name@) {
            assert(out@ =~= name@ + counter_mark(n as nat));
        }
    }
    out
}

/// The name of the `.bml` that encrypting `name` writes: `name.bml`.
pub fn encrypted_name(name: &[u8]) -> (out: Vec<u8>)
    ensures
        out@ == name@ + seq![DOT] + bml(),
{
    let mut out: Vec<u8> = Vec::new();
    push_all(&mut out, name, 0, name.len());
    out.push(DOT);
    out.push(98u8);
    out.push(109u8);
    out.push(108u8);
    assert(name@.subrange(0, name@.len() as int) =~= name@);
    assert(out@ =~= name@ + seq![DOT] + bml());
    out
}

/// The name that decrypting the `.bml` called `name` writes: `name` without
/// its `.bml` extension; none when its extension is something else or
/// missing.
pub fn decrypted_name(name: &[u8]) -> (r: Option<Vec<u8>>)
    ensures
        match r {
            Some(out) => exists|i: int|
                extension_dot_at(name@, i) && name@.skip(i + 1) == bml() && out@ == name@.take(i),
            None => forall|i: int| extension_dot_at(name@, i) ==> name@.skip(i + 1) != bml(),
        },
{
    match extension_dot(name) {
        None => None,
        Some(i) => {
            let n = name.len();
            if n - i == 4 && name[i + 1] == 98u8 && name[i + 2] == 109u8 && name[i + 3] == 108u8 {
                let mut out: Vec<u8> = Vec::new();
                push_all(&mut out, name, 0, i);
                assert(name@.skip(i + 1) =~= bml());
                assert(out@ =~= name@.take(i as int));
                Some(out)
            } else {
                assert forall|j: int| extension_dot_at(name@, j) implies name@.skip(j + 1) != bml() by {
                    lemma_extension_dot_unique(name@, i as int, j);
                    if name@.skip(j + 1) == bml() {
                        let t = name@.skip(j + 1);
                        assert(t.len() == 3);
                        assert(n - i == 4);
                        assert(t[0] == name@[i + 1] && t[1] == name@[i + 2] && t[2] == name@[i + 3]);
                        assert(bml()[0] == 98u8 && bml()[1] == 109u8 && bml()[2] == 108u8);
                    }
                }
                None
            }
        },
    }
}

/// The highest number tried when looking for a free numbered name.
pub const MAX_COUNTER: u32 = 9999;

/// One step of the search for a free numbered name: after trying number
/// `n`, whose name was free or not, `None` takes that name (it is free, or
/// the search has reached `MAX_COUNTER`), `Some(next)` tries `next = n + 1`.
pub fn next_counter(n: u32, free: bool) -> (r: Option<u32>)
    ensures
        r == (if free || n >= MAX_COUNTER {
            None
        } else {
            Some((n + 1) as u32)
        }),
{
    if free || n >= MAX_COUNTER {
        None
    } else {
        Some(n + 1)
    }
}

} // verus!
