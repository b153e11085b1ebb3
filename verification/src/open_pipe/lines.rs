//! Incoming bytes are cut into lines: a message ends at a carriage return or
//! a line feed, and an empty line carries nothing.
use vstd::prelude::*;

verus! {

/// Whether a byte ends a line.
pub open spec fn is_eol(b: u8) -> bool {
    b == 13u8 || b == 10u8
}

/// The position of the first end of line at or after `start`, if there is
/// one.
pub open spec fn first_eol(a: Seq<u8>, start: int) -> Option<int>
    decreases a.len() - start,
{
    if start < 0 || start >= a.len() {
        None
    } else if is_eol(a[start]) {
        Some(start)
    } else {
        first_eol(a, start + 1)
    }
}

/// What `first_eol` finds is an end of line at or after `start`, with none
/// between `start` and it; it finds none only where there is none.
pub proof fn lemma_first_eol(a: Seq<u8>, start: int)
    requires
        0 <= start,
    ensures
        match first_eol(a, start) {
            Some(p) => start <= p < a.len() && is_eol(a[p]) && forall|i: int|
                start <= i < p ==> !is_eol(#[trigger] a[i]),
            None => forall|i: int| start <= i < a.len() ==> !is_eol(#[trigger] a[i]),
        },
    decreases a.len() - start,
{
    if start < a.len() && !is_eol(a[start]) {
        lemma_first_eol(a, start + 1);
    }
}

/// Finds the first end of line at or after `start`.
pub fn find_eol(a: &[u8], start: usize) -> (r: Option<usize>)
    ensures
        match r {
            Some(p) => first_eol(a@, start as int) == Some(p as int) && start <= p < a@.len()
                && is_eol(a@[p as int]),
            None => first_eol(a@, start as int) is None,
        },
{
    let mut p: usize = start;
    while p < a.len()
        invariant
            start <= p,
            first_eol(a@, start as int) == first_eol(a@, p as int),
        decreases a.len() - p,
    {
        let c = a[p];
        if c == 13u8 || c == 10u8 {
            return Some(p);
        }
        p += 1;
    }
    None
}

/// The lines cut from a buffer, and what stays in it.
pub struct Cut {
    /// The lines that are complete and not empty, in their order.
    pub lines: Seq<Seq<u8>>,
    /// The bytes after the last end of line.
    pub rest: Seq<u8>,
}

/// Cuts a buffer into lines. The first end of line is looked for from `pos`
/// on, the bytes before it having been looked through earlier; each further
/// one from the start of what is left.
pub open spec fn cut(buffer: Seq<u8>, pos: int) -> Cut
    decreases buffer.len(),
{
    match first_eol(buffer, pos) {
        Some(end) => if 0 <= end < buffer.len() {
            let more = cut(buffer.skip(end + 1), 0);
            if end > 0 {
                Cut { lines: seq![buffer.take(end)] + more.lines, rest: more.rest }
            } else {
                more
            }
        } else {
            Cut { lines: Seq::empty(), rest: buffer }
        },
        None => Cut { lines: Seq::empty(), rest: buffer },
    }
}

/// Whether a text holds no end of line.
pub open spec fn no_eol(s: Seq<u8>) -> bool {
    forall|i: int| 0 <= i < s.len() ==> !is_eol(#[trigger] s[i])
}

/// The lines cut from the beginning of a buffer are not empty and hold no
/// end of line, and what stays in the buffer holds none either.
pub proof fn lemma_cut_lines(buffer: Seq<u8>)
    ensures
        no_eol(cut(buffer, 0).rest),
        forall|k: int|
            0 <= k < cut(buffer, 0).lines.len() ==> (#[trigger] cut(buffer, 0).lines[k]).len() > 0
                && no_eol(cut(buffer, 0).lines[k]),
    decreases buffer.len(),
{
    lemma_first_eol(buffer, 0);
    match first_eol(buffer, 0) {
        Some(end) => {
            let more = cut(buffer.skip(end + 1), 0);
            lemma_cut_lines(buffer.skip(end + 1));
            let line = buffer.take(end);
            assert(no_eol(line)) by {
                assert forall|i: int| 0 <= i < line.len() implies !is_eol(#[trigger] line[i]) by {
                    assert(line[i] == buffer[i]);
                }
            }
            let all = cut(buffer, 0).lines;
            assert forall|k: int| 0 <= k < all.len() implies (#[trigger] all[k]).len() > 0
                && no_eol(all[k]) by {
                if end > 0 {
                    if k > 0 {
                        assert(all[k] == more.lines[k - 1]);
                    } else {
                        assert(all[k] == line);
                    }
                }
            }
        },
        None => {},
    }
}

/// The views of a list of byte vectors.
pub open spec fn line_views(lines: Seq<Vec<u8>>) -> Seq<Seq<u8>> {
    Seq::new(lines.len(), |i: int| lines[i]@)
}

/// Takes the complete lines out of a buffer to which bytes were added from
/// `pos` on. What follows the last end of line stays in the buffer.
pub fn take_lines(buffer: &mut Vec<u8>, pos: usize) -> (lines: Vec<Vec<u8>>)
    ensures
        line_views(lines@) == cut(old(buffer)@, pos as int).lines,
        final(buffer)@ == cut(old(buffer)@, pos as int).rest,
{
    let mut lines: Vec<Vec<u8>> = Vec::new();
    let mut from: usize = pos;
    loop
        invariant
            cut(old(buffer)@, pos as int).lines == line_views(lines@) + cut(
                buffer@,
                from as int,
            ).lines,
            cut(old(buffer)@, pos as int).rest == cut(buffer@, from as int).rest,
        ensures
            line_views(lines@) == cut(old(buffer)@, pos as int).lines,
            buffer@ == cut(old(buffer)@, pos as int).rest,
        decreases buffer@.len(),
    {
        let ghost before = buffer@;
        let ghost taken = line_views(lines@);
        let filled = buffer.len();
        match find_eol(buffer.as_slice(), from) {
            Some(end) => {
                proof {
                    lemma_first_eol(before, from as int);
                    assert(end < filled);
                }
                let mut tail = buffer.split_off(end + 1);
                if end > 0 {
                    buffer.truncate(end);
                    let mut line: Vec<u8> = Vec::new();
                    line.append(buffer);
                    proof {
                        assert(line@ =~= before.take(end as int));
                    }
                    lines.push(line);
                    proof {
                        assert(line_views(lines@) =~= taken + seq![before.take(end as int)]);
                    }
                }
                buffer.clear();
                buffer.append(&mut tail);
                proof {
                    assert(buffer@ =~= before.skip(end + 1));
                    let more = cut(before.skip(end + 1), 0);
                    if end > 0 {
                        assert(taken + (seq![before.take(end as int)] + more.lines) =~= (taken
                            + seq![before.take(end as int)]) + more.lines);
                    }
                }
                from = 0;
            },
            None => {
                proof {
                    assert(line_views(lines@) + Seq::<Seq<u8>>::empty() =~= line_views(lines@));
                }
                break ;
            },
        }
    }
    lines
}

} // verus!
