//! Indentation: a run of spaces in front of a line.
use vstd::prelude::*;
use vstd::string::StringExecFns;
use crate::error::FormatError;

verus! {

/// Spaces in one level of indentation where the caller names no other width.
pub const INDENT_WIDTH: usize = 4;

/// `depth` levels of indentation, each `width` spaces wide.
pub open spec fn indentation(depth: nat, width: nat) -> Seq<char> {
    Seq::new(depth * width, |i: int| ' ')
}

/// `depth` levels of indentation at the default width of four spaces.
pub open spec fn tabs(depth: nat) -> Seq<char> {
    indentation(depth, 4)
}

/// One more level adds `width` spaces behind the indentation so far.
pub proof fn lemma_indentation_step(depth: nat, width: nat)
    ensures
        indentation(depth + 1, width) =~= indentation(depth, width) + indentation(1, width),
        indentation(1, width).len() == width,
        indentation(0, width) =~= Seq::<char>::empty(),
{
    assert((depth + 1) * width == depth * width + width) by (nonlinear_arith);
    assert(1 * width == width) by (nonlinear_arith);
    assert(0 * width == 0) by (nonlinear_arith);
}

/// Appends `width` spaces to `buf`.
fn write_unit(buf: &mut String, width: usize)
    ensures
        final(buf)@ == old(buf)@ + indentation(1, width as nat),
{
    proof {
        lemma_indentation_step(0, width as nat);
    }
    let mut i: usize = 0;
    while i < width
        invariant
            i <= width,
            buf@ =~= old(buf)@ + Seq::new(i as nat, |k: int| ' '),
        decreases width - i,
    {
        proof {
            reveal_strlit(" ");
        }
        buf.append(" ");
        i = i + 1;
    }
    assert(buf@ =~= old(buf)@ + indentation(1, width as nat));
}

/// Appends `depth` levels of indentation, each `width` spaces wide, to `buf`.
pub fn write_indent(buf: &mut String, depth: usize, width: usize)
    ensures
        final(buf)@ == old(buf)@ + indentation(depth as nat, width as nat),
{
    proof {
        lemma_indentation_step(0, width as nat);
    }
    let mut i: usize = 0;
    while i < depth
        invariant
            i <= depth,
            buf@ =~= old(buf)@ + indentation(i as nat, width as nat),
        decreases depth - i,
    {
        proof {
            lemma_indentation_step(i as nat, width as nat);
        }
        write_unit(buf, width);
        i = i + 1;
    }
}

/// Appends `num` levels of four-space indentation to `buf`. A `String` takes
/// every write, so the result is always `Ok`.
pub fn write_tabs(buf: &mut String, num: usize) -> (r: Result<(), FormatError>)
    ensures
        r is Ok,
        final(buf)@ == old(buf)@ + tabs(num as nat),
{
    write_indent(buf, num, INDENT_WIDTH);
    Ok(())
}

} // verus!
