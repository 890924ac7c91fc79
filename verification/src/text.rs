//! Lines of text, and a block of lines set at a new indentation.
use vstd::prelude::*;
use crate::indent::{indentation, write_indent};

verus! {

/// The lines of `text`: the pieces that its line feeds separate, in order. A
/// text with `n` line feeds has `n + 1` lines; the empty text has one empty line.
pub open spec fn lines(text: Seq<char>) -> Seq<Seq<char>>
    decreases text.len(),
{
    if text.len() == 0 {
        seq![Seq::empty()]
    } else {
        let before = lines(text.drop_last());
        if text.last() == '\n' {
            before.push(Seq::empty())
        } else {
            before.drop_last().push(before.last().push(text.last()))
        }
    }
}

/// The lines `ls` as one text that continues the line it is put on: the first
/// line as it is, every later one on a line of its own behind `pad`.
pub open spec fn block(ls: Seq<Seq<char>>, pad: Seq<char>) -> Seq<char>
    decreases ls.len(),
{
    if ls.len() == 0 {
        Seq::empty()
    } else if ls.len() == 1 {
        ls[0]
    } else {
        block(ls.drop_last(), pad) + seq!['\n'] + pad + ls.last()
    }
}

/// `text` moved to `depth`: its first line stays where the writer stands, and
/// every later line starts with the indentation of `depth`, then holds what it
/// held before, its own leading spaces included.
pub open spec fn reindented(text: Seq<char>, depth: nat, width: nat) -> Seq<char> {
    block(lines(text), indentation(depth, width))
}

/// Every text has a first line.
pub proof fn lemma_lines_nonempty(text: Seq<char>)
    ensures
        lines(text).len() >= 1,
    decreases text.len(),
{
    if text.len() > 0 {
        lemma_lines_nonempty(text.drop_last());
    }
}

/// What one more character does to a block: a line feed opens a new padded
/// line, any other character lengthens the last line.
pub proof fn lemma_block_push(text: Seq<char>, c: char, pad: Seq<char>)
    ensures
        block(lines(text.push(c)), pad) == if c == '\n' {
            block(lines(text), pad) + seq!['\n'] + pad
        } else {
            block(lines(text), pad).push(c)
        },
{
    let longer = text.push(c);
    assert(longer.drop_last() =~= text);
    assert(longer.last() == c);
    lemma_lines_nonempty(text);
    let before = lines(text);
    if c == '\n' {
        let after = before.push(Seq::empty());
        assert(lines(longer) == after);
        assert(after.drop_last() =~= before);
        assert(block(after, pad) =~= block(before, pad) + seq!['\n'] + pad);
    } else {
        let after = before.drop_last().push(before.last().push(c));
        assert(lines(longer) == after);
        assert(after.drop_last() =~= before.drop_last());
        if before.len() == 1 {
            assert(block(after, pad) =~= block(before, pad).push(c));
        } else {
            assert(block(after, pad) =~= block(before, pad).push(c));
        }
    }
}

/// `String::push` of std: the string afterwards is the string before with `c`
/// behind it.
#[verifier::external_body]
fn push_char(buf: &mut String, c: char)
    ensures
        final(buf)@ == old(buf)@.push(c),
{
    buf.push(c);
}

/// Appends `text` to `buf`, moved to `depth`: after every line feed of `text`
/// comes the indentation of `depth`.
pub fn write_reindented(buf: &mut String, text: &str, depth: usize, width: usize)
    ensures
        final(buf)@ == old(buf)@ + reindented(text@, depth as nat, width as nat),
{
    let ghost pad = indentation(depth as nat, width as nat);
    assert(text@.take(0) =~= Seq::<char>::empty());
    assert(buf@ =~= old(buf)@ + block(lines(text@.take(0)), pad));
    for c in it: text.chars()
        invariant
            it.seq() == text@,
            pad == indentation(depth as nat, width as nat),
            buf@ == old(buf)@ + block(lines(text@.take(it.index())), pad),
    {
        proof {
            let done = text@.take(it.index());
            assert(text@.take(it.index() + 1) =~= done.push(c));
            lemma_block_push(done, c, pad);
        }
        push_char(buf, c);
        if c == '\n' {
            write_indent(buf, depth, width);
            assert(buf@ =~= old(buf)@ + block(lines(text@.take(it.index() + 1)), pad));
        } else {
            assert(buf@ =~= old(buf)@ + block(lines(text@.take(it.index() + 1)), pad));
        }
    }
    assert(text@.take(text@.len() as int) =~= text@);
}

} // verus!
