//! Where the lines of a text start: the notions in which the laws on
//! indentation are stated, and the facts about them that relate one text to
//! the texts it is made of.
use vstd::prelude::*;
use crate::indent::indentation;
use crate::text::{block, lemma_lines_nonempty, lines};

verus! {

/// Whether `text` holds no line feed.
pub open spec fn single_line(text: Seq<char>) -> bool {
    forall|i: int| 0 <= i < text.len() ==> #[trigger] text[i] != '\n'
}

/// Whether a line of `text` starts at `i`: at the start of the text, and
/// behind every line feed that is not the last character.
pub open spec fn line_start(text: Seq<char>, i: int) -> bool {
    0 <= i < text.len() && (i == 0 || text[i - 1] == '\n')
}

/// Whether the `n` characters of `text` from `i` on are spaces.
pub open spec fn spaces_at(text: Seq<char>, i: int, n: nat) -> bool {
    i + n <= text.len() && forall|k: int| i <= k < i + n ==> #[trigger] text[k] == ' '
}

/// Whether `text` is made of whole lines, each of which starts with at least
/// `n` spaces. The empty text is made of no lines.
pub open spec fn indented(text: Seq<char>, n: nat) -> bool {
    text.len() == 0 || (text.last() == '\n' && forall|i: int| #[trigger]
        line_start(text, i) ==> spaces_at(text, i, n))
}

/// Whether every line feed of `text` is followed, within `text`, by at least
/// `n` spaces.
pub open spec fn padded(text: Seq<char>, n: nat) -> bool {
    forall|i: int| 0 <= i < text.len() && #[trigger] text[i] == '\n' ==> spaces_at(text, i + 1, n)
}

/// Whole lines behind whole lines are whole lines, indented as both are.
pub proof fn lemma_indented_concat(a: Seq<char>, b: Seq<char>, n: nat)
    requires
        indented(a, n),
        indented(b, n),
    ensures
        indented(a + b, n),
{
    let whole = a + b;
    if a.len() == 0 {
        assert(whole =~= b);
    } else if b.len() == 0 {
        assert(whole =~= a);
    } else {
        assert(whole.last() == b.last());
        assert forall|i: int| #[trigger] line_start(whole, i) implies spaces_at(whole, i, n) by {
            if i < a.len() {
                assert(i > 0 ==> whole[i - 1] == a[i - 1]);
                assert(line_start(a, i));
                assert(spaces_at(a, i, n));
                assert forall|k: int| i <= k < i + n implies #[trigger] whole[k] == ' ' by {
                    assert(whole[k] == a[k]);
                }
            } else {
                let j = i - a.len();
                if j == 0 {
                    assert(line_start(b, 0));
                } else {
                    assert(whole[i - 1] == b[j - 1]);
                    assert(line_start(b, j));
                }
                assert(spaces_at(b, j, n));
                assert forall|k: int| i <= k < i + n implies #[trigger] whole[k] == ' ' by {
                    assert(whole[k] == b[k - a.len()]);
                }
            }
        }
    }
}

/// Lines that start with `n` spaces start with any fewer.
pub proof fn lemma_indented_less(text: Seq<char>, n: nat, m: nat)
    requires
        indented(text, n),
        m <= n,
    ensures
        indented(text, m),
{
    if text.len() > 0 {
        assert forall|i: int| #[trigger] line_start(text, i) implies spaces_at(text, i, m) by {
            assert(spaces_at(text, i, n));
        }
    }
}

/// A first line that starts with `n` spaces, then a text whose line feeds are
/// each followed by `n` spaces, then the end of the last line: whole lines,
/// each of which starts with `n` spaces.
pub proof fn lemma_indented_frame(
    head: Seq<char>,
    body: Seq<char>,
    tail: Seq<char>,
    n: nat,
)
    requires
        spaces_at(head, 0, n),
        single_line(head),
        padded(body, n),
        tail.len() > 0,
        tail.last() == '\n',
        single_line(tail.drop_last()),
    ensures
        indented(head + body + tail, n),
{
    let whole = head + body + tail;
    assert(whole.last() == tail.last());
    assert forall|i: int| #[trigger] line_start(whole, i) implies spaces_at(whole, i, n) by {
        if i == 0 {
            assert forall|k: int| 0 <= k < n implies #[trigger] whole[k] == ' ' by {
                assert(whole[k] == head[k]);
            }
        } else {
            let at = i - 1;
            assert(whole[at] == '\n');
            if at < head.len() {
                assert(whole[at] == head[at]);
            } else if at < head.len() + body.len() {
                let j = at - head.len();
                assert(whole[at] == body[j]);
                assert(spaces_at(body, j + 1, n));
                assert forall|k: int| i <= k < i + n implies #[trigger] whole[k] == ' ' by {
                    assert(whole[k] == body[k - head.len()]);
                }
            } else {
                let j = at - head.len() - body.len();
                assert(whole[at] == tail[j]);
                assert(j < tail.len() - 1);
                assert(tail.drop_last()[j] == tail[j]);
            }
        }
    }
}

/// Two texts without a line feed make one without a line feed.
pub proof fn lemma_single_line_concat(a: Seq<char>, b: Seq<char>)
    requires
        single_line(a),
        single_line(b),
    ensures
        single_line(a + b),
{
    assert forall|i: int| 0 <= i < (a + b).len() implies #[trigger] (a + b)[i] != '\n' by {
        if i < a.len() {
            assert((a + b)[i] == a[i]);
        } else {
            assert((a + b)[i] == b[i - a.len()]);
        }
    }
}

/// A line that starts at `depth`, goes on with `middle`, holds a block of
/// lines padded to `depth`, and ends with `tail`: whole lines, each of which
/// starts with the indentation of `depth`.
pub proof fn lemma_indented_line(
    depth: nat,
    width: nat,
    middle: Seq<char>,
    body: Seq<char>,
    tail: Seq<char>,
)
    requires
        single_line(middle),
        padded(body, depth * width),
        tail.len() > 0,
        tail.last() == '\n',
        single_line(tail.drop_last()),
    ensures
        indented(indentation(depth, width) + middle + body + tail, depth * width),
{
    let pad = indentation(depth, width);
    lemma_single_line_concat(pad, middle);
    assert(spaces_at(pad + middle, 0, depth * width)) by {
        assert forall|k: int| 0 <= k < 0 + depth * width implies #[trigger] (pad + middle)[k]
            == ' ' by {
            assert((pad + middle)[k] == pad[k]);
        }
    }
    lemma_indented_frame(pad + middle, body, tail, depth * width);
}

/// No line of a text holds a line feed.
pub proof fn lemma_lines_single(text: Seq<char>)
    ensures
        forall|k: int| 0 <= k < lines(text).len() ==> single_line(#[trigger] lines(text)[k]),
    decreases text.len(),
{
    if text.len() > 0 {
        lemma_lines_nonempty(text.drop_last());
        lemma_lines_single(text.drop_last());
    }
}

/// In a block of lines set behind `pad`, every line feed is followed by `pad`.
pub proof fn lemma_block_padded(ls: Seq<Seq<char>>, depth: nat, width: nat)
    requires
        forall|k: int| 0 <= k < ls.len() ==> single_line(#[trigger] ls[k]),
    ensures
        padded(block(ls, indentation(depth, width)), depth * width),
    decreases ls.len(),
{
    let pad = indentation(depth, width);
    let n = depth * width;
    if ls.len() >= 2 {
        let front = block(ls.drop_last(), pad);
        let whole = block(ls, pad);
        assert forall|k: int| 0 <= k < ls.drop_last().len() implies single_line(
            #[trigger] ls.drop_last()[k],
        ) by {
            assert(ls.drop_last()[k] == ls[k]);
        }
        lemma_block_padded(ls.drop_last(), depth, width);
        assert(whole == front + seq!['\n'] + pad + ls.last());
        assert(single_line(ls.last())) by {
            assert(ls.last() == ls[ls.len() - 1]);
        }
        assert forall|i: int| 0 <= i < whole.len() && #[trigger] whole[i] == '\n' implies spaces_at(
            whole,
            i + 1,
            n,
        ) by {
            if i < front.len() {
                assert(whole[i] == front[i]);
                assert(spaces_at(front, i + 1, n));
                assert forall|k: int| i + 1 <= k < i + 1 + n implies #[trigger] whole[k]
                    == ' ' by {
                    assert(whole[k] == front[k]);
                }
            } else if i == front.len() {
                assert forall|k: int| i + 1 <= k < i + 1 + n implies #[trigger] whole[k]
                    == ' ' by {
                    assert(whole[k] == pad[k - front.len() - 1]);
                }
            } else if i < front.len() + 1 + n {
                assert(whole[i] == pad[i - front.len() - 1]);
            } else {
                assert(whole[i] == ls.last()[i - front.len() - 1 - n]);
            }
        }
    } else if ls.len() == 1 {
        assert(block(ls, pad) == ls[0]);
    }
}

} // verus!
