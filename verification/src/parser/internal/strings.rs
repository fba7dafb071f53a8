use crate::lexer::token::ByteString;
use vstd::prelude::*;

verus! {

/// The index of the first line feed at or after `from`, or the length of
/// `bytes` where there is none.
pub open spec fn line_end(bytes: Seq<u8>, from: int) -> int
    decreases bytes.len() - from,
{
    if from < 0 || from >= bytes.len() {
        bytes.len() as int
    } else if bytes[from] == 10u8 {
        from
    } else {
        line_end(bytes, from + 1)
    }
}

/// How many bytes dedenting removes at `from`: the number of consecutive
/// bytes `c` there, before `to`, and at most `amount`.
pub open spec fn strip_count(bytes: Seq<u8>, from: int, to: int, c: u8, amount: nat) -> nat
    decreases amount,
{
    if amount > 0 && 0 <= from < to <= bytes.len() && bytes[from] == c {
        1 + strip_count(bytes, from + 1, to, c, (amount - 1) as nat)
    } else {
        0
    }
}

/// A segment without its indentation: up to `amount` leading bytes `c` are
/// removed from its beginning.
pub open spec fn dedented(bytes: Seq<u8>, c: u8, amount: nat) -> Seq<u8> {
    bytes.skip(strip_count(bytes, 0, bytes.len() as int, c, amount) as int)
}

/// The part of `bytes` from `from` on, with up to `amount` leading bytes
/// `c` removed from the beginning of each of its lines. The line feeds stay.
pub open spec fn dedented_lines(bytes: Seq<u8>, from: int, c: u8, amount: nat) -> Seq<u8>
    decreases bytes.len() - from,
{
    if from < 0 || from > bytes.len() {
        Seq::empty()
    } else {
        let end = line_end(bytes, from);
        let line = bytes.subrange(from + strip_count(bytes, from, end, c, amount), end);
        if from <= end < bytes.len() {
            line + seq![10u8] + dedented_lines(bytes, end + 1, c, amount)
        } else {
            line
        }
    }
}

/// The end of a line lies between the line's start and the end of the
/// bytes.
pub proof fn lemma_line_end_bounds(bytes: Seq<u8>, from: int)
    requires
        0 <= from <= bytes.len(),
    ensures
        from <= line_end(bytes, from) <= bytes.len(),
    decreases bytes.len() - from,
{
    if from < bytes.len() && bytes[from] != 10u8 {
        lemma_line_end_bounds(bytes, from + 1);
    }
}

/// Dedenting removes no more than `amount` bytes and stays inside the line.
pub proof fn lemma_strip_count_bounds(bytes: Seq<u8>, from: int, to: int, c: u8, amount: nat)
    requires
        0 <= from <= to <= bytes.len(),
    ensures
        strip_count(bytes, from, to, c, amount) <= amount,
        from + strip_count(bytes, from, to, c, amount) <= to,
    decreases amount,
{
    if amount > 0 && from < to && bytes[from] == c {
        lemma_strip_count_bounds(bytes, from + 1, to, c, (amount - 1) as nat);
    }
}

/// Counts the bytes that dedenting removes at `from`.
fn count_indentation(bytes: &ByteString, from: usize, to: usize, c: u8, amount: usize) -> (k: usize)
    requires
        from <= to <= bytes@.len(),
    ensures
        k == strip_count(bytes@, from as int, to as int, c, amount as nat),
        from + k <= to,
{
    let mut k: usize = 0;
    while k < amount && from + k < to && bytes[from + k] == c
        invariant
            from <= to <= bytes@.len(),
            k <= amount,
            from + k <= to,
            strip_count(bytes@, from as int, to as int, c, amount as nat) == k + strip_count(
                bytes@,
                from + k,
                to as int,
                c,
                (amount - k) as nat,
            ),
        decreases to - from - k,
    {
        k = k + 1;
    }
    k
}

/// Finds the end of the line that starts at `from`.
fn find_line_end(bytes: &ByteString, from: usize) -> (end: usize)
    requires
        from <= bytes@.len(),
    ensures
        end == line_end(bytes@, from as int),
        from <= end <= bytes@.len(),
{
    let mut end: usize = from;
    while end < bytes.len() && bytes[end] != 10u8
        invariant
            from <= end <= bytes@.len(),
            line_end(bytes@, from as int) == line_end(bytes@, end as int),
        decreases bytes@.len() - end,
    {
        end = end + 1;
    }
    end
}

/// Appends `bytes[from..to]` to `out`.
fn append_range(out: &mut ByteString, bytes: &ByteString, from: usize, to: usize)
    requires
        from <= to <= bytes@.len(),
    ensures
        final(out)@ == old(out)@ + bytes@.subrange(from as int, to as int),
{
    let mut i: usize = from;
    while i < to
        invariant
            from <= i <= to <= bytes@.len(),
            out@ == old(out)@ + bytes@.subrange(from as int, i as int),
        decreases to - i,
    {
        out.push(bytes[i]);
        i = i + 1;
        assert(out@ =~= old(out)@ + bytes@.subrange(from as int, i as int));
    }
    assert(out@ =~= old(out)@ + bytes@.subrange(from as int, to as int));
}

/// Removes the indentation from the beginning of a segment.
pub fn dedent(bytes: &ByteString, c: u8, amount: usize) -> (r: ByteString)
    ensures
        r@ == dedented(bytes@, c, amount as nat),
{
    let k = count_indentation(bytes, 0, bytes.len(), c, amount);
    let mut out: ByteString = Vec::new();
    append_range(&mut out, bytes, k, bytes.len());
    assert(out@ =~= bytes@.skip(k as int));
    out
}

/// Removes the indentation from the beginning of every line.
pub fn dedent_lines(bytes: &ByteString, c: u8, amount: usize) -> (r: ByteString)
    ensures
        r@ == dedented_lines(bytes@, 0, c, amount as nat),
{
    let mut out: ByteString = Vec::new();
    let mut from: usize = 0;
    loop
        invariant_except_break
            out@ + dedented_lines(bytes@, from as int, c, amount as nat) == dedented_lines(
                bytes@,
                0,
                c,
                amount as nat,
            ),
        invariant
            from <= bytes@.len(),
        ensures
            out@ == dedented_lines(bytes@, 0, c, amount as nat),
        decreases bytes@.len() - from,
    {
        let end = find_line_end(bytes, from);
        let k = count_indentation(bytes, from, end, c, amount);
        let ghost before = out@;
        let ghost line = bytes@.subrange(from + k, end as int);
        append_range(&mut out, bytes, from + k, end);
        if end < bytes.len() {
            out.push(10u8);
            assert(out@ =~= before + (line + seq![10u8]));
            assert((before + (line + seq![10u8])) + dedented_lines(
                bytes@,
                end + 1,
                c,
                amount as nat,
            ) =~= before + (line + seq![10u8] + dedented_lines(bytes@, end + 1, c, amount as nat)));
            from = end + 1;
        } else {
            assert(out@ =~= before + line);
            break ;
        }
    }
    out
}

} // verus!
