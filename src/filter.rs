use vstd::prelude::*;

verus! {

/// The eight characters of the instruction alphabet.
pub open spec fn is_instruction_char(c: char) -> bool {
    c == '<' || c == '>' || c == '+' || c == '-' || c == '[' || c == ']' || c == ',' || c == '.'
}

/// Tells whether `c` belongs to the instruction alphabet.
pub fn is_bf_char(c: &char) -> (r: bool)
    ensures
        r == is_instruction_char(*c),
{
    let x = *c;
    x == '<' || x == '>' || x == '+' || x == '-' || x == '[' || x == ']' || x == ',' || x == '.'
}


/// The instruction characters of `s`, in order; everything else is dropped.
pub open spec fn filtered(s: Seq<char>) -> Seq<char>
    decreases s.len(),
{
    if s.len() == 0 {
        seq![]
    } else if is_instruction_char(s.last()) {
        filtered(s.drop_last()).push(s.last())
    } else {
        filtered(s.drop_last())
    }
}

/// Keeps the instruction characters of a source text, in order.
pub fn filter_source(src: &Vec<char>) -> (r: Vec<char>)
    ensures
        r@ == filtered(src@),
{
    let mut out: Vec<char> = Vec::new();
    let mut i: usize = 0;
    while i < src.len()
        invariant
            i <= src@.len(),
            out@ == filtered(src@.take(i as int)),
        decreases src.len() - i,
    {
        let c = src[i];
        assert(src@.take(i + 1).drop_last() == src@.take(i as int));
        if is_bf_char(&c) {
            out.push(c);
        }
        i = i + 1;
    }
    assert(src@.take(src@.len() as int) == src@);
    out
}

/// Filtering never makes a text longer.
pub proof fn lemma_filtered_len(s: Seq<char>)
    ensures
        filtered(s).len() <= s.len(),
    decreases s.len(),
{
    if s.len() > 0 {
        lemma_filtered_len(s.drop_last());
    }
}

/// Filtering an already filtered text gives it back unchanged.
pub proof fn lemma_filter_idempotent(s: Seq<char>)
    ensures
        filtered(filtered(s)) == filtered(s),
    decreases s.len(),
{
    if s.len() > 0 {
        lemma_filter_idempotent(s.drop_last());
        let f = filtered(s.drop_last());
        if is_instruction_char(s.last()) {
            assert(f.push(s.last()).drop_last() == f);
        }
    }
}

} // verus!
