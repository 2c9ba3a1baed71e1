use vstd::prelude::*;

verus! {

/// The pieces of `s` between single spaces, as `str::split(" ")` gives them:
/// two spaces in a row leave an empty piece between them, and the empty text
/// is one empty piece.
pub open spec fn split_spaces(s: Seq<char>) -> Seq<Seq<char>>
    decreases s.len(),
{
    if s.len() == 0 {
        seq![Seq::<char>::empty()]
    } else {
        let rest = split_spaces(s.drop_last());
        if s.last() == ' ' {
            rest.push(Seq::<char>::empty())
        } else {
            rest.update(rest.len() - 1, rest.last().push(s.last()))
        }
    }
}

pub open spec fn has_no_space(s: Seq<char>) -> bool {
    forall|i: int| 0 <= i < s.len() ==> s[i] != ' '
}

pub proof fn lemma_split_nonempty(s: Seq<char>)
    ensures
        split_spaces(s).len() >= 1,
    decreases s.len(),
{
    if s.len() > 0 {
        lemma_split_nonempty(s.drop_last());
    }
}

/// Text without spaces after `x` lengthens the last piece of `x`.
pub proof fn lemma_split_extend(x: Seq<char>, y: Seq<char>)
    requires
        has_no_space(y),
    ensures
        split_spaces(x + y) == split_spaces(x).update(
            split_spaces(x).len() - 1,
            split_spaces(x).last() + y,
        ),
    decreases y.len(),
{
    lemma_split_nonempty(x);
    let sx = split_spaces(x);
    if y.len() == 0 {
        assert(x + y =~= x);
        assert(sx.last() + y =~= sx.last());
        assert(sx.update(sx.len() - 1, sx.last()) =~= sx);
    } else {
        let y0 = y.drop_last();
        lemma_split_extend(x, y0);
        assert((x + y).drop_last() =~= x + y0);
        assert((x + y).last() == y.last());
        assert((sx.last() + y0).push(y.last()) =~= sx.last() + y);
        let rest = split_spaces(x + y0);
        assert(rest.update(rest.len() - 1, rest.last().push(y.last())) =~= sx.update(
            sx.len() - 1,
            sx.last() + y,
        ));
    }
}

/// A space after `x` opens a new, empty piece.
pub proof fn lemma_split_space(x: Seq<char>)
    ensures
        split_spaces(x.push(' ')) == split_spaces(x).push(Seq::<char>::empty()),
{
    assert(x.push(' ').drop_last() =~= x);
}

/// `x`, a space, then text `y` without spaces: the pieces of `x` and then `y`.
pub proof fn lemma_split_append_piece(x: Seq<char>, y: Seq<char>)
    requires
        has_no_space(y),
    ensures
        split_spaces(x + seq![' '] + y) == split_spaces(x).push(y),
{
    lemma_split_space(x);
    assert(x + seq![' '] =~= x.push(' '));
    lemma_split_extend(x.push(' '), y);
    assert(Seq::<char>::empty() + y =~= y);
    let sx = split_spaces(x);
    assert(sx.push(Seq::<char>::empty()).update(sx.len() as int, y) =~= sx.push(y));
}

/// Text without spaces is one piece.
pub proof fn lemma_split_single(y: Seq<char>)
    requires
        has_no_space(y),
    ensures
        split_spaces(y) == seq![y],
{
    lemma_split_extend(Seq::<char>::empty(), y);
    assert(Seq::<char>::empty() + y =~= y);
    assert(Seq::<char>::empty() + y =~= y);
    assert(seq![Seq::<char>::empty()].update(0, y) =~= seq![y]);
}

/// Cuts `s` at every single space.
pub fn split_on_spaces<'a>(s: &'a str) -> (r: Vec<&'a str>)
    ensures
        r@.map_values(|t: &str| t@) == split_spaces(s@),
{
    let len = s.unicode_len();
    let mut pieces: Vec<&'a str> = Vec::new();
    let mut start: usize = 0;
    let mut i: usize = 0;
    assert(s@.take(0) =~= Seq::<char>::empty());
    assert(s@.subrange(0, 0) =~= Seq::<char>::empty());
    while i < len
        invariant
            start <= i <= len,
            len == s@.len(),
            pieces@.map_values(|t: &str| t@).push(s@.subrange(start as int, i as int))
                == split_spaces(s@.take(i as int)),
        decreases len - i,
    {
        let c = s.get_char(i);
        let ghost before = pieces@.map_values(|t: &str| t@);
        assert(s@.take(i + 1).drop_last() =~= s@.take(i as int));
        assert(s@.take(i + 1).last() == c);
        if c == ' ' {
            let piece = s.substring_char(start, i);
            pieces.push(piece);
            start = i + 1;
            assert(pieces@.map_values(|t: &str| t@) =~= before.push(piece@));
            assert(s@.subrange(start as int, start as int) =~= Seq::<char>::empty());
        } else {
            assert(s@.subrange(start as int, i + 1) =~= s@.subrange(start as int, i as int).push(c));
        }
        i = i + 1;
    }
    let ghost before = pieces@.map_values(|t: &str| t@);
    let last = s.substring_char(start, len);
    pieces.push(last);
    assert(pieces@.map_values(|t: &str| t@) =~= before.push(last@));
    assert(s@.take(len as int) =~= s@);
    pieces
}

} // verus!
