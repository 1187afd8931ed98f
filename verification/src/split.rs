//! Cutting the value of a search-path variable into its directories.

use vstd::prelude::*;

verus! {

/// The pieces into which the occurrences of `separator` cut `bytes`, in
/// order. Empty pieces are kept, so the empty value has one empty piece.
pub open spec fn split(bytes: Seq<u8>, separator: u8) -> Seq<Seq<u8>>
    decreases bytes.len(),
{
    if bytes.len() == 0 {
        seq![Seq::<u8>::empty()]
    } else {
        let before = split(bytes.drop_last(), separator);
        if bytes.last() == separator {
            before.push(Seq::<u8>::empty())
        } else {
            before.drop_last().push(before.last().push(bytes.last()))
        }
    }
}

/// The pieces put together again with `separator` between them.
pub open spec fn rejoined(pieces: Seq<Seq<u8>>, separator: u8) -> Seq<u8>
    decreases pieces.len(),
{
    if pieces.len() == 0 {
        Seq::empty()
    } else if pieces.len() == 1 {
        pieces[0]
    } else {
        rejoined(pieces.drop_last(), separator) + seq![separator] + pieces.last()
    }
}

/// Whether no piece holds the separator.
pub open spec fn separated(pieces: Seq<Seq<u8>>, separator: u8) -> bool {
    forall|i: int, j: int|
        0 <= i < pieces.len() && 0 <= j < pieces[i].len() ==> #[trigger] pieces[i][j] != separator
}

/// What each of `pieces` holds.
pub open spec fn contents(pieces: Seq<Vec<u8>>) -> Seq<Seq<u8>> {
    pieces.map_values(|piece: Vec<u8>| piece@)
}

/// Splitting cuts at every separator and nowhere else: there is at least one
/// piece, no piece holds the separator, and the pieces with the separator
/// put back between them are the value that was split.
pub proof fn lemma_split_cuts_at_separators(bytes: Seq<u8>, separator: u8)
    ensures
        split(bytes, separator).len() >= 1,
        separated(split(bytes, separator), separator),
        rejoined(split(bytes, separator), separator) == bytes,
    decreases bytes.len(),
{
    if bytes.len() == 0 {
        assert(rejoined(split(bytes, separator), separator) =~= bytes);
    } else {
        let before = split(bytes.drop_last(), separator);
        let pieces = split(bytes, separator);
        lemma_split_cuts_at_separators(bytes.drop_last(), separator);
        assert(bytes =~= bytes.drop_last().push(bytes.last()));
        if bytes.last() == separator {
            assert(pieces.drop_last() =~= before);
            assert(rejoined(pieces, separator) =~= bytes);
        } else {
            let grown = before.last().push(bytes.last());
            assert(pieces.last() == grown);
            if before.len() == 1 {
                assert(rejoined(pieces, separator) =~= bytes);
            } else {
                assert(pieces.drop_last() =~= before.drop_last());
                assert(rejoined(before, separator) == rejoined(before.drop_last(), separator)
                    + seq![separator] + before.last());
                assert(rejoined(pieces, separator) == rejoined(before.drop_last(), separator)
                    + seq![separator] + grown);
                assert(rejoined(pieces, separator) =~= bytes);
            }
        }
    }
}

/// Splitting undoes joining: pieces that do not hold the separator come
/// back as they were. So the pieces of a value are the only ones that are
/// free of the separator and join to it.
pub proof fn lemma_split_recovers_pieces(pieces: Seq<Seq<u8>>, separator: u8)
    requires
        pieces.len() >= 1,
        separated(pieces, separator),
    ensures
        split(rejoined(pieces, separator), separator) == pieces,
    decreases pieces.len(), pieces.last().len(),
{
    let bytes = rejoined(pieces, separator);
    let last = pieces.last();
    if last.len() == 0 {
        assert(last =~= Seq::<u8>::empty());
        if pieces.len() == 1 {
            assert(pieces =~= seq![Seq::<u8>::empty()]);
        } else {
            let init = pieces.drop_last();
            assert forall|i: int, j: int| 0 <= i < init.len() && 0 <= j < init[i].len() implies
                #[trigger] init[i][j] != separator by {
                assert(pieces[i][j] != separator);
            }
            lemma_split_recovers_pieces(init, separator);
            assert(bytes =~= rejoined(init, separator).push(separator));
            assert(bytes.drop_last() =~= rejoined(init, separator));
            assert(pieces =~= init.push(Seq::<u8>::empty()));
        }
    } else {
        let shorter = pieces.update(pieces.len() - 1, last.drop_last());
        assert(pieces[pieces.len() - 1][last.len() - 1] != separator);
        assert forall|i: int, j: int| 0 <= i < shorter.len() && 0 <= j < shorter[i].len() implies
            #[trigger] shorter[i][j] != separator by {
            assert(pieces[i][j] != separator);
        }
        assert(shorter.drop_last() =~= pieces.drop_last());
        assert(last =~= last.drop_last().push(last.last()));
        assert(rejoined(shorter, separator).push(last.last()) =~= bytes);
        assert(bytes.drop_last() =~= rejoined(shorter, separator));
        lemma_split_recovers_pieces(shorter, separator);
        assert(pieces =~= shorter.drop_last().push(shorter.last().push(last.last())));
    }
}

/// Cuts the value of a search-path variable into its directories.
pub fn split_paths(value: &Vec<u8>, separator: u8) -> (pieces: Vec<Vec<u8>>)
    ensures
        contents(pieces@) == split(value@, separator),
        pieces@.len() >= 1,
        separated(contents(pieces@), separator),
        rejoined(contents(pieces@), separator) == value@,
{
    let mut pieces: Vec<Vec<u8>> = Vec::new();
    let mut current: Vec<u8> = Vec::new();
    let mut i: usize = 0;
    assert(contents(pieces@).push(current@) =~= split(value@.take(0), separator));
    while i < value.len()
        invariant
            i <= value@.len(),
            contents(pieces@).push(current@) == split(value@.take(i as int), separator),
        decreases value@.len() - i,
    {
        let ghost done = contents(pieces@);
        let ghost piece = current@;
        let byte: u8 = value[i];
        if byte == separator {
            pieces.push(current);
            current = Vec::new();
            assert(contents(pieces@) =~= done.push(piece));
        } else {
            current.push(byte);
            assert(done.push(piece).drop_last() =~= done);
        }
        i = i + 1;
        proof {
            assert(value@.take(i as int).drop_last() =~= value@.take(i - 1));
        }
    }
    let ghost done = contents(pieces@);
    let ghost piece = current@;
    pieces.push(current);
    proof {
        assert(value@.take(i as int) =~= value@);
        assert(contents(pieces@) =~= done.push(piece));
        lemma_split_cuts_at_separators(value@, separator);
    }
    pieces
}

} // verus!
