use vstd::prelude::*;

verus! {

/// The pieces joined back together, with a comma between each two.
pub open spec fn join_with_commas(pieces: Seq<Seq<char>>) -> Seq<char>
    decreases pieces.len(),
{
    if pieces.len() == 0 {
        seq![]
    } else if pieces.len() == 1 {
        pieces[0]
    } else {
        join_with_commas(pieces.drop_last()) + seq![','] + pieces.last()
    }
}

/// The text of each string.
pub open spec fn texts(v: Seq<String>) -> Seq<Seq<char>> {
    v.map_values(|s: String| s@)
}

/// Splits a comma-separated symbol list at each comma. Nothing is trimmed:
/// the pieces, commas put back between them, are the list itself.
pub fn split_symbols(list: &str) -> (r: Vec<String>)
    ensures
        r@.len() >= 1,
        join_with_commas(texts(r@)) == list@,
        forall|i: int| 0 <= i < r@.len() ==> !r@[i]@.contains(','),
{
    let n = list.unicode_len();
    let mut pieces: Vec<String> = Vec::new();
    let mut start: usize = 0;
    let mut i: usize = 0;
    while i < n
        invariant
            n == list@.len(),
            start <= i <= n,
            join_with_commas(texts(pieces@).push(list@.subrange(start as int, i as int)))
                == list@.subrange(0, i as int),
            forall|j: int| 0 <= j < pieces@.len() ==> !pieces@[j]@.contains(','),
            !list@.subrange(start as int, i as int).contains(','),
        decreases n - i,
    {
        let c = list.get_char(i);
        let ghost before = texts(pieces@).push(list@.subrange(start as int, i as int));
        if c == ',' {
            let piece = list.substring_char(start, i).to_owned();
            pieces.push(piece);
            start = i + 1;
            proof {
                let now = texts(pieces@).push(list@.subrange(start as int, i + 1));
                assert(list@.subrange(start as int, i + 1) =~= seq![]);
                assert(texts(pieces@) =~= before);
                assert(now.drop_last() =~= before);
                assert(list@.subrange(0, i + 1) =~= list@.subrange(0, i as int) + seq![',']);
                assert(join_with_commas(now) =~= join_with_commas(before) + seq![','] + seq![]);
            }
        } else {
            proof {
                let now = texts(pieces@).push(list@.subrange(start as int, i + 1));
                assert(now.drop_last() =~= before.drop_last());
                assert(list@.subrange(0, i + 1) =~= list@.subrange(0, i as int) + seq![c]);
                assert(list@.subrange(start as int, i + 1) =~= list@.subrange(start as int, i as int)
                    + seq![c]);
                assert(join_with_commas(now) =~= join_with_commas(before) + seq![c]);
                let grown = list@.subrange(start as int, i + 1);
                let prev = list@.subrange(start as int, i as int);
                assert forall|j: int| 0 <= j < grown.len() implies #[trigger] grown[j] != ',' by {
                    if j < prev.len() {
                        assert(grown[j] == prev[j]);
                    }
                }
            }
        }
        i = i + 1;
    }
    let last = list.substring_char(start, n).to_owned();
    let ghost before = texts(pieces@).push(list@.subrange(start as int, n as int));
    pieces.push(last);
    proof {
        assert(texts(pieces@) =~= before);
        assert(list@.subrange(0, n as int) =~= list@);
    }
    pieces
}

} // verus!
