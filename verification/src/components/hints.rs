//! Key hints along the foot of a panel.

use crate::styled;
use crate::styled::Line;
use vstd::prelude::*;

verus! {

/// The room that a hint takes: two spaces, the key, a space, the description.
pub open spec fn hint_cost(hint: (Seq<char>, Seq<char>)) -> nat {
    vstd::utf8::encode_utf8(hint.0).len() + vstd::utf8::encode_utf8(hint.1).len() + 3
}

pub open spec fn row_cost(hints: Seq<(Seq<char>, Seq<char>)>) -> nat
    decreases hints.len(),
{
    if hints.len() == 0 {
        0
    } else {
        row_cost(hints.drop_last()) + hint_cost(hints.last())
    }
}

/// Hints packed into rows, each as full as the width allows. `row` is the row that
/// is being filled.
pub open spec fn packed(
    row: Seq<(Seq<char>, Seq<char>)>,
    hints: Seq<(Seq<char>, Seq<char>)>,
    width: int,
) -> Seq<Seq<(Seq<char>, Seq<char>)>>
    decreases hints.len(),
{
    if hints.len() == 0 {
        if row.len() == 0 {
            Seq::empty()
        } else {
            seq![row]
        }
    } else if row.len() > 0 && row_cost(row) + hint_cost(hints[0]) > width {
        seq![row] + packed(seq![hints[0]], hints.skip(1), width)
    } else {
        packed(row.push(hints[0]), hints.skip(1), width)
    }
}

/// What rows of hints show.
pub open spec fn rows_shown(rows: Seq<Seq<(Seq<char>, Seq<char>)>>) -> Seq<Seq<styled::Piece>> {
    rows.map_values(|row: Seq<(Seq<char>, Seq<char>)>| styled::hints_shown(row))
}

/// Wraps hints rather than cutting them off. A hint keeps its key and description
/// together in one row, so a key never ends up stranded from what it does.
pub fn pack_hints(pairs: &[(&str, &str)], width: usize) -> (lines: Vec<Line>)
    ensures
        styled::shown(lines@) == rows_shown(
            packed(Seq::empty(), styled::pair_views(pairs@), width as int),
        ),
{
    let mut lines: Vec<Line> = Vec::new();
    let mut row: Vec<(&str, &str)> = Vec::new();
    let mut used: u128 = 0;
    let mut i: usize = 0;
    let ghost all = styled::pair_views(pairs@);
    let ghost whole = packed(Seq::empty(), all, width as int);
    proof {
        assert(styled::pair_views(row@) =~= Seq::empty());
        assert(all.skip(0) =~= all);
        assert(styled::shown(lines@) + rows_shown(whole) =~= rows_shown(whole));
    }
    while i < pairs.len()
        invariant
            all == styled::pair_views(pairs@),
            whole == packed(Seq::empty(), all, width as int),
            i <= pairs@.len(),
            used == row_cost(styled::pair_views(row@)),
            used <= 0x4_0000_0000_0000_0000,
            rows_shown(whole) == styled::shown(lines@) + rows_shown(
                packed(styled::pair_views(row@), all.skip(i as int), width as int),
            ),
        decreases pairs@.len() - i,
    {
        let (key, description): (&str, &str) = pairs[i];
        let cost: u128 = key.as_bytes().len() as u128 + description.as_bytes().len() as u128 + 3;
        let ghost filling = styled::pair_views(row@);
        let ghost left = all.skip(i as int);
        proof {
            assert(left[0] == (key@, description@));
            assert(cost == hint_cost(left[0]));
            assert(left.skip(1) =~= all.skip(i + 1));
        }
        if row.len() > 0 && used + cost > width as u128 {
            let ghost had = styled::shown(lines@);
            styled::push_line(&mut lines, styled::hint_line(row.as_slice()));
            row = Vec::new();
            used = 0;
            proof {
                let rest = packed(seq![left[0]], left.skip(1), width as int);
                assert(packed(filling, left, width as int) =~= seq![filling] + rest);
                assert(rows_shown(seq![filling] + rest) =~= seq![styled::hints_shown(filling)]
                    + rows_shown(rest));
                assert(styled::shown(lines@) + rows_shown(rest) =~= had + rows_shown(
                    packed(filling, left, width as int),
                ));
            }
        }
        let ghost partial = styled::pair_views(row@);
        row.push((key, description));
        used = used + cost;
        proof {
            assert(styled::pair_views(row@) =~= partial.push(left[0]));
            assert(partial.push(left[0]).drop_last() =~= partial);
            if partial.len() == 0 {
                assert(styled::pair_views(row@) =~= seq![left[0]]);
                assert(row_cost(partial) == 0);
            }
        }
        i += 1;
    }
    proof {
        assert(all.skip(i as int) =~= Seq::empty());
    }
    if row.len() > 0 {
        styled::push_line(&mut lines, styled::hint_line(row.as_slice()));
        assert(rows_shown(seq![styled::pair_views(row@)]) =~= seq![
            styled::hints_shown(styled::pair_views(row@)),
        ]);
    }
    assert(styled::shown(lines@) =~= rows_shown(whole));
    lines
}

/// The hints of all the rows, one row after the other.
pub open spec fn unpacked(rows: Seq<Seq<(Seq<char>, Seq<char>)>>) -> Seq<(Seq<char>, Seq<char>)>
    decreases rows.len(),
{
    if rows.len() == 0 {
        Seq::empty()
    } else {
        rows[0] + unpacked(rows.skip(1))
    }
}

/// However narrow the panel, every hint is in some row and they keep their order;
/// no row is empty, and a row goes past the width only where it is a single hint
/// that does not fit.
pub proof fn law_every_hint_survives(hints: Seq<(Seq<char>, Seq<char>)>, width: int)
    ensures
        unpacked(packed(Seq::empty(), hints, width)) == hints,
        forall|i: int|
            0 <= i < packed(Seq::empty(), hints, width).len() ==> {
                let row = #[trigger] packed(Seq::empty(), hints, width)[i];
                row.len() > 0 && (row.len() == 1 || row_cost(row) <= width)
            },
{
    lemma_packed(Seq::empty(), hints, width);
    assert(Seq::<(Seq<char>, Seq<char>)>::empty() + hints =~= hints);
}

proof fn lemma_packed(
    row: Seq<(Seq<char>, Seq<char>)>,
    hints: Seq<(Seq<char>, Seq<char>)>,
    width: int,
)
    requires
        row.len() <= 1 || row_cost(row) <= width,
    ensures
        unpacked(packed(row, hints, width)) == row + hints,
        forall|i: int|
            0 <= i < packed(row, hints, width).len() ==> {
                let r = #[trigger] packed(row, hints, width)[i];
                r.len() > 0 && (r.len() == 1 || row_cost(r) <= width)
            },
    decreases hints.len(),
{
    let all = packed(row, hints, width);
    if hints.len() == 0 {
        reveal_with_fuel(unpacked, 2);
        assert(row + hints =~= row);
        assert(row + Seq::<(Seq<char>, Seq<char>)>::empty() =~= row);
    } else if row.len() > 0 && row_cost(row) + hint_cost(hints[0]) > width {
        let rest = packed(seq![hints[0]], hints.skip(1), width);
        lemma_packed(seq![hints[0]], hints.skip(1), width);
        assert(all.skip(1) =~= rest);
        assert(seq![hints[0]] + hints.skip(1) =~= hints);
        assert forall|i: int| 0 <= i < all.len() implies {
            let r = #[trigger] all[i];
            r.len() > 0 && (r.len() == 1 || row_cost(r) <= width)
        } by {
            if i > 0 {
                assert(all[i] == rest[i - 1]);
            }
        }
    } else {
        let longer = row.push(hints[0]);
        assert(longer.drop_last() =~= row);
        lemma_packed(longer, hints.skip(1), width);
        assert(longer + hints.skip(1) =~= row + hints);
    }
}

}
