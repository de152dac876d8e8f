//! Labels, names and ids of the scheduled stops of a bike bus timetable.
use vstd::prelude::*;
use crate::text::{decimal_string, spec_decimal};

verus! {

/// Letter of the stop at position `i`: `A` to `Z`, then `S` for every later stop.
pub open spec fn stop_letter(i: int) -> Seq<char> {
    if 0 <= i < 26 {
        seq![(65 + i) as char]
    } else {
        seq!['S']
    }
}

/// Label of stop `i` of `num_stops` on the route ranked `rank`: `Arr` for the
/// school arrival (the last stop), otherwise the rank followed by the stop letter.
pub open spec fn spec_stop_label(rank: nat, i: int, num_stops: int) -> Seq<char> {
    if i == num_stops - 1 {
        "Arr"@
    } else {
        spec_decimal(rank) + stop_letter(i)
    }
}

/// Display name of stop `i` of `num_stops` with the given label.
pub open spec fn spec_stop_name(label: Seq<char>, i: int, num_stops: int) -> Seq<char> {
    if i == num_stops - 1 {
        "School Arrival"@
    } else if i == 0 {
        "Stop "@ + label + " (Origin Start)"@
    } else {
        "Stop "@ + label
    }
}

/// Id of a stop: `R`, the route rank, `_` and the stop label.
pub open spec fn spec_stop_id(rank: nat, label: Seq<char>) -> Seq<char> {
    "R"@ + spec_decimal(rank) + "_"@ + label
}

fn stop_letter_str(i: usize) -> (s: &'static str)
    ensures
        s@ == stop_letter(i as int),
{
    if i < 26 {
        let letters = "ABCDEFGHIJKLMNOPQRSTUVWXYZ";
        proof {
            reveal_strlit("ABCDEFGHIJKLMNOPQRSTUVWXYZ");
        }
        let s = letters.substring_char(i, i + 1);
        assert(s@ =~= stop_letter(i as int));
        s
    } else {
        let s = "S";
        proof {
            reveal_strlit("S");
        }
        assert(s@ =~= stop_letter(i as int));
        s
    }
}

/// Label of stop `index` of `num_stops` on the route ranked `rank`.
pub fn stop_label(rank: usize, index: usize, num_stops: usize) -> (s: String)
    ensures
        s@ == spec_stop_label(rank as nat, index as int, num_stops as int),
{
    if num_stops >= 1 && index == num_stops - 1 {
        "Arr".to_owned()
    } else {
        let mut s = decimal_string(rank);
        s.append(stop_letter_str(index));
        s
    }
}

/// Display name of stop `index` of `num_stops` with the given label.
pub fn stop_name(label: &str, index: usize, num_stops: usize) -> (s: String)
    ensures
        s@ == spec_stop_name(label@, index as int, num_stops as int),
{
    if num_stops >= 1 && index == num_stops - 1 {
        "School Arrival".to_owned()
    } else if index == 0 {
        let mut s = "Stop ".to_owned();
        s.append(label);
        s.append(" (Origin Start)");
        s
    } else {
        let mut s = "Stop ".to_owned();
        s.append(label);
        s
    }
}

/// Id of a stop of the route ranked `rank`.
pub fn stop_id(rank: usize, label: &str) -> (s: String)
    ensures
        s@ == spec_stop_id(rank as nat, label@),
{
    let mut s = "R".to_owned();
    let d = decimal_string(rank);
    s.append(d.as_str());
    s.append("_");
    s.append(label);
    s
}

/// Stops are lettered `A` (the origin stop), `B`, ... `Z` in order, then
/// `S`; a label is the route rank in decimal followed by that letter, except
/// for the school arrival, labelled `Arr`. Names read `Stop <label>`, the
/// first stop adding ` (Origin Start)`, the last being `School Arrival`.
pub proof fn lemma_stop_naming(rank: nat, i: int, num_stops: int)
    ensures
        stop_letter(0) == seq!['A'],
        stop_letter(1) == seq!['B'],
        stop_letter(25) == seq!['Z'],
        0 <= i < 26 ==> stop_letter(i).len() == 1 && stop_letter(i)[0] as u32 == 65 + i,
        i >= 26 ==> stop_letter(i) == seq!['S'],
        0 <= i < num_stops - 1 ==> spec_stop_label(rank, i, num_stops) == spec_decimal(rank)
            + stop_letter(i),
        i == num_stops - 1 ==> spec_stop_label(rank, i, num_stops) == "Arr"@,
        0 < i < num_stops - 1 ==> spec_stop_name(spec_stop_label(rank, i, num_stops), i, num_stops)
            == "Stop "@ + spec_decimal(rank) + stop_letter(i),
        0 == i < num_stops - 1 ==> spec_stop_name(spec_stop_label(rank, i, num_stops), i, num_stops)
            == "Stop "@ + spec_decimal(rank) + stop_letter(i) + " (Origin Start)"@,
        i == num_stops - 1 ==> spec_stop_name(spec_stop_label(rank, i, num_stops), i, num_stops)
            == "School Arrival"@,
{
    assert(((65 + 0) as char) == 'A');
    assert(((65 + 1) as char) == 'B');
    assert(((65 + 25) as char) == 'Z');
    assert(stop_letter(0) =~= seq!['A']);
    assert(stop_letter(1) =~= seq!['B']);
    assert(stop_letter(25) =~= seq!['Z']);
}

/// The first 26 stops before the school get labels, and so ids, of their own.
pub proof fn lemma_stop_ids_distinct(rank: nat, i: int, j: int, num_stops: int)
    requires
        0 <= i < j < num_stops - 1,
        j < 26,
    ensures
        spec_stop_label(rank, i, num_stops) != spec_stop_label(rank, j, num_stops),
        spec_stop_id(rank, spec_stop_label(rank, i, num_stops)) != spec_stop_id(
            rank,
            spec_stop_label(rank, j, num_stops),
        ),
{
    let li = spec_stop_label(rank, i, num_stops);
    let lj = spec_stop_label(rank, j, num_stops);
    assert(li.last() == (65 + i) as char);
    assert(lj.last() == (65 + j) as char);
    assert(((65 + i) as char) as u32 != ((65 + j) as char) as u32);
    let ii = spec_stop_id(rank, li);
    let jj = spec_stop_id(rank, lj);
    assert(ii.last() == li.last());
    assert(jj.last() == lj.last());
}

} // verus!
