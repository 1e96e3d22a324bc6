//! Which files of a link to download.

use vstd::prelude::*;

use crate::number::parse_i64;
use crate::text::{split_on, trim};

verus! {

/// Which files of a link to download.
#[derive(Debug, PartialEq)]
pub enum Selection {
    /// The ones with these indices; none means all.
    Indices(Vec<i64>),
    /// Whoever sits at the terminal is to say, if someone does.
    Ask,
}

/// Which files to download: all of them where that was asked for or there is only
/// one, the ones that were picked, or else what the terminal says.
pub fn choose_files(all: bool, pick: Vec<i64>, files: usize) -> (selection: Selection)
    ensures
        if all || files <= 1 {
            selection matches Selection::Indices(chosen) && chosen@.len() == 0
        } else if pick@.len() > 0 {
            selection == Selection::Indices(pick)
        } else {
            selection is Ask
        },
{
    if all || files <= 1 {
        Selection::Indices(Vec::new())
    } else if pick.len() > 0 {
        Selection::Indices(pick)
    } else {
        Selection::Ask
    }
}

/// The indices that the parts of a selection name, or the first part that names
/// none. Blank parts are passed over.
pub open spec fn picked(parts: Seq<Seq<char>>) -> Result<Seq<int>, Seq<char>>
    decreases parts.len(),
{
    if parts.len() == 0 {
        Ok(Seq::empty())
    } else {
        let part = crate::text::trimmed(parts.last());
        match picked(parts.drop_last()) {
            Err(bad) => Err(bad),
            Ok(before) => if part.len() == 0 {
                Ok(before)
            } else {
                match crate::number::number_within(part, i64::MIN as int, i64::MAX as int) {
                    Some(n) => Ok(before.push(n)),
                    None => Err(part),
                }
            },
        }
    }
}

/// The indices that a line names, with commas between them; a blank line names
/// none, which means all.
pub open spec fn picked_in(line: Seq<char>) -> Result<Seq<int>, Seq<char>> {
    if crate::text::trimmed(line).len() == 0 {
        Ok(Seq::empty())
    } else {
        picked(crate::text::split(crate::text::trimmed(line), ','))
    }
}

/// The indices as whole numbers.
pub open spec fn as_ints(indices: Seq<i64>) -> Seq<int> {
    indices.map_values(|i: i64| i as int)
}

/// The indices that a line names, or the first part of it that names none.
pub fn parse_pick(line: &str) -> (r: Result<Vec<i64>, String>)
    ensures
        match (r, picked_in(line@)) {
            (Ok(indices), Ok(numbers)) => as_ints(indices@) == numbers,
            (Err(part), Err(bad)) => part@ == bad,
            _ => false,
        },
{
    let text = trim(line);
    let mut out: Vec<i64> = Vec::new();
    if text.is_empty() {
        assert(as_ints(out@) =~= Seq::<int>::empty());
        return Ok(out);
    }
    let parts = split_on(text, ',');
    let ghost all = crate::text::texts(parts@);
    let n = parts.len();
    let mut i: usize = 0;
    assert(picked(all.take(0)) == Ok::<Seq<int>, Seq<char>>(Seq::empty()));
    assert(as_ints(out@) =~= Seq::<int>::empty());
    while i < n
        invariant
            n == parts@.len(),
            all == crate::text::texts(parts@),
            all == crate::text::split(crate::text::trimmed(line@), ','),
            crate::text::trimmed(line@).len() > 0,
            i <= n,
            picked(all.take(i as int)) == Ok::<Seq<int>, Seq<char>>(as_ints(out@)),
        decreases n - i,
    {
        let part = trim(parts[i].as_str());
        assert(all.take(i + 1).drop_last() =~= all.take(i as int));
        assert(all.take(i + 1).last() == parts@[i as int]@);
        if !part.is_empty() {
            match parse_i64(part) {
                Some(n) => {
                    let ghost before = out@;
                    out.push(n);
                    assert(as_ints(out@) =~= as_ints(before).push(n as int));
                },
                None => {
                    proof {
                        lemma_picked_fails(all, i + 1);
                    }
                    return Err(part.to_string());
                },
            }
        }
        i = i + 1;
    }
    assert(all.take(n as int) =~= all);
    Ok(out)
}

proof fn lemma_picked_fails(parts: Seq<Seq<char>>, k: int)
    requires
        0 <= k <= parts.len(),
        picked(parts.take(k)) is Err,
    ensures
        picked(parts) == picked(parts.take(k)),
    decreases parts.len() - k,
{
    if k < parts.len() {
        assert(parts.take(k + 1).drop_last() =~= parts.take(k));
        lemma_picked_fails(parts, k + 1);
    } else {
        assert(parts.take(k) =~= parts);
    }
}

proof fn lemma_join_ends(parts: Seq<Seq<char>>, sep: Seq<char>)
    requires
        parts.len() > 0,
        forall|i: int| 0 <= i < parts.len() ==> (#[trigger] parts[i]).len() > 0,
    ensures
        crate::text::join(parts, sep).len() > 0,
        crate::text::join(parts, sep)[0] == parts[0][0],
        crate::text::join(parts, sep).last() == parts.last().last(),
    decreases parts.len(),
{
    if parts.len() > 1 {
        let init = parts.drop_last();
        assert forall|i: int| 0 <= i < init.len() implies (#[trigger] init[i]).len() > 0 by {
            assert(init[i] == parts[i]);
        }
        lemma_join_ends(init, sep);
        assert(parts[parts.len() - 1].len() > 0);
    } else {
        assert(parts[0].len() > 0);
    }
}

proof fn lemma_numbers_picked(indices: Seq<i64>)
    ensures
        picked(indices.map_values(|i: i64| crate::number::decimal(i as int))) == Ok::<
            Seq<int>,
            Seq<char>,
        >(as_ints(indices)),
    decreases indices.len(),
{
    let parts = indices.map_values(|i: i64| crate::number::decimal(i as int));
    if indices.len() > 0 {
        let init = indices.drop_last();
        lemma_numbers_picked(init);
        assert(parts.drop_last() =~= init.map_values(|i: i64| crate::number::decimal(i as int)));
        crate::number::law_decimal_reads_back(indices.last() as int);
        crate::number::lemma_decimal_is_trimmed(indices.last() as int);
        assert(as_ints(indices) =~= as_ints(init).push(indices.last() as int));
    } else {
        assert(as_ints(indices) =~= Seq::<int>::empty());
    }
}

/// A list of indices, written as a new task has it, reads back as those indices.
pub proof fn law_index_list_reads_back(indices: Seq<i64>)
    requires
        indices.len() > 0,
    ensures
        picked_in(crate::drive::index_list(indices)) == Ok::<Seq<int>, Seq<char>>(
            as_ints(indices),
        ),
{
    let parts = indices.map_values(|i: i64| crate::number::decimal(i as int));
    let list = crate::drive::index_list(indices);
    reveal_strlit(",");
    assert(","@ =~= seq![',']);
    assert forall|i: int| 0 <= i < parts.len() implies (#[trigger] parts[i]).len() > 0
        && !parts[i].contains(',') by {
        crate::number::lemma_decimal_is_trimmed(indices[i] as int);
    }
    lemma_join_ends(parts, ","@);
    let first = indices[0] as int;
    let last = indices.last() as int;
    crate::number::lemma_decimal_is_trimmed(first);
    crate::number::lemma_decimal_is_trimmed(last);
    crate::text::law_trim_is_idempotent(crate::number::decimal(first));
    crate::text::law_trim_is_idempotent(crate::number::decimal(last));
    assert(parts[0] == crate::number::decimal(first));
    assert(parts.last() == crate::number::decimal(last));
    crate::text::lemma_trimmed_is_itself(list);
    crate::text::law_split_undoes_join(parts, ',');
    lemma_numbers_picked(indices);
}

/// A blank line picks every file.
pub proof fn law_blank_line_picks_all(line: Seq<char>)
    requires
        forall|i: int| 0 <= i < line.len() ==> crate::text::white_space(#[trigger] line[i]),
    ensures
        picked_in(line) == Ok::<Seq<int>, Seq<char>>(Seq::empty()),
{
    crate::text::lemma_strip_start_is_suffix(line, crate::text::Strip::Whitespace);
    let front = crate::text::strip_start(line, crate::text::Strip::Whitespace);
    if front.len() > 0 {
        assert(front[0] == line[line.len() - front.len()]);
    }
    crate::text::lemma_strip_end_is_prefix(front, crate::text::Strip::Whitespace);
}

proof fn lemma_picked_step(parts: Seq<Seq<char>>, part: Seq<char>)
    ensures
        picked(parts.push(part)) == (match picked(parts) {
            Err(bad) => Err::<Seq<int>, Seq<char>>(bad),
            Ok(before) => if crate::text::trimmed(part).len() == 0 {
                Ok::<Seq<int>, Seq<char>>(before)
            } else {
                match crate::number::number_within(
                    crate::text::trimmed(part),
                    i64::MIN as int,
                    i64::MAX as int,
                ) {
                    Some(n) => Ok::<Seq<int>, Seq<char>>(before.push(n)),
                    None => Err::<Seq<int>, Seq<char>>(crate::text::trimmed(part)),
                }
            },
        }),
{
    assert(parts.push(part).drop_last() =~= parts);
}

/// What stands behind one more comma names one more index, unless it is blank; the first
/// part that is no number is what a selection is refused for.
pub proof fn law_each_part_picks_one(line: Seq<char>, part: Seq<char>)
    requires
        line.len() > 0,
        !crate::text::white_space(line[0]),
        part.len() > 0,
        !part.contains(','),
        !crate::text::white_space(part.last()),
    ensures
        picked_in(line + seq![','] + part) == (match picked(crate::text::split(line, ',')) {
            Err(bad) => Err::<Seq<int>, Seq<char>>(bad),
            Ok(before) => match crate::number::number_within(
                crate::text::trimmed(part),
                i64::MIN as int,
                i64::MAX as int,
            ) {
                Some(n) => Ok::<Seq<int>, Seq<char>>(before.push(n)),
                None => Err::<Seq<int>, Seq<char>>(crate::text::trimmed(part)),
            },
        }),
{
    let whole = line + seq![','] + part;
    assert(whole[0] == line[0]);
    assert(whole.last() == part.last());
    crate::text::lemma_trimmed_is_itself(whole);
    crate::text::lemma_split_last(line, ',', part);
    lemma_picked_step(crate::text::split(line, ','), part);
    assert(crate::text::trimmed(part).len() > 0) by {
        let front = crate::text::strip_start(part, crate::text::Strip::Whitespace);
        crate::text::law_strip_start_takes_what_it_may(part, crate::text::Strip::Whitespace);
        crate::text::lemma_strip_start_is_suffix(part, crate::text::Strip::Whitespace);
        if front.len() == 0 {
            assert(crate::text::Strip::Whitespace.takes(part[part.len() - 1]));
        } else {
            assert(front.last() == part.last());
        }
    }
}

} // verus!
