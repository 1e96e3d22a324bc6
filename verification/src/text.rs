//! Text as sequences of characters: trimming, searching, splitting and joining.

use vstd::prelude::*;

verus! {

/// Whether `c` has the Unicode `White_Space` property.
pub open spec fn white_space(c: char) -> bool {
    ||| 0x09 <= c as u32 <= 0x0d
    ||| c as u32 == 0x20
    ||| c as u32 == 0x85
    ||| c as u32 == 0xa0
    ||| c as u32 == 0x1680
    ||| 0x2000 <= c as u32 <= 0x200a
    ||| c as u32 == 0x2028
    ||| c as u32 == 0x2029
    ||| c as u32 == 0x202f
    ||| c as u32 == 0x205f
    ||| c as u32 == 0x3000
}

/// What a trim takes off the end of a text.
#[derive(Clone, Copy)]
pub enum Strip {
    Whitespace,
    Slash,
}

impl Strip {
    pub open spec fn takes(self, c: char) -> bool {
        match self {
            Strip::Whitespace => white_space(c),
            Strip::Slash => c == '/',
        }
    }

    /// Whether this trim takes `c` off.
    pub fn strips(self, c: char) -> (taken: bool)
        ensures
            taken == self.takes(c),
    {
        match self {
            Strip::Whitespace => is_whitespace(c),
            Strip::Slash => c == '/',
        }
    }
}

/// `s` without the longest prefix that `strip` takes.
pub open spec fn strip_start(s: Seq<char>, strip: Strip) -> Seq<char>
    decreases s.len(),
{
    if s.len() > 0 && strip.takes(s[0]) {
        strip_start(s.skip(1), strip)
    } else {
        s
    }
}

/// `s` without the longest suffix that `strip` takes.
pub open spec fn strip_end(s: Seq<char>, strip: Strip) -> Seq<char>
    decreases s.len(),
{
    if s.len() > 0 && strip.takes(s.last()) {
        strip_end(s.drop_last(), strip)
    } else {
        s
    }
}

/// `s` without white space at either end.
pub open spec fn trimmed(s: Seq<char>) -> Seq<char> {
    strip_end(strip_start(s, Strip::Whitespace), Strip::Whitespace)
}

/// Whether `c` has the Unicode `White_Space` property.
pub fn is_whitespace(c: char) -> (r: bool)
    ensures
        r == white_space(c),
{
    let n = c as u32;
    (0x09 <= n && n <= 0x0d) || n == 0x20 || n == 0x85 || n == 0xa0 || n == 0x1680 || (0x2000 <= n
        && n <= 0x200a) || n == 0x2028 || n == 0x2029 || n == 0x202f || n == 0x205f || n == 0x3000
}

/// The characters of `s`, in order.
pub fn chars_of(s: &str) -> (chars: Vec<char>)
    ensures
        chars@ == s@,
{
    let mut chars: Vec<char> = Vec::new();
    for c in it: s.chars()
        invariant
            it.seq() == s@,
            chars@ == s@.take(it.index() as int),
    {
        chars.push(c);
    }
    chars
}

/// `s` without its longest prefix that `strip` takes.
pub fn trim_start_of(s: &str, strip: Strip) -> (rest: &str)
    ensures
        rest@ == strip_start(s@, strip),
{
    let chars = chars_of(s);
    let n = chars.len();
    let mut i: usize = 0;
    assert(s@.skip(0) =~= s@);
    while i < n && strip.strips(chars[i])
        invariant
            n == chars@.len(),
            chars@ == s@,
            i <= n,
            strip_start(s@, strip) == strip_start(s@.skip(i as int), strip),
        decreases n - i,
    {
        assert(s@.skip(i as int).skip(1) =~= s@.skip(i + 1));
        i = i + 1;
    }
    assert(s@.subrange(i as int, n as int) =~= s@.skip(i as int));
    s.substring_char(i, n)
}

/// `s` without its longest suffix that `strip` takes.
pub fn trim_end_of(s: &str, strip: Strip) -> (rest: &str)
    ensures
        rest@ == strip_end(s@, strip),
{
    let chars = chars_of(s);
    let mut n = chars.len();
    assert(s@.take(n as int) =~= s@);
    while n > 0 && strip.strips(chars[n - 1])
        invariant
            n <= chars@.len(),
            chars@ == s@,
            strip_end(s@, strip) == strip_end(s@.take(n as int), strip),
        decreases n,
    {
        assert(s@.take(n as int).drop_last() =~= s@.take(n - 1));
        n = n - 1;
    }
    assert(s@.subrange(0, n as int) =~= s@.take(n as int));
    s.substring_char(0, n)
}

/// `s` without white space at either end.
pub fn trim(s: &str) -> (rest: &str)
    ensures
        rest@ == trimmed(s@),
{
    trim_end_of(trim_start_of(s, Strip::Whitespace), Strip::Whitespace)
}

/// The texts of a list.
pub open spec fn texts(list: Seq<String>) -> Seq<Seq<char>> {
    list.map_values(|s: String| s@)
}

/// Whether `part` stands in `s` at position `at`.
pub open spec fn stands_at(s: Seq<char>, part: Seq<char>, at: int) -> bool {
    &&& 0 <= at
    &&& at + part.len() <= s.len()
    &&& s.subrange(at, at + part.len()) == part
}

/// Whether `part` stands somewhere in `s`.
pub open spec fn holds_text(s: Seq<char>, part: Seq<char>) -> bool {
    exists|at: int| stands_at(s, part, at)
}

/// Whether `at` is the first position at which `part` stands in `s`.
pub open spec fn first_stands_at(s: Seq<char>, part: Seq<char>, at: int) -> bool {
    &&& stands_at(s, part, at)
    &&& forall|j: int| 0 <= j < at ==> !stands_at(s, part, j)
}

/// Whether two texts are the same.
pub fn same_text(a: &str, b: &str) -> (same: bool)
    ensures
        same == (a@ == b@),
{
    let a = chars_of(a);
    let b = chars_of(b);
    if a.len() != b.len() {
        return false;
    }
    let same = chars_stand_at(&a, &b, 0);
    proof {
        assert(a@.subrange(0, b@.len() as int) =~= a@);
    }
    same
}

/// Whether `part` stands in `s` at position `at`.
pub fn chars_stand_at(s: &Vec<char>, part: &Vec<char>, at: usize) -> (found: bool)
    requires
        at <= s@.len(),
    ensures
        found == stands_at(s@, part@, at as int),
{
    let n = part.len();
    if s.len() - at < n {
        return false;
    }
    let mut i: usize = 0;
    while i < n
        invariant
            n == part@.len(),
            at + n <= s.len(),
            i <= n,
            forall|k: int| 0 <= k < i ==> s@[at + k] == part@[k],
        decreases n - i,
    {
        if s[at + i] != part[i] {
            proof {
                assert(s@.subrange(at as int, at + n)[i as int] != part@[i as int]);
            }
            return false;
        }
        i = i + 1;
    }
    assert(s@.subrange(at as int, at + n) =~= part@);
    true
}

/// Whether `s` begins with `prefix`.
pub fn starts_with(s: &str, prefix: &str) -> (found: bool)
    ensures
        found == prefix@.is_prefix_of(s@),
{
    chars_stand_at(&chars_of(s), &chars_of(prefix), 0)
}

/// Whether `s` ends with `suffix`.
pub fn ends_with(s: &str, suffix: &str) -> (found: bool)
    ensures
        found == suffix@.is_suffix_of(s@),
{
    let chars = chars_of(s);
    let part = chars_of(suffix);
    if part.len() > chars.len() {
        return false;
    }
    chars_stand_at(&chars, &part, chars.len() - part.len())
}

/// The first position at which `part` stands in `s`, if it stands there at all.
pub fn find_chars(s: &Vec<char>, part: &Vec<char>) -> (at: Option<usize>)
    ensures
        match at {
            Some(at) => first_stands_at(s@, part@, at as int),
            None => !holds_text(s@, part@),
        },
{
    let n = s.len();
    let mut i: usize = 0;
    while i < n
        invariant
            n == s@.len(),
            i <= n,
            forall|j: int| 0 <= j < i ==> !stands_at(s@, part@, j),
        decreases n - i,
    {
        if chars_stand_at(s, part, i) {
            return Some(i);
        }
        i = i + 1;
    }
    if chars_stand_at(s, part, n) {
        return Some(n);
    }
    None
}

/// Whether `part` stands somewhere in `s`.
pub fn contains_text(s: &str, part: &str) -> (found: bool)
    ensures
        found == holds_text(s@, part@),
{
    match find_chars(&chars_of(s), &chars_of(part)) {
        Some(at) => {
            assert(stands_at(s@, part@, at as int));
            true
        },
        None => false,
    }
}

/// The pieces of `s` between occurrences of `sep`: one more than there are
/// occurrences.
pub open spec fn split(s: Seq<char>, sep: char) -> Seq<Seq<char>>
    decreases s.len(),
{
    if s.len() == 0 {
        seq![Seq::empty()]
    } else {
        let before = split(s.drop_last(), sep);
        if s.last() == sep {
            before.push(Seq::empty())
        } else {
            before.drop_last().push(before.last().push(s.last()))
        }
    }
}

/// The texts of `parts`, with `sep` between each and the next.
pub open spec fn join(parts: Seq<Seq<char>>, sep: Seq<char>) -> Seq<char>
    decreases parts.len(),
{
    if parts.len() == 0 {
        Seq::empty()
    } else if parts.len() == 1 {
        parts[0]
    } else {
        join(parts.drop_last(), sep) + sep + parts.last()
    }
}

pub proof fn lemma_split_nonempty(s: Seq<char>, sep: char)
    ensures
        split(s, sep).len() >= 1,
    decreases s.len(),
{
    if s.len() > 0 {
        lemma_split_nonempty(s.drop_last(), sep);
    }
}

/// The pieces of `s` between occurrences of `sep`.
pub fn split_on(s: &str, sep: char) -> (pieces: Vec<String>)
    ensures
        texts(pieces@) == split(s@, sep),
{
    let chars = chars_of(s);
    let n = chars.len();
    let mut pieces: Vec<String> = Vec::new();
    let mut start: usize = 0;
    let mut i: usize = 0;
    assert(s@.subrange(0, 0) =~= Seq::<char>::empty());
    assert(texts(pieces@).push(s@.subrange(0, 0)) =~= split(s@.take(0), sep));
    while i < n
        invariant
            n == chars@.len(),
            chars@ == s@,
            start <= i <= n,
            texts(pieces@).push(s@.subrange(start as int, i as int)) == split(
                s@.take(i as int),
                sep,
            ),
        decreases n - i,
    {
        let ghost before = split(s@.take(i as int), sep);
        assert(s@.take(i + 1).drop_last() =~= s@.take(i as int));
        assert(s@.take(i + 1).last() == s@[i as int]);
        assert(before.drop_last() =~= texts(pieces@));
        assert(before.last() == s@.subrange(start as int, i as int));
        if chars[i] == sep {
            let ghost old_pieces = pieces@;
            pieces.push(s.substring_char(start, i).to_string());
            start = i + 1;
            assert(texts(pieces@) =~= before);
            assert(s@.subrange(start as int, i + 1) =~= Seq::<char>::empty());
        } else {
            assert(s@.subrange(start as int, i as int).push(s@[i as int]) =~= s@.subrange(
                start as int,
                i + 1,
            ));
        }
        i = i + 1;
    }
    let ghost before = texts(pieces@);
    assert(s@.take(n as int) =~= s@);
    pieces.push(s.substring_char(start, n).to_string());
    assert(texts(pieces@) =~= before.push(s@.subrange(start as int, n as int)));
    pieces
}

/// The texts of `parts`, with `sep` between each and the next.
pub fn join_with(parts: &Vec<String>, sep: &str) -> (joined: String)
    ensures
        joined@ == join(texts(parts@), sep@),
{
    let mut joined = String::new();
    let n = parts.len();
    let mut i: usize = 0;
    let ghost all = texts(parts@);
    assert(all.take(0) =~= Seq::<Seq<char>>::empty());
    while i < n
        invariant
            n == parts@.len(),
            all == texts(parts@),
            i <= n,
            joined@ == join(all.take(i as int), sep@),
        decreases n - i,
    {
        assert(all.take(i + 1).drop_last() =~= all.take(i as int));
        assert(all.take(i + 1).last() == parts@[i as int]@);
        if i > 0 {
            joined.append(sep);
        }
        joined.append(parts[i].as_str());
        i = i + 1;
        assert(joined@ =~= join(all.take(i as int), sep@));
    }
    assert(all.take(n as int) =~= all);
    joined
}

/// Whether `s` is ASCII text.
pub open spec fn ascii(s: Seq<char>) -> bool {
    forall|i: int| 0 <= i < s.len() ==> (#[trigger] s[i] as int) < 0x80
}

/// An ASCII character in upper case.
pub open spec fn upper_char(c: char) -> char {
    if 'a' <= c <= 'z' {
        (c as int - 0x20) as char
    } else {
        c
    }
}

/// ASCII text in upper case.
pub open spec fn ascii_upper(s: Seq<char>) -> Seq<char> {
    s.map_values(|c: char| upper_char(c))
}

/// What `str::to_uppercase` makes of a text.
pub uninterp spec fn uppercased(s: Seq<char>) -> Seq<char>;

/// Calls `str::to_uppercase`: the text that [`uppercased`] names. In ASCII text each
/// of `a` to `z` becomes its capital, and all else stays.
#[verifier::external_body]
pub(crate) fn to_uppercase(s: &str) -> (upper: String)
    ensures
        upper@ == uppercased(s@),
        ascii(s@) ==> upper@ == ascii_upper(s@),
{
    s.to_uppercase()
}

// ---- splitting and joining ------------------------------------------------

/// Splitting is undone by joining.
pub proof fn law_join_undoes_split(s: Seq<char>, sep: char)
    ensures
        join(split(s, sep), seq![sep]) == s,
    decreases s.len(),
{
    if s.len() > 0 {
        let before = split(s.drop_last(), sep);
        lemma_split_nonempty(s.drop_last(), sep);
        law_join_undoes_split(s.drop_last(), sep);
        if s.last() == sep {
            let parts = before.push(Seq::empty());
            assert(parts.drop_last() =~= before);
            assert(join(parts, seq![sep]) =~= s.drop_last() + seq![sep]);
            assert(s =~= s.drop_last() + seq![sep]);
        } else {
            let parts = before.drop_last().push(before.last().push(s.last()));
            assert(parts.drop_last() =~= before.drop_last());
            assert(parts.len() == before.len());
            assert(join(parts, seq![sep]) =~= join(before, seq![sep]).push(s.last())) by {
                if parts.len() == 1 {
                    assert(before[0] == before.last());
                }
            }
            assert(s =~= s.drop_last().push(s.last()));
        }
    }
}

/// A text that is put behind a separator, and has none in it, is a piece of its own.
pub proof fn lemma_split_last(s: Seq<char>, sep: char, tail: Seq<char>)
    requires
        !tail.contains(sep),
    ensures
        split(s + seq![sep] + tail, sep) == split(s, sep).push(tail),
    decreases tail.len(),
{
    let whole = s + seq![sep] + tail;
    if tail.len() == 0 {
        assert(whole.drop_last() =~= s);
        assert(whole.last() == sep);
        assert(tail =~= Seq::<char>::empty());
    } else {
        let shorter = tail.drop_last();
        assert(whole.drop_last() =~= s + seq![sep] + shorter);
        assert(whole.last() == tail.last());
        assert(tail[tail.len() - 1] != sep);
        assert(!shorter.contains(sep)) by {
            if shorter.contains(sep) {
                let i = choose|i: int| 0 <= i < shorter.len() && shorter[i] == sep;
                assert(tail[i] == sep);
            }
        }
        lemma_split_last(s, sep, shorter);
        let before = split(s, sep).push(shorter);
        assert(before.drop_last() =~= split(s, sep));
        assert(shorter.push(tail.last()) =~= tail);
    }
}

/// A text without the separator is its own only piece.
pub proof fn lemma_split_whole(s: Seq<char>, sep: char)
    requires
        !s.contains(sep),
    ensures
        split(s, sep) == seq![s],
    decreases s.len(),
{
    if s.len() > 0 {
        let shorter = s.drop_last();
        assert(s[s.len() - 1] != sep);
        assert(!shorter.contains(sep)) by {
            if shorter.contains(sep) {
                let i = choose|i: int| 0 <= i < shorter.len() && shorter[i] == sep;
                assert(s[i] == sep);
            }
        }
        lemma_split_whole(shorter, sep);
        assert(shorter.push(s.last()) =~= s);
        assert(seq![shorter].drop_last().push(s) =~= seq![s]);
    } else {
        assert(s =~= Seq::<char>::empty());
    }
}

/// Joining is undone by splitting, where no part holds the separator.
pub proof fn law_split_undoes_join(parts: Seq<Seq<char>>, sep: char)
    requires
        parts.len() > 0,
        forall|i: int| 0 <= i < parts.len() ==> !(#[trigger] parts[i]).contains(sep),
    ensures
        split(join(parts, seq![sep]), sep) == parts,
    decreases parts.len(),
{
    if parts.len() == 1 {
        lemma_split_whole(parts[0], sep);
        assert(parts =~= seq![parts[0]]);
    } else {
        let init = parts.drop_last();
        law_split_undoes_join(init, sep);
        lemma_split_last(join(init, seq![sep]), sep, parts.last());
        assert(parts =~= init.push(parts.last()));
    }
}

/// No piece of a text holds the separator.
pub proof fn lemma_pieces_without_separator(s: Seq<char>, sep: char)
    ensures
        forall|i: int| 0 <= i < split(s, sep).len() ==> !(#[trigger] split(s, sep)[i]).contains(sep),
    decreases s.len(),
{
    if s.len() > 0 {
        let before = split(s.drop_last(), sep);
        lemma_split_nonempty(s.drop_last(), sep);
        lemma_pieces_without_separator(s.drop_last(), sep);
        assert forall|i: int| 0 <= i < split(s, sep).len() implies !(#[trigger] split(
            s,
            sep,
        )[i]).contains(sep) by {
            let piece = split(s, sep)[i];
            if i < before.len() - 1 {
                assert(piece == before[i]);
            } else if s.last() != sep {
                let old_piece = before[before.len() - 1];
                assert(piece == old_piece.push(s.last()));
                if piece.contains(sep) {
                    let k = choose|k: int| 0 <= k < piece.len() && piece[k] == sep;
                    assert(old_piece[k] == sep);
                }
            } else if i == before.len() - 1 {
                assert(piece == before[i]);
            }
        }
    }
}

// ---- trimming -------------------------------------------------------------

pub proof fn lemma_strip_start_is_suffix(s: Seq<char>, strip: Strip)
    ensures
        strip_start(s, strip).len() <= s.len(),
        strip_start(s, strip) == s.skip(s.len() - strip_start(s, strip).len()),
        strip_start(s, strip).len() > 0 ==> !strip.takes(strip_start(s, strip)[0]),
    decreases s.len(),
{
    if s.len() > 0 && strip.takes(s[0]) {
        lemma_strip_start_is_suffix(s.skip(1), strip);
        let rest = strip_start(s, strip);
        assert(rest =~= s.skip(s.len() - rest.len()));
    } else {
        assert(s.skip(0) =~= s);
    }
}

pub proof fn lemma_strip_end_is_prefix(s: Seq<char>, strip: Strip)
    ensures
        strip_end(s, strip).len() <= s.len(),
        strip_end(s, strip) == s.take(strip_end(s, strip).len() as int),
        strip_end(s, strip).len() > 0 ==> !strip.takes(strip_end(s, strip).last()),
    decreases s.len(),
{
    if s.len() > 0 && strip.takes(s.last()) {
        lemma_strip_end_is_prefix(s.drop_last(), strip);
        let rest = strip_end(s, strip);
        assert(rest =~= s.take(rest.len() as int));
    } else {
        assert(s.take(s.len() as int) =~= s);
    }
}

/// A text that neither begins nor ends with white space is left as it is by a trim.
pub proof fn lemma_trimmed_is_itself(s: Seq<char>)
    requires
        s.len() > 0,
        !white_space(s[0]),
        !white_space(s.last()),
    ensures
        trimmed(s) == s,
{
}

/// A trim leaves no white space at either end, and trimming again changes nothing.
pub proof fn law_trim_is_idempotent(s: Seq<char>)
    ensures
        trimmed(s).len() > 0 ==> !white_space(trimmed(s)[0]) && !white_space(trimmed(s).last()),
        trimmed(trimmed(s)) == trimmed(s),
{
    let front = strip_start(s, Strip::Whitespace);
    lemma_strip_start_is_suffix(s, Strip::Whitespace);
    lemma_strip_end_is_prefix(front, Strip::Whitespace);
    if trimmed(s).len() > 0 {
        assert(trimmed(s)[0] == front[0]);
        lemma_trimmed_is_itself(trimmed(s));
    } else {
        assert(trimmed(s) =~= Seq::<char>::empty());
    }
}

/// What stands before the first separator is the first piece.
pub proof fn lemma_split_first(first: Seq<char>, sep: char, rest: Seq<char>)
    requires
        !first.contains(sep),
    ensures
        split(first + seq![sep] + rest, sep).len() >= 2,
        split(first + seq![sep] + rest, sep)[0] == first,
    decreases rest.len(),
{
    let whole = first + seq![sep] + rest;
    if rest.len() == 0 {
        assert(whole =~= first + seq![sep] + Seq::<char>::empty());
        lemma_split_whole(first, sep);
        lemma_split_last(first, sep, Seq::empty());
    } else {
        lemma_split_first(first, sep, rest.drop_last());
        assert(whole.drop_last() =~= first + seq![sep] + rest.drop_last());
        assert(whole.last() == rest.last());
    }
}

/// What a strip takes off the start is all that it may take, and nothing else.
pub proof fn law_strip_start_takes_what_it_may(s: Seq<char>, strip: Strip)
    ensures
        strip_start(s, strip).len() <= s.len(),
        s == s.take(s.len() - strip_start(s, strip).len()) + strip_start(s, strip),
        forall|i: int|
            0 <= i < s.len() - strip_start(s, strip).len() ==> strip.takes(#[trigger] s[i]),
        strip_start(s, strip).len() > 0 ==> !strip.takes(strip_start(s, strip)[0]),
    decreases s.len(),
{
    lemma_strip_start_is_suffix(s, strip);
    let rest = strip_start(s, strip);
    assert(s =~= s.take(s.len() - rest.len()) + rest);
    if s.len() > 0 && strip.takes(s[0]) {
        law_strip_start_takes_what_it_may(s.skip(1), strip);
        assert forall|i: int| 0 <= i < s.len() - rest.len() implies strip.takes(
            #[trigger] s[i],
        ) by {
            if i > 0 {
                assert(s.skip(1)[i - 1] == s[i]);
            }
        }
    }
}

/// What a strip takes off the end is all that it may take, and nothing else.
pub proof fn law_strip_end_takes_what_it_may(s: Seq<char>, strip: Strip)
    ensures
        strip_end(s, strip).len() <= s.len(),
        s == strip_end(s, strip) + s.skip(strip_end(s, strip).len() as int),
        forall|i: int| strip_end(s, strip).len() <= i < s.len() ==> strip.takes(#[trigger] s[i]),
        strip_end(s, strip).len() > 0 ==> !strip.takes(strip_end(s, strip).last()),
    decreases s.len(),
{
    lemma_strip_end_is_prefix(s, strip);
    let rest = strip_end(s, strip);
    assert(s =~= rest + s.skip(rest.len() as int));
    if s.len() > 0 && strip.takes(s.last()) {
        law_strip_end_takes_what_it_may(s.drop_last(), strip);
        assert forall|i: int| rest.len() <= i < s.len() implies strip.takes(#[trigger] s[i]) by {
            if i < s.len() - 1 {
                assert(s.drop_last()[i] == s[i]);
            }
        }
    }
}

/// A text with blanks before and after it is trimmed to itself.
pub proof fn law_blanks_around_are_trimmed(before: Seq<char>, s: Seq<char>, after: Seq<char>)
    requires
        s.len() > 0,
        !white_space(s[0]),
        !white_space(s.last()),
        forall|i: int| 0 <= i < before.len() ==> white_space(#[trigger] before[i]),
        forall|i: int| 0 <= i < after.len() ==> white_space(#[trigger] after[i]),
    ensures
        trimmed(before + s + after) == s,
{
    let whole = before + s + after;
    let front = strip_start(whole, Strip::Whitespace);
    law_strip_start_takes_what_it_may(whole, Strip::Whitespace);
    let cut = whole.len() - front.len();
    assert(cut == before.len()) by {
        if cut > before.len() {
            assert(whole[before.len() as int] == s[0]);
        }
        if cut < before.len() {
            assert(front.len() > 0);
            assert(front[0] == whole[cut]);
            assert(whole[cut] == before[cut]);
        }
    }
    lemma_strip_start_is_suffix(whole, Strip::Whitespace);
    assert(front =~= s + after);
    let both = strip_end(front, Strip::Whitespace);
    law_strip_end_takes_what_it_may(front, Strip::Whitespace);
    assert(both.len() == s.len()) by {
        if both.len() < s.len() {
            assert(front[s.len() - 1] == s.last());
        }
        if both.len() > s.len() {
            assert(both.last() == front[both.len() - 1]);
            assert(front[both.len() - 1] == after[both.len() - 1 - s.len()]);
        }
    }
    lemma_strip_end_is_prefix(front, Strip::Whitespace);
    assert(both =~= s);
}

} // verus!
