//! References to mapped regions on a command line: `$HERETEK_MAPPING_START_<path>` and
//! `$HERETEK_MAPPING_END_<path>` stand for the start and the end address of a region.
use vstd::prelude::*;

use crate::app::App;
use crate::mi::MemoryMapping;
use crate::text::{
    has_prefix, hex, hex_text, lemma_hex_text_chars, lemma_run_len, lemma_run_len_is, run_len,
};

verus! {

/// The end of a region that a reference asks for.
#[derive(Debug, Clone, Copy, PartialEq, Eq, Structural)]
pub enum Bound {
    Start,
    End,
}

impl Bound {
    /// What a reference starts with.
    pub open spec fn marker(self) -> Seq<char> {
        match self {
            Bound::Start => "$HERETEK_MAPPING_START_"@,
            Bound::End => "$HERETEK_MAPPING_END_"@,
        }
    }

    /// The regular expression of a reference: the marker, and the path as its one group.
    pub open spec fn pattern(self) -> Seq<char> {
        match self {
            Bound::Start => r"\$HERETEK_MAPPING_START_([\w\[\]/.-]+)"@,
            Bound::End => r"\$HERETEK_MAPPING_END_([\w\[\]/.-]+)"@,
        }
    }
}

/// Whether a character outside ASCII belongs to the class `\w` of the crate `regex`.
pub uninterp spec fn unicode_word(c: char) -> bool;

/// Whether a character may stand in the path of a reference: `[\w\[\]/.-]`. `word` tells which
/// characters outside ASCII belong to `\w`.
pub open spec fn path_char(c: char, word: spec_fn(char) -> bool) -> bool {
    ||| '0' <= c <= '9'
    ||| 'A' <= c <= 'Z'
    ||| 'a' <= c <= 'z'
    ||| c == '_'
    ||| c == '['
    ||| c == ']'
    ||| c == '/'
    ||| c == '.'
    ||| c == '-'
    ||| c as u32 >= 128 && word(c)
}

/// The address that a region's path stands for: that of the first region with this path, or
/// zero.
pub open spec fn address_of(map: Seq<MemoryMapping>, path: Seq<char>, bound: Bound) -> u64
    decreases map.len(),
{
    if map.len() == 0 {
        0
    } else if map[0].has_path(path) {
        match bound {
            Bound::Start => map[0].start_address,
            Bound::End => map[0].end_address,
        }
    } else {
        address_of(map.skip(1), path, bound)
    }
}

/// Length of the path of a reference at the beginning of `s`; zero where there is no reference.
pub open spec fn path_len(s: Seq<char>, bound: Bound, word: spec_fn(char) -> bool) -> nat {
    if has_prefix(s, bound.marker()) {
        run_len(s.skip(bound.marker().len() as int), |c: char| path_char(c, word))
    } else {
        0
    }
}

/// The line with each reference, from left to right, replaced by its address.
pub open spec fn substituted(
    s: Seq<char>,
    map: Seq<MemoryMapping>,
    bound: Bound,
    word: spec_fn(char) -> bool,
) -> Seq<char>
    decreases s.len(),
{
    let m = bound.marker().len() as int;
    let n = path_len(s, bound, word) as int;
    if s.len() == 0 {
        Seq::empty()
    } else if n == 0 {
        seq![s[0]] + substituted(s.skip(1), map, bound, word)
    } else {
        proof {
            lemma_run_len(s.skip(m), |c: char| path_char(c, word));
        }
        hex_text(address_of(map, s.subrange(m, m + n), bound)) + substituted(
            s.skip(m + n),
            map,
            bound,
            word,
        )
    }
}

/// The text that stands for a region's bound.
pub fn mapping_address(map: &Vec<MemoryMapping>, path: &str, bound: Bound) -> (r: String)
    ensures
        r@ == hex_text(address_of(map@, path@, bound)),
{
    let mut i: usize = 0;
    assert(map@.skip(0) == map@);
    while i < map.len()
        invariant
            i <= map@.len(),
            address_of(map@.skip(i as int), path@, bound) == address_of(map@, path@, bound),
        decreases map@.len() - i,
    {
        assert(map@.skip(i as int)[0] == map@[i as int]);
        assert(map@.skip(i as int).skip(1) == map@.skip(i + 1));
        if map[i].is_path(path) {
            return hex(
                match bound {
                    Bound::Start => map[i].start_address,
                    Bound::End => map[i].end_address,
                },
            );
        }
        i += 1;
    }
    hex(0)
}

/// Calls `regex::Regex::new` and `regex::Regex::replace_all`.
///
/// The two patterns compile. Replacing all matches walks over the line from left to right: where
/// the marker stands with at least one path character behind it, the marker and the longest run
/// of path characters are replaced by what the closure gives for that run, taken literally; all
/// else is copied. Of the class `\w` only its ASCII members are spelled out, the others have
/// the name `unicode_word`.
#[verifier::external_body]
fn replace_all(pattern: &str, line: &str, map: &Vec<MemoryMapping>, bound: Bound) -> (r: String)
    requires
        pattern@ == bound.pattern(),
    ensures
        r@ == substituted(line@, map@, bound, |c: char| unicode_word(c)),
{
    regex::Regex::new(pattern).unwrap().replace_all(
        line,
        |caps: &regex::Captures| mapping_address(map, &caps[1], bound),
    ).into_owned()
}

/// The line after all references of one kind have been replaced; without a memory map it stays
/// as it is.
pub open spec fn replaced(
    line: Seq<char>,
    map: Option<Seq<MemoryMapping>>,
    bound: Bound,
) -> Seq<char> {
    match map {
        Some(m) => substituted(line, m, bound, |c: char| unicode_word(c)),
        None => line,
    }
}

/// The view of an optional memory map.
pub open spec fn map_view(map: Option<Vec<MemoryMapping>>) -> Option<Seq<MemoryMapping>> {
    match map {
        Some(m) => Some(m@),
        None => None,
    }
}

/// Replaces each `$HERETEK_MAPPING_START_<path>` by the start address of that region.
pub fn replace_mapping_start(app: &App, val: &mut String)
    ensures
        final(val)@ == replaced(old(val)@, app@.memory_map, Bound::Start),
{
    if let Some(map) = &app.memory_map {
        *val = replace_all(
            r"\$HERETEK_MAPPING_START_([\w\[\]/.-]+)",
            val.as_str(),
            map,
            Bound::Start,
        );
    }
}

/// Replaces each `$HERETEK_MAPPING_END_<path>` by the end address of that region.
pub fn replace_mapping_end(app: &App, val: &mut String)
    ensures
        final(val)@ == replaced(old(val)@, app@.memory_map, Bound::End),
{
    if let Some(map) = &app.memory_map {
        *val = replace_all(
            r"\$HERETEK_MAPPING_END_([\w\[\]/.-]+)",
            val.as_str(),
            map,
            Bound::End,
        );
    }
}

/// A line that holds no reference stays as it is.
pub proof fn law_other_text_stays(
    line: Seq<char>,
    map: Seq<MemoryMapping>,
    bound: Bound,
    word: spec_fn(char) -> bool,
)
    requires
        forall|i: int| 0 <= i < line.len() ==> path_len(#[trigger] line.skip(i), bound, word) == 0,
    ensures
        substituted(line, map, bound, word) == line,
    decreases line.len(),
{
    if line.len() > 0 {
        let rest = line.skip(1);
        assert(line.skip(0) == line);
        assert forall|i: int| 0 <= i < rest.len() implies path_len(
            #[trigger] rest.skip(i),
            bound,
            word,
        ) == 0 by {
            assert(rest.skip(i) == line.skip(i + 1));
        }
        law_other_text_stays(rest, map, bound, word);
        assert(seq![line[0]] + rest == line);
    }
}

/// The markers begin with a dollar sign and go on with path characters; they differ before their
/// ends.
proof fn lemma_markers(bound: Bound, word: spec_fn(char) -> bool)
    ensures
        bound.marker().len() > 17,
        bound.marker()[0] == '$',
        bound.marker()[1] == 'H',
        forall|i: int|
            1 <= i < bound.marker().len() ==> path_char(#[trigger] bound.marker()[i], word),
        forall|other: Bound| bound != other ==> bound.marker()[17] != #[trigger] other.marker()[17],
{
    reveal_strlit("$HERETEK_MAPPING_START_");
    reveal_strlit("$HERETEK_MAPPING_END_");
}

/// A reference begins with a dollar sign.
proof fn lemma_reference_starts_with_dollar(
    s: Seq<char>,
    bound: Bound,
    word: spec_fn(char) -> bool,
)
    requires
        s.len() > 0,
        s[0] != '$',
    ensures
        path_len(s, bound, word) == 0,
{
    lemma_markers(bound, word);
    let m = bound.marker();
    if has_prefix(s, m) {
        assert(s.take(m.len() as int)[0] == m[0]);
    }
}

/// What begins with one marker is no reference to the other bound.
proof fn lemma_reference_has_one_bound(
    s: Seq<char>,
    bound: Bound,
    other: Bound,
    word: spec_fn(char) -> bool,
)
    requires
        bound != other,
        has_prefix(s, bound.marker()),
    ensures
        path_len(s, other, word) == 0,
{
    lemma_markers(bound, word);
    lemma_markers(other, word);
    let m = bound.marker();
    let o = other.marker();
    assert(s.take(m.len() as int)[17] == m[17]);
    if has_prefix(s, o) {
        assert(s.take(o.len() as int)[17] == o[17]);
    }
}

/// Text before the first dollar sign stays.
#[verifier::spinoff_prover]
proof fn lemma_text_before_dollar_stays(
    before: Seq<char>,
    rest: Seq<char>,
    map: Seq<MemoryMapping>,
    bound: Bound,
    word: spec_fn(char) -> bool,
)
    requires
        !before.contains('$'),
    ensures
        substituted(before + rest, map, bound, word) == before + substituted(
            rest,
            map,
            bound,
            word,
        ),
    decreases before.len(),
{
    let line = before + rest;
    if before.len() > 0 {
        let tail = before.skip(1);
        assert forall|i: int| 0 <= i < tail.len() implies tail[i] != '$' by {
            assert(tail[i] == before[i + 1]);
            assert(before.contains(before[i + 1]));
        }
        lemma_text_before_dollar_stays(tail, rest, map, bound, word);
        assert(before.contains(before[0]));
        lemma_reference_starts_with_dollar(line, bound, word);
        assert(line.skip(1) == tail + rest);
        assert(seq![line[0]] + (tail + substituted(rest, map, bound, word)) == before + substituted(
            rest,
            map,
            bound,
            word,
        ));
    } else {
        assert(line == rest);
        assert(before + substituted(rest, map, bound, word) == substituted(rest, map, bound, word));
    }
}

/// A line without a dollar sign stays as it is, whatever the memory map.
pub proof fn law_lines_without_dollar_stay(
    line: Seq<char>,
    map: Option<Seq<MemoryMapping>>,
    bound: Bound,
)
    requires
        !line.contains('$'),
    ensures
        replaced(line, map, bound) == line,
{
    if let Some(m) = map {
        let word = |c: char| unicode_word(c);
        assert forall|i: int| 0 <= i < line.len() implies path_len(
            #[trigger] line.skip(i),
            bound,
            word,
        ) == 0 by {
            assert(line.skip(i)[0] == line[i]);
            lemma_reference_starts_with_dollar(line.skip(i), bound, word);
        }
        law_other_text_stays(line, m, bound, word);
    }
}

/// A reference at the beginning of a line is replaced by the address of its region.
#[verifier::spinoff_prover]
proof fn lemma_leading_reference(
    path: Seq<char>,
    behind: Seq<char>,
    map: Seq<MemoryMapping>,
    bound: Bound,
    word: spec_fn(char) -> bool,
)
    requires
        path.len() > 0,
        forall|i: int| 0 <= i < path.len() ==> path_char(#[trigger] path[i], word),
        behind.len() > 0 ==> !path_char(behind[0], word),
    ensures
        substituted(bound.marker() + path + behind, map, bound, word) == hex_text(
            address_of(map, path, bound),
        ) + substituted(behind, map, bound, word),
{
    let line = bound.marker() + path + behind;
    let m = bound.marker().len() as int;
    let n = path.len() as int;
    assert(line.take(m) == bound.marker());
    let s = line.skip(m);
    assert(s == path + behind);
    assert forall|i: int| 0 <= i < n implies path_char(#[trigger] s[i], word) by {
        assert(s[i] == path[i]);
    }
    lemma_run_len_is(s, |c: char| path_char(c, word), n);
    assert(line.subrange(m, m + n) == path);
    assert(line.skip(m + n) == behind);
}

/// A reference is replaced by the address of its region, and nothing before it changes. The path
/// of the reference reaches as far as path characters do.
#[verifier::spinoff_prover]
pub proof fn law_reference_becomes_address(
    before: Seq<char>,
    path: Seq<char>,
    behind: Seq<char>,
    map: Seq<MemoryMapping>,
    bound: Bound,
    word: spec_fn(char) -> bool,
)
    requires
        !before.contains('$'),
        path.len() > 0,
        forall|i: int| 0 <= i < path.len() ==> path_char(#[trigger] path[i], word),
        behind.len() > 0 ==> !path_char(behind[0], word),
    ensures
        substituted(before + bound.marker() + path + behind, map, bound, word) == before
            + hex_text(address_of(map, path, bound)) + substituted(behind, map, bound, word),
{
    let reference = bound.marker() + path + behind;
    let address = hex_text(address_of(map, path, bound));
    let rest = substituted(behind, map, bound, word);
    lemma_text_before_dollar_stays(before, reference, map, bound, word);
    lemma_leading_reference(path, behind, map, bound, word);
    assert(before + bound.marker() + path + behind == before + reference);
    assert(before + address + rest == before + (address + rest));
}

/// A path that no region has stands for the address zero.
pub proof fn law_unknown_path_is_zero(map: Seq<MemoryMapping>, path: Seq<char>, bound: Bound)
    requires
        forall|i: int| 0 <= i < map.len() ==> !(#[trigger] map[i]).has_path(path),
    ensures
        address_of(map, path, bound) == 0,
    decreases map.len(),
{
    if map.len() > 0 {
        assert(forall|i: int| 0 <= i < map.skip(1).len() ==> map.skip(1)[i] == map[i + 1]);
        law_unknown_path_is_zero(map.skip(1), path, bound);
    }
}

/// Of several regions with one path, the first one counts.
pub proof fn law_first_region_counts(
    map: Seq<MemoryMapping>,
    path: Seq<char>,
    bound: Bound,
    first: int,
)
    requires
        0 <= first < map.len(),
        map[first].has_path(path),
        forall|i: int| 0 <= i < first ==> !(#[trigger] map[i]).has_path(path),
    ensures
        address_of(map, path, bound) == (match bound {
            Bound::Start => map[first].start_address,
            Bound::End => map[first].end_address,
        }),
    decreases first,
{
    if first > 0 {
        assert(map.skip(1)[first - 1] == map[first]);
        assert(forall|i: int| 0 <= i < first - 1 ==> map.skip(1)[i] == #[trigger] map[i + 1]);
        assert forall|i: int| 0 <= i < first - 1 implies !(#[trigger] map.skip(1)[i]).has_path(
            path,
        ) by {
            assert(!map[i + 1].has_path(path));
        }
        law_first_region_counts(map.skip(1), path, bound, first - 1);
    }
}

/// A marker, and text without a dollar sign behind it, stay when the other bound is replaced.
#[verifier::spinoff_prover]
proof fn lemma_other_marker_stays(
    text: Seq<char>,
    rest: Seq<char>,
    map: Seq<MemoryMapping>,
    bound: Bound,
    other: Bound,
    word: spec_fn(char) -> bool,
)
    requires
        bound != other,
        !text.contains('$'),
    ensures
        substituted(bound.marker() + text + rest, map, other, word) == bound.marker() + text
            + substituted(rest, map, other, word),
{
    let m = bound.marker();
    let line = m + text + rest;
    let tail = m.skip(1) + text;
    lemma_markers(bound, word);
    assert(line.take(m.len() as int) == m);
    lemma_reference_has_one_bound(line, bound, other, word);
    assert forall|i: int| 0 <= i < tail.len() implies tail[i] != '$' by {
        if i < m.len() - 1 {
            assert(path_char(m[i + 1], word));
            assert(tail[i] == m[i + 1]);
        } else {
            assert(tail[i] == text[i - (m.len() - 1)]);
            assert(text.contains(text[i - (m.len() - 1)]));
        }
    }
    assert(line.skip(1) == tail + rest);
    lemma_text_before_dollar_stays(tail, rest, map, other, word);
    let r = substituted(rest, map, other, word);
    assert(seq![line[0]] + (tail + r) == m + text + r);
}

/// In a line with one reference, that reference is replaced by the address of its region, and
/// the rest of the line stays.
#[verifier::spinoff_prover]
pub proof fn law_single_reference(
    before: Seq<char>,
    path: Seq<char>,
    behind: Seq<char>,
    map: Seq<MemoryMapping>,
    bound: Bound,
)
    requires
        !before.contains('$'),
        !behind.contains('$'),
        path.len() > 0,
        forall|i: int|
            0 <= i < path.len() ==> path_char(#[trigger] path[i], |c: char| unicode_word(c)),
        behind.len() > 0 ==> !path_char(behind[0], |c: char| unicode_word(c)),
    ensures
        replaced(
            replaced(before + bound.marker() + path + behind, Some(map), Bound::Start),
            Some(map),
            Bound::End,
        ) == before + hex_text(address_of(map, path, bound)) + behind,
{
    let word = |c: char| unicode_word(c);
    let line = before + bound.marker() + path + behind;
    let address = hex_text(address_of(map, path, bound));
    let result = before + address + behind;
    law_lines_without_dollar_stay(behind, Some(map), Bound::Start);
    law_lines_without_dollar_stay(behind, Some(map), Bound::End);
    law_reference_becomes_address(before, path, behind, map, bound, word);
    assert(replaced(line, Some(map), bound) == result);
    match bound {
        Bound::Start => {
            lemma_hex_text_chars(address_of(map, path, bound));
            assert(!address.contains('$'));
            lemma_text_before_dollar_stays(before, address + behind, map, Bound::End, word);
            lemma_text_before_dollar_stays(address, behind, map, Bound::End, word);
            assert(result == before + (address + behind));
        },
        Bound::End => {
            assert forall|i: int| 0 <= i < path.len() implies path[i] != '$' by {
                assert(path_char(path[i], word));
            }
            let reference = bound.marker() + path + behind;
            lemma_other_marker_stays(path, behind, map, bound, Bound::Start, word);
            lemma_text_before_dollar_stays(before, reference, map, Bound::Start, word);
            assert(line == before + reference);
        },
    }
}

/// Whether no dollar sign stands directly behind a path character.
pub open spec fn separated(s: Seq<char>, word: spec_fn(char) -> bool) -> bool {
    forall|i: int| 0 < i < s.len() && #[trigger] s[i] == '$' ==> !path_char(s[i - 1], word)
}

/// Dollar signs stay separated in the end of a line.
proof fn lemma_separated_end(s: Seq<char>, n: int, word: spec_fn(char) -> bool)
    requires
        separated(s, word),
        0 <= n <= s.len(),
    ensures
        separated(s.skip(n), word),
{
    let t = s.skip(n);
    assert forall|i: int| 0 < i < t.len() && #[trigger] t[i] == '$' implies !path_char(
        t[i - 1],
        word,
    ) by {
        assert(s[i + n] == '$');
        assert(t[i - 1] == s[i + n - 1]);
    }
}

/// Where no reference begins, none arises from what is replaced further on.
#[verifier::spinoff_prover]
proof fn lemma_no_reference_arises(
    s: Seq<char>,
    map: Seq<MemoryMapping>,
    bound: Bound,
    other: Bound,
    word: spec_fn(char) -> bool,
)
    requires
        s.len() > 0,
        separated(s, word),
        path_len(s, other, word) == 0,
    ensures
        path_len(seq![s[0]] + substituted(s.skip(1), map, bound, word), other, word) == 0,
{
    let t = s.skip(1);
    let rest = substituted(t, map, bound, word);
    let line = seq![s[0]] + rest;
    let o = other.marker();
    let m = o.len() as int;
    let p = |c: char| path_char(c, word);
    lemma_markers(other, word);
    if s[0] != '$' {
        lemma_reference_starts_with_dollar(line, other, word);
    } else if path_len(line, other, word) > 0 {
        // the marker and one path character begin the line
        lemma_run_len(line.skip(m), p);
        assert(line.skip(m)[0] == line[m]);
        assert(path_char(line[m], word));
        assert forall|i: int| 0 <= i < m implies line[i] == o[i] by {
            assert(line.take(m)[i] == o[i]);
        }
        assert forall|i: int| 1 <= i <= m implies path_char(#[trigger] line[i], word) by {
            if i < m {
                assert(path_char(o[i], word));
            }
        }
        // up to the first dollar sign behind the first character nothing was replaced
        let d = run_len(t, |c: char| c != '$') as int;
        lemma_run_len(t, |c: char| c != '$');
        let plain = t.take(d);
        assert(!plain.contains('$')) by {
            assert forall|i: int| 0 <= i < plain.len() implies plain[i] != '$' by {
                assert(plain[i] == t[i]);
            }
        }
        lemma_text_before_dollar_stays(plain, t.skip(d), map, bound, word);
        assert(plain + t.skip(d) == t);
        let end = substituted(t.skip(d), map, bound, word);
        assert(rest == plain + end);
        assert forall|i: int| 1 <= i <= d implies line[i] == #[trigger] s[i] by {
            assert(line[i] == plain[i - 1]);
        }
        if d >= m {
            // then the reference stood in `s` already
            assert(s.take(m) =~= o) by {
                assert forall|i: int| 0 <= i < m implies s[i] == o[i] by {
                    if i > 0 {
                        assert(line[i] == s[i]);
                    }
                }
            }
            assert(s.skip(m)[0] == s[m]);
            assert(line[m] == s[m]);
            assert(run_len(s.skip(m), p) > 0);
        } else if d == t.len() {
            assert(end.len() == 0);
            assert(line.len() == d + 1);
        } else {
            assert(t[d] == '$');
            assert(t.skip(d)[0] == '$');
            assert(s[d + 1] == '$');
            assert(line[d + 1] == end[0]);
            if path_len(t.skip(d), bound, word) == 0 {
                assert(end[0] == '$');
                assert(path_char(line[d + 1], word));
            } else if d > 0 {
                assert(path_char(line[d], word));
                assert(line[d] == s[d]);
            } else {
                reveal_strlit("0x");
                assert(end[0] == '0');
                assert(line[1] == o[1]);
            }
        }
    }
}

/// A line that begins with a reference, taken apart.
#[verifier::spinoff_prover]
proof fn lemma_take_reference_apart(
    s: Seq<char>,
    bound: Bound,
    word: spec_fn(char) -> bool,
) -> (r: (Seq<char>, Seq<char>))
    requires
        path_len(s, bound, word) > 0,
    ensures
        s == bound.marker() + r.0 + r.1,
        r.0.len() > 0,
        forall|i: int| 0 <= i < r.0.len() ==> path_char(#[trigger] r.0[i], word),
        r.1.len() > 0 ==> !path_char(r.1[0], word),
        r.1 == s.skip(s.len() - r.1.len()),
        r.1.len() < s.len(),
{
    let m = bound.marker().len() as int;
    let n = path_len(s, bound, word) as int;
    let t = s.skip(m);
    lemma_run_len(t, |c: char| path_char(c, word));
    let path = t.take(n);
    let behind = s.skip(m + n);
    assert forall|i: int| 0 <= i < path.len() implies path_char(#[trigger] path[i], word) by {
        assert(path[i] == t[i]);
    }
    assert(behind.len() > 0 ==> behind[0] == t[n]);
    assert(s =~= s.take(m) + path + behind);
    (path, behind)
}

/// A reference to one bound is still replaced by the same address after the references to the
/// other bound behind it have been replaced.
#[verifier::spinoff_prover]
proof fn lemma_bounds_do_not_meet(
    path: Seq<char>,
    behind: Seq<char>,
    map: Seq<MemoryMapping>,
    bound: Bound,
    other: Bound,
    word: spec_fn(char) -> bool,
)
    requires
        bound != other,
        path.len() > 0,
        forall|i: int| 0 <= i < path.len() ==> path_char(#[trigger] path[i], word),
        behind.len() > 0 ==> !path_char(behind[0], word) && behind[0] != '$',
    ensures
        ({
            let line = bound.marker() + path + behind;
            let address = hex_text(address_of(map, path, bound));
            &&& substituted(substituted(line, map, bound, word), map, other, word) == address
                + substituted(substituted(behind, map, bound, word), map, other, word)
            &&& substituted(substituted(line, map, other, word), map, bound, word) == address
                + substituted(substituted(behind, map, other, word), map, bound, word)
        }),
{
    let address = hex_text(address_of(map, path, bound));
    lemma_leading_reference(path, behind, map, bound, word);
    lemma_hex_text_chars(address_of(map, path, bound));
    assert(!address.contains('$'));
    lemma_text_before_dollar_stays(
        address,
        substituted(behind, map, bound, word),
        map,
        other,
        word,
    );
    assert forall|i: int| 0 <= i < path.len() implies path[i] != '$' by {
        assert(path_char(path[i], word));
    }
    lemma_other_marker_stays(path, behind, map, bound, other, word);
    let rest = substituted(behind, map, other, word);
    if behind.len() > 0 {
        lemma_reference_starts_with_dollar(behind, other, word);
        assert(rest[0] == behind[0]);
    }
    lemma_leading_reference(path, rest, map, bound, word);
}

/// Where no dollar sign stands directly behind a path character, all references are replaced at
/// once: replacing them again changes nothing.
#[verifier::spinoff_prover]
pub proof fn law_replacing_again_changes_nothing(
    s: Seq<char>,
    map: Seq<MemoryMapping>,
    bound: Bound,
    word: spec_fn(char) -> bool,
)
    requires
        separated(s, word),
    ensures
        substituted(substituted(s, map, bound, word), map, bound, word) == substituted(
            s,
            map,
            bound,
            word,
        ),
    decreases s.len(),
{
    if s.len() == 0 {
    } else if path_len(s, bound, word) == 0 {
        let t = s.skip(1);
        let rest = substituted(t, map, bound, word);
        lemma_separated_end(s, 1, word);
        law_replacing_again_changes_nothing(t, map, bound, word);
        lemma_no_reference_arises(s, map, bound, bound, word);
        let line = seq![s[0]] + rest;
        assert(line.skip(1) == rest);
    } else {
        let (path, behind) = lemma_take_reference_apart(s, bound, word);
        let address = hex_text(address_of(map, path, bound));
        lemma_separated_end(s, s.len() - behind.len(), word);
        law_replacing_again_changes_nothing(behind, map, bound, word);
        lemma_leading_reference(path, behind, map, bound, word);
        lemma_hex_text_chars(address_of(map, path, bound));
        assert(!address.contains('$'));
        lemma_text_before_dollar_stays(
            address,
            substituted(behind, map, bound, word),
            map,
            bound,
            word,
        );
    }
}

/// Where no dollar sign stands directly behind a path character, it makes no difference whether
/// the references to starts or those to ends are replaced first.
#[verifier::spinoff_prover]
pub proof fn law_bounds_commute(
    s: Seq<char>,
    map: Seq<MemoryMapping>,
    bound: Bound,
    other: Bound,
    word: spec_fn(char) -> bool,
)
    requires
        separated(s, word),
        bound != other,
    ensures
        substituted(substituted(s, map, bound, word), map, other, word) == substituted(
            substituted(s, map, other, word),
            map,
            bound,
            word,
        ),
    decreases s.len(),
{
    if s.len() == 0 {
    } else if path_len(s, bound, word) > 0 || path_len(s, other, word) > 0 {
        let (first, second) = if path_len(s, bound, word) > 0 {
            (bound, other)
        } else {
            (other, bound)
        };
        let (path, behind) = lemma_take_reference_apart(s, first, word);
        let n = s.len() - behind.len();
        if behind.len() > 0 && behind[0] == '$' {
            assert(s[n] == behind[0]);
            assert(s[n - 1] == path[path.len() - 1]);
        }
        lemma_bounds_do_not_meet(path, behind, map, first, second, word);
        lemma_separated_end(s, n, word);
        law_bounds_commute(behind, map, bound, other, word);
    } else {
        let t = s.skip(1);
        let one = substituted(t, map, bound, word);
        let two = substituted(t, map, other, word);
        lemma_separated_end(s, 1, word);
        law_bounds_commute(t, map, bound, other, word);
        lemma_no_reference_arises(s, map, bound, other, word);
        lemma_no_reference_arises(s, map, other, bound, word);
        assert((seq![s[0]] + one).skip(1) == one);
        assert((seq![s[0]] + two).skip(1) == two);
    }
}

/// What stands before a dollar sign and what begins with it are replaced each on its own.
#[verifier::spinoff_prover]
proof fn lemma_dollar_splits(
    before: Seq<char>,
    rest: Seq<char>,
    map: Seq<MemoryMapping>,
    bound: Bound,
    word: spec_fn(char) -> bool,
)
    requires
        rest.len() > 0,
        rest[0] == '$',
    ensures
        substituted(before + rest, map, bound, word) == substituted(before, map, bound, word)
            + substituted(rest, map, bound, word),
    decreases before.len(),
{
    let s = before + rest;
    let end = substituted(rest, map, bound, word);
    if before.len() == 0 {
        assert(s == rest);
        assert(substituted(before, map, bound, word) + end == end);
    } else if path_len(before, bound, word) > 0 {
        let (path, behind) = lemma_take_reference_apart(before, bound, word);
        let address = hex_text(address_of(map, path, bound));
        lemma_dollar_splits(behind, rest, map, bound, word);
        assert(s == bound.marker() + path + (behind + rest));
        if behind.len() > 0 {
            assert((behind + rest)[0] == behind[0]);
        } else {
            assert((behind + rest)[0] == rest[0]);
        }
        lemma_leading_reference(path, behind, map, bound, word);
        lemma_leading_reference(path, behind + rest, map, bound, word);
        let middle = substituted(behind, map, bound, word);
        assert(address + (middle + end) == address + middle + end);
    } else {
        lemma_no_reference_reaches_dollar(before, rest, bound, word);
        let tail = before.skip(1);
        lemma_dollar_splits(tail, rest, map, bound, word);
        assert(s.skip(1) == tail + rest);
        let middle = substituted(tail, map, bound, word);
        assert(seq![s[0]] + (middle + end) == seq![before[0]] + middle + end);
    }
}

/// A dollar sign behind a text does not make its beginning a reference.
#[verifier::spinoff_prover]
proof fn lemma_no_reference_reaches_dollar(
    before: Seq<char>,
    rest: Seq<char>,
    bound: Bound,
    word: spec_fn(char) -> bool,
)
    requires
        before.len() > 0,
        rest.len() > 0,
        rest[0] == '$',
        path_len(before, bound, word) == 0,
    ensures
        path_len(before + rest, bound, word) == 0,
{
    let s = before + rest;
    let marker = bound.marker();
    let m = marker.len() as int;
    let p = |c: char| path_char(c, word);
    lemma_markers(bound, word);
    if has_prefix(s, marker) {
        assert forall|i: int| 0 <= i < m implies s[i] == #[trigger] marker[i] by {
            assert(s.take(m)[i] == marker[i]);
        }
        if before.len() < m {
            assert(s[before.len() as int] == rest[0]);
            assert(path_char(marker[before.len() as int], word));
        } else {
            assert(before.take(m) == marker) by {
                assert forall|i: int| 0 <= i < m implies before[i] == marker[i] by {
                    assert(s[i] == before[i]);
                    assert(s[i] == marker[i]);
                }
            }
            if before.len() == m {
                assert(s.skip(m)[0] == rest[0]);
            } else {
                assert(s.skip(m)[0] == before[m]);
                assert(before.skip(m)[0] == before[m]);
            }
            assert(run_len(s.skip(m), p) == 0);
        }
    }
}

/// The class of the characters of a path: letters, digits, `_`, `[`, `]`, `/`, `.`, `-`, and the
/// word characters outside ASCII.
pub proof fn law_path_characters(c: char, word: spec_fn(char) -> bool)
    ensures
        (c as u32) < 128 ==> (path_char(c, word) <==> 'a' <= c <= 'z' || 'A' <= c <= 'Z' || '0' <= c
            <= '9' || c == '_' || c == '[' || c == ']' || c == '/' || c == '.' || c == '-'),
        c as u32 >= 128 ==> (path_char(c, word) <==> word(c)),
{
}

/// Wherever a reference stands in a line, and whatever else the line holds, such as other
/// references or `$rsp`: the reference is replaced by the address of its region, and what stands
/// before and behind it is replaced as if it stood alone.
#[verifier::spinoff_prover]
pub proof fn law_every_reference_is_replaced(
    before: Seq<char>,
    path: Seq<char>,
    behind: Seq<char>,
    map: Seq<MemoryMapping>,
)
    requires
        path.len() > 0,
        forall|i: int|
            0 <= i < path.len() ==> path_char(#[trigger] path[i], |c: char| unicode_word(c)),
        behind.len() > 0 ==> !path_char(behind[0], |c: char| unicode_word(c)),
    ensures
        replaced(
            before + "$HERETEK_MAPPING_START_"@ + path + behind,
            Some(map),
            Bound::Start,
        ) == replaced(before, Some(map), Bound::Start) + hex_text(
            address_of(map, path, Bound::Start),
        ) + replaced(behind, Some(map), Bound::Start),
        replaced(before + "$HERETEK_MAPPING_END_"@ + path + behind, Some(map), Bound::End)
            == replaced(before, Some(map), Bound::End) + hex_text(
            address_of(map, path, Bound::End),
        ) + replaced(behind, Some(map), Bound::End),
{
    lemma_every_reference_is_replaced(before, path, behind, map, Bound::Start);
    lemma_every_reference_is_replaced(before, path, behind, map, Bound::End);
}

#[verifier::spinoff_prover]
proof fn lemma_every_reference_is_replaced(
    before: Seq<char>,
    path: Seq<char>,
    behind: Seq<char>,
    map: Seq<MemoryMapping>,
    bound: Bound,
)
    requires
        path.len() > 0,
        forall|i: int|
            0 <= i < path.len() ==> path_char(#[trigger] path[i], |c: char| unicode_word(c)),
        behind.len() > 0 ==> !path_char(behind[0], |c: char| unicode_word(c)),
    ensures
        replaced(before + bound.marker() + path + behind, Some(map), bound) == replaced(
            before,
            Some(map),
            bound,
        ) + hex_text(address_of(map, path, bound)) + replaced(behind, Some(map), bound),
{
    let word = |c: char| unicode_word(c);
    let reference = bound.marker() + path + behind;
    let address = hex_text(address_of(map, path, bound));
    lemma_markers(bound, word);
    assert(reference[0] == bound.marker()[0]);
    lemma_dollar_splits(before, reference, map, bound, word);
    lemma_leading_reference(path, behind, map, bound, word);
    assert(before + bound.marker() + path + behind == before + reference);
    let one = substituted(before, map, bound, word);
    let two = substituted(behind, map, bound, word);
    assert(one + (address + two) == one + address + two);
}

/// A line in which no marker has a path character behind it stays as it is, and so does every
/// line where there is no memory map.
#[verifier::spinoff_prover]
pub proof fn law_lines_without_references_stay(
    line: Seq<char>,
    map: Option<Seq<MemoryMapping>>,
    bound: Bound,
)
    requires
        ({
            let marker = match bound {
                Bound::Start => "$HERETEK_MAPPING_START_"@,
                Bound::End => "$HERETEK_MAPPING_END_"@,
            };
            map is None || forall|i: int|
                0 <= i && i + marker.len() < line.len() && (#[trigger] line.skip(i)).take(
                    marker.len() as int,
                ) == marker ==> !path_char(line[i + marker.len()], |c: char| unicode_word(c))
        }),
    ensures
        replaced(line, map, bound) == line,
{
    if let Some(regions) = map {
        let word = |c: char| unicode_word(c);
        let marker = bound.marker();
        let m = marker.len() as int;
        assert forall|i: int| 0 <= i < line.len() implies path_len(
            #[trigger] line.skip(i),
            bound,
            word,
        ) == 0 by {
            let s = line.skip(i);
            if has_prefix(s, marker) {
                if i + m < line.len() {
                    assert(s.skip(m)[0] == line[i + m]);
                    assert(!path_char(line[i + m], word));
                } else {
                    assert(s.skip(m).len() == 0);
                }
                assert(run_len(s.skip(m), |c: char| path_char(c, word)) == 0);
            }
        }
        law_other_text_stays(line, regions, bound, word);
    }
}

/// A path stands for the address of the first region that has it, and for zero where none has.
pub proof fn law_addresses(map: Seq<MemoryMapping>, path: Seq<char>, first: int)
    requires
        0 <= first <= map.len(),
        forall|i: int|
            0 <= i < first ==> (#[trigger] map[i]).path is None || map[i].path->0@ != path,
        first < map.len() ==> map[first].path is Some && map[first].path->0@ == path,
    ensures
        address_of(map, path, Bound::Start) == (if first < map.len() {
            map[first].start_address
        } else {
            0
        }),
        address_of(map, path, Bound::End) == (if first < map.len() {
            map[first].end_address
        } else {
            0
        }),
{
    assert forall|i: int| 0 <= i < first implies !(#[trigger] map[i]).has_path(path) by {
        assert(map[i].path is None || map[i].path->0@ != path);
    }
    if first < map.len() {
        law_first_region_counts(map, path, Bound::Start, first);
        law_first_region_counts(map, path, Bound::End, first);
    } else {
        law_unknown_path_is_zero(map, path, Bound::Start);
        law_unknown_path_is_zero(map, path, Bound::End);
    }
}

/// A memory map is seen with all of its regions, in order.
pub proof fn law_map_view(map: Option<Vec<MemoryMapping>>)
    ensures
        map is None <==> map_view(map) is None,
        map matches Some(m) ==> map_view(map) == Some(m@),
{
}

} // verus!
