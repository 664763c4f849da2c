//! Character and string operations on which the monitor's parsers rest.
use vstd::prelude::*;

verus! {

/// Unicode `White_Space` property (PropList.txt), which is what
/// `char::is_whitespace` and `str::trim` go by.
pub open spec fn is_white_space(c: char) -> bool {
    let u = c as u32;
    ||| 0x09 <= u <= 0x0D
    ||| u == 0x20
    ||| u == 0x85
    ||| u == 0xA0
    ||| u == 0x1680
    ||| 0x2000 <= u <= 0x200A
    ||| u == 0x2028
    ||| u == 0x2029
    ||| u == 0x202F
    ||| u == 0x205F
    ||| u == 0x3000
}

/// Whether `c` has the Unicode `White_Space` property.
pub fn is_whitespace(c: char) -> (b: bool)
    ensures
        b == is_white_space(c),
{
    let u = c as u32;
    (0x09 <= u && u <= 0x0D) || u == 0x20 || u == 0x85 || u == 0xA0 || u == 0x1680 || (0x2000
        <= u && u <= 0x200A) || u == 0x2028 || u == 0x2029 || u == 0x202F || u == 0x205F || u
        == 0x3000
}

/// The characters of `s`, in order.
pub fn to_chars(s: &str) -> (r: Vec<char>)
    ensures
        r@ == s@,
{
    let mut r: Vec<char> = Vec::new();
    let mut it = s.chars();
    loop
        invariant
            r@ + vstd::std_specs::iter::IteratorSpec::remaining(&it) == s@,
            vstd::std_specs::iter::IteratorSpec::decrease(&it) is Some,
        decreases vstd::std_specs::iter::IteratorSpec::decrease(&it)->0,
    {
        match it.next() {
            Some(c) => {
                r.push(c);
            },
            None => {
                return r;
            },
        }
    }
}

} // verus!

verus! {

/// `s` without its leading white space.
pub open spec fn trim_start_spec(s: Seq<char>) -> Seq<char>
    decreases s.len(),
{
    if s.len() > 0 && is_white_space(s[0]) {
        trim_start_spec(s.drop_first())
    } else {
        s
    }
}

/// `s` without its trailing white space.
pub open spec fn trim_end_spec(s: Seq<char>) -> Seq<char>
    decreases s.len(),
{
    if s.len() > 0 && is_white_space(s.last()) {
        trim_end_spec(s.drop_last())
    } else {
        s
    }
}

/// `s` without leading and trailing white space, as `str::trim` gives it.
pub open spec fn trim_spec(s: Seq<char>) -> Seq<char> {
    trim_end_spec(trim_start_spec(s))
}

/// The pieces of `s` between occurrences of `sep`, as `str::split` with a
/// one-character pattern gives them: `n` separators give `n + 1` pieces.
pub open spec fn split_spec(s: Seq<char>, sep: char) -> Seq<Seq<char>>
    decreases s.len(),
{
    if s.len() == 0 {
        seq![Seq::<char>::empty()]
    } else {
        let prev = split_spec(s.drop_last(), sep);
        if s.last() == sep {
            prev.push(Seq::<char>::empty())
        } else {
            prev.update(prev.len() - 1, prev.last().push(s.last()))
        }
    }
}

/// Splitting always yields at least one piece.
pub proof fn lemma_split_nonempty(s: Seq<char>, sep: char)
    ensures
        split_spec(s, sep).len() >= 1,
    decreases s.len(),
{
    if s.len() > 0 {
        lemma_split_nonempty(s.drop_last(), sep);
    }
}

/// Bounds `(a, b)` such that `chars[a..b]` is `chars` trimmed.
fn trim_bounds(chars: &Vec<char>) -> (r: (usize, usize))
    ensures
        r.0 <= r.1 <= chars.len(),
        trim_spec(chars@) == chars@.subrange(r.0 as int, r.1 as int),
{
    let len = chars.len();
    let mut i: usize = 0;
    assert(chars@.subrange(0, len as int) =~= chars@);
    while i < len && is_whitespace(chars[i])
        invariant
            i <= len == chars.len(),
            trim_start_spec(chars@) == trim_start_spec(chars@.subrange(i as int, len as int)),
        decreases len - i,
    {
        assert(chars@.subrange(i as int, len as int).drop_first() =~= chars@.subrange(
            i + 1,
            len as int,
        ));
        i = i + 1;
    }
    let mut j: usize = len;
    while j > i && is_whitespace(chars[j - 1])
        invariant
            i <= j <= len == chars.len(),
            trim_end_spec(chars@.subrange(i as int, len as int)) == trim_end_spec(
                chars@.subrange(i as int, j as int),
            ),
        decreases j - i,
    {
        assert(chars@.subrange(i as int, j as int).drop_last() =~= chars@.subrange(
            i as int,
            j - 1,
        ));
        j = j - 1;
    }
    (i, j)
}

/// The pieces of `line`, trimmed, between occurrences of `sep`:
/// `line.trim().split(sep)` collected.
pub fn trimmed_fields(line: &str, sep: char) -> (parts: Vec<String>)
    ensures
        parts@.map_values(|p: String| p@) == split_spec(trim_spec(line@), sep),
{
    let chars = to_chars(line);
    let (a, b) = trim_bounds(&chars);
    let mut parts: Vec<String> = Vec::new();
    let mut cur: usize = a;
    let mut k: usize = a;
    assert(chars@.subrange(a as int, a as int) =~= Seq::<char>::empty());
    assert(parts@.map_values(|p: String| p@) + seq![chars@.subrange(cur as int, k as int)]
        =~= split_spec(chars@.subrange(a as int, k as int), sep));
    while k < b
        invariant
            a <= cur <= k <= b <= chars.len(),
            chars@ == line@,
            parts@.map_values(|p: String| p@) + seq![chars@.subrange(cur as int, k as int)]
                == split_spec(chars@.subrange(a as int, k as int), sep),
        decreases b - k,
    {
        let ghost before = parts@.map_values(|p: String| p@);
        assert(chars@.subrange(a as int, k + 1).drop_last() =~= chars@.subrange(a as int, k as int));
        if chars[k] == sep {
            let ghost prev = split_spec(chars@.subrange(a as int, k as int), sep);
            let ghost whole = chars@.subrange(a as int, k + 1);
            assert(whole.last() == chars@[k as int]);
            assert(split_spec(whole, sep) == prev.push(Seq::<char>::empty()));
            assert(chars@.subrange(k + 1, k + 1) =~= Seq::<char>::empty());
            let piece = line.substring_char(cur, k).to_owned();
            parts.push(piece);
            assert(parts@.map_values(|p: String| p@) =~= before.push(
                chars@.subrange(cur as int, k as int),
            ));
            k = k + 1;
            cur = k;
            assert(parts@.map_values(|p: String| p@) + seq![chars@.subrange(cur as int, k as int)]
                =~= split_spec(chars@.subrange(a as int, k as int), sep));
        } else {
            let ghost prev = split_spec(chars@.subrange(a as int, k as int), sep);
            let ghost whole = chars@.subrange(a as int, k + 1);
            assert(whole.last() == chars@[k as int]);
            assert(split_spec(whole, sep) == prev.update(prev.len() - 1, prev.last().push(
                chars@[k as int],
            )));
            assert(chars@.subrange(cur as int, k + 1) =~= chars@.subrange(
                cur as int,
                k as int,
            ).push(chars@[k as int]));
            k = k + 1;
            assert(parts@.map_values(|p: String| p@) + seq![chars@.subrange(cur as int, k as int)]
                =~= split_spec(chars@.subrange(a as int, k as int), sep));
        }
    }
    let piece = line.substring_char(cur, b).to_owned();
    let ghost before = parts@.map_values(|p: String| p@);
    parts.push(piece);
    assert(parts@.map_values(|p: String| p@) =~= before.push(chars@.subrange(cur as int, b as int)));
    parts
}

} // verus!

verus! {

/// Whether `needle` occurs in `hay` as a contiguous run of characters.
pub open spec fn contains_seq(hay: Seq<char>, needle: Seq<char>) -> bool {
    exists|i: int|
        0 <= i && i + needle.len() <= hay.len() && #[trigger] hay.subrange(i, i + needle.len())
            == needle
}

/// Whether `needle` occurs in `hay` at position `at`.
fn occurs_at(hay: &Vec<char>, needle: &Vec<char>, at: usize) -> (b: bool)
    requires
        at + needle.len() <= hay.len(),
    ensures
        b == (hay@.subrange(at as int, at + needle.len()) == needle@),
{
    let m = needle.len();
    let mut j: usize = 0;
    while j < m
        invariant
            j <= m == needle.len(),
            at + m <= hay.len(),
            forall|k: int| 0 <= k < j ==> hay@[at + k] == needle@[k],
        decreases m - j,
    {
        if hay[at + j] != needle[j] {
            assert(hay@.subrange(at as int, at + m)[j as int] != needle@[j as int]);
            return false;
        }
        j = j + 1;
    }
    assert(hay@.subrange(at as int, at + m) =~= needle@);
    true
}

/// Whether `needle` occurs in `hay`: `hay.contains(needle)` for string patterns.
pub fn contains_str(hay: &str, needle: &str) -> (b: bool)
    ensures
        b == contains_seq(hay@, needle@),
{
    let h = to_chars(hay);
    let n = to_chars(needle);
    if n.len() > h.len() {
        return false;
    }
    let last = h.len() - n.len();
    let mut i: usize = 0;
    loop
        invariant
            h@ == hay@,
            n@ == needle@,
            last + n.len() == h.len(),
            i <= last,
            forall|k: int| 0 <= k < i ==> #[trigger] hay@.subrange(k, k + needle@.len()) != needle@,
        ensures
            forall|k: int|
                0 <= k <= last ==> #[trigger] hay@.subrange(k, k + needle@.len()) != needle@,
        decreases last - i,
    {
        if occurs_at(&h, &n, i) {
            return true;
        }
        if i == last {
            break;
        }
        i = i + 1;
    }
    assert forall|k: int|
        0 <= k && k + needle@.len() <= hay@.len() implies #[trigger] hay@.subrange(
        k,
        k + needle@.len(),
    ) != needle@ by {
        assert(k <= last);
    }
    false
}

} // verus!

verus! {

/// A text without the separator is one piece.
pub proof fn lemma_split_without_separator(s: Seq<char>, sep: char)
    requires
        !s.contains(sep),
    ensures
        split_spec(s, sep) == seq![s],
    decreases s.len(),
{
    if s.len() > 0 {
        let init = s.drop_last();
        assert(!init.contains(sep)) by {
            if init.contains(sep) {
                let k = choose|k: int| 0 <= k < init.len() && init[k] == sep;
                assert(s[k] == sep);
            }
        }
        lemma_split_without_separator(init, sep);
        assert(s[s.len() - 1] != sep);
        assert(init.push(s.last()) =~= s);
    } else {
        assert(s =~= Seq::<char>::empty());
    }
}

/// Splitting at a separator splits the text into the pieces before it and
/// the pieces after it.
pub proof fn lemma_split_at_separator(a: Seq<char>, b: Seq<char>, sep: char)
    ensures
        split_spec(a + seq![sep] + b, sep) == split_spec(a, sep) + split_spec(b, sep),
    decreases b.len(),
{
    let whole = a + seq![sep] + b;
    if b.len() == 0 {
        assert(whole.drop_last() =~= a);
        assert(split_spec(b, sep) =~= seq![Seq::<char>::empty()]);
        assert(split_spec(whole, sep) =~= split_spec(a, sep) + split_spec(b, sep));
    } else {
        let init = b.drop_last();
        lemma_split_at_separator(a, init, sep);
        lemma_split_nonempty(init, sep);
        lemma_split_nonempty(a, sep);
        assert(whole.drop_last() =~= a + seq![sep] + init);
        assert(whole.last() == b.last());
        assert(split_spec(whole, sep) =~= split_spec(a, sep) + split_spec(b, sep));
    }
}

/// A text that neither starts nor ends with white space is its own trim.
pub proof fn lemma_trim_untouched(s: Seq<char>)
    requires
        s.len() > 0 ==> !is_white_space(s[0]) && !is_white_space(s.last()),
    ensures
        trim_spec(s) == s,
{
}

} // verus!

verus! {

/// Trimming removes white space only at the ends: the trimmed text is a
/// stretch `s[a..b]` of `s`, everything before `a` and after `b` is white
/// space, and the trimmed text neither starts nor ends with white space.
pub proof fn law_trim_removes_only_outer_white_space(s: Seq<char>)
    ensures
        exists|a: int, b: int|
            #![trigger s.subrange(a, b)]
            {
                &&& 0 <= a <= b <= s.len()
                &&& trim_spec(s) == s.subrange(a, b)
                &&& forall|k: int| 0 <= k < a ==> is_white_space(#[trigger] s[k])
                &&& forall|k: int| b <= k < s.len() ==> is_white_space(#[trigger] s[k])
            },
        trim_spec(s).len() > 0 ==> !is_white_space(trim_spec(s)[0]) && !is_white_space(
            trim_spec(s).last(),
        ),
{
    let (a, t) = lemma_trim_start(s);
    let b = lemma_trim_end(t);
    assert(trim_spec(s) == s.subrange(a, a + b));
    assert forall|k: int| a + b <= k < s.len() implies is_white_space(#[trigger] s[k]) by {
        assert(s[k] == t[k - a]);
    }
}

/// `trim_start_spec(s)` is `s` from the first character that is not white
/// space.
proof fn lemma_trim_start(s: Seq<char>) -> (r: (int, Seq<char>))
    ensures
        0 <= r.0 <= s.len(),
        r.1 == s.skip(r.0),
        trim_start_spec(s) == r.1,
        forall|k: int| 0 <= k < r.0 ==> is_white_space(#[trigger] s[k]),
        r.1.len() > 0 ==> !is_white_space(r.1[0]),
    decreases s.len(),
{
    if s.len() > 0 && is_white_space(s[0]) {
        let (a, t) = lemma_trim_start(s.drop_first());
        assert(s.drop_first().skip(a) =~= s.skip(a + 1));
        assert forall|k: int| 0 <= k < a + 1 implies is_white_space(#[trigger] s[k]) by {
            if k > 0 {
                assert(s[k] == s.drop_first()[k - 1]);
            }
        }
        (a + 1, t)
    } else {
        assert(s.skip(0) =~= s);
        (0, s)
    }
}

/// `trim_end_spec(s)` is `s` up to the last character that is not white
/// space.
proof fn lemma_trim_end(s: Seq<char>) -> (b: int)
    ensures
        0 <= b <= s.len(),
        trim_end_spec(s) == s.take(b),
        forall|k: int| b <= k < s.len() ==> is_white_space(#[trigger] s[k]),
        b > 0 ==> !is_white_space(s[b - 1]),
    decreases s.len(),
{
    if s.len() > 0 && is_white_space(s.last()) {
        let b = lemma_trim_end(s.drop_last());
        assert(s.drop_last().take(b) =~= s.take(b));
        assert forall|k: int| b <= k < s.len() implies is_white_space(#[trigger] s[k]) by {
            if k < s.len() - 1 {
                assert(s[k] == s.drop_last()[k]);
            }
        }
        b
    } else {
        assert(s.take(s.len() as int) =~= s);
        s.len() as int
    }
}

/// The pieces joined back with the separator between them.
pub open spec fn join_pieces(pieces: Seq<Seq<char>>, sep: char) -> Seq<char>
    decreases pieces.len(),
{
    if pieces.len() <= 1 {
        if pieces.len() == 1 {
            pieces[0]
        } else {
            Seq::empty()
        }
    } else {
        join_pieces(pieces.drop_last(), sep) + seq![sep] + pieces.last()
    }
}

/// Splitting loses nothing and adds nothing: no piece holds the separator,
/// and joining the pieces with it gives back the text.
pub proof fn law_split_pieces_rebuild_the_text(s: Seq<char>, sep: char)
    ensures
        split_spec(s, sep).len() >= 1,
        forall|k: int|
            0 <= k < split_spec(s, sep).len() ==> !(#[trigger] split_spec(s, sep)[k]).contains(
                sep,
            ),
        join_pieces(split_spec(s, sep), sep) == s,
    decreases s.len(),
{
    lemma_split_nonempty(s, sep);
    if s.len() > 0 {
        let init = s.drop_last();
        law_split_pieces_rebuild_the_text(init, sep);
        lemma_split_nonempty(init, sep);
        let prev = split_spec(init, sep);
        let c = s.last();
        if c == sep {
            assert(split_spec(s, sep).drop_last() =~= prev);
            assert(s =~= init + seq![sep] + Seq::<char>::empty());
            assert forall|k: int|
                0 <= k < split_spec(s, sep).len() implies !(#[trigger] split_spec(
                s,
                sep,
            )[k]).contains(sep) by {
                if k < prev.len() {
                    assert(split_spec(s, sep)[k] == prev[k]);
                }
            }
        } else {
            let last = prev.last().push(c);
            let cur = split_spec(s, sep);
            assert(cur == prev.update(prev.len() - 1, last));
            assert forall|k: int| 0 <= k < cur.len() implies !(#[trigger] cur[k]).contains(sep) by {
                if k == prev.len() - 1 {
                    assert(!prev[k].contains(sep));
                    if last.contains(sep) {
                        let j = choose|j: int| 0 <= j < last.len() && last[j] == sep;
                        if j < prev[k].len() {
                            assert(prev[k][j] == sep);
                        }
                    }
                } else {
                    assert(cur[k] == prev[k]);
                }
            }
            if prev.len() == 1 {
                assert(s =~= prev[0].push(c));
            } else {
                assert(cur.drop_last() =~= prev.drop_last());
                assert(prev.drop_last() + seq![prev.last()] =~= prev);
                assert(join_pieces(prev, sep) == join_pieces(prev.drop_last(), sep) + seq![sep]
                    + prev.last());
                assert(join_pieces(cur, sep) =~= join_pieces(prev, sep).push(c));
                assert(s =~= init.push(c));
            }
        }
    } else {
        assert(split_spec(s, sep)[0] =~= Seq::<char>::empty());
        assert(s =~= Seq::<char>::empty());
    }
}

/// Any occurrence is found: a text with `needle` inside contains it.
pub proof fn law_contains_finds_any_occurrence(before: Seq<char>, needle: Seq<char>, after: Seq<char>)
    ensures
        contains_seq(before + needle + after, needle),
{
    let hay = before + needle + after;
    assert(hay.subrange(before.len() as int, before.len() + needle.len() as int) =~= needle);
}

/// Only occurrences are found: a text that contains `needle` is some text,
/// then `needle`, then some text.
pub proof fn law_contains_only_occurrences(hay: Seq<char>, needle: Seq<char>)
    requires
        contains_seq(hay, needle),
    ensures
        exists|before: Seq<char>, after: Seq<char>| #[trigger] (before + needle + after) == hay,
{
    let i = choose|i: int|
        0 <= i && i + needle.len() <= hay.len() && #[trigger] hay.subrange(i, i + needle.len())
            == needle;
    let before = hay.subrange(0, i);
    let after = hay.subrange(i + needle.len(), hay.len() as int);
    assert(before + needle + after =~= hay);
}

} // verus!
