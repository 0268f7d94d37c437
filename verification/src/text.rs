//! Text as sequences of characters.
//!
//! The extraction rules of this crate are stated over `Seq<char>`. The
//! functions here are the executable counterparts on `Vec<char>`, each proved
//! to compute the sequence that its specification names.

use vstd::prelude::*;

verus! {

/// Whether `c` has the Unicode property `White_Space`, as `char::is_whitespace`
/// reports it. The property is a table of the Unicode character database; it
/// is named here and not written out.
pub uninterp spec fn white_space(c: char) -> bool;

/// `char::is_whitespace` tells whether the character has the property
/// `White_Space`. The contract says no more than that the answer depends on
/// the character alone.
pub assume_specification[ char::is_whitespace ](c: char) -> (white: bool)
    ensures
        white == white_space(c),
;

/// `String::push` appends one character to the end of the string.
pub assume_specification[ String::push ](s: &mut String, c: char)
    ensures
        final(s)@ == old(s)@.push(c),
;

/// The characters of `s`, in order.
pub fn to_chars(s: &str) -> (chars: Vec<char>)
    ensures
        chars@ == s@,
{
    let mut chars: Vec<char> = Vec::new();
    for c in it: s.chars()
        invariant
            it.seq() == s@,
            chars@ == s@.take(it.index()),
    {
        chars.push(c);
    }
    chars
}

/// The string made of `chars`, in order.
pub fn from_chars(chars: &Vec<char>) -> (s: String)
    ensures
        s@ == chars@,
{
    let mut s = String::new();
    let mut i: usize = 0;
    while i < chars.len()
        invariant
            i <= chars.len(),
            s@ == chars@.take(i as int),
        decreases chars.len() - i,
    {
        s.push(chars[i]);
        i += 1;
    }
    s
}

/// `pattern` stands in `s` at position `at`.
pub open spec fn occurs_at(s: Seq<char>, pattern: Seq<char>, at: int) -> bool {
    &&& 0 <= at
    &&& at + pattern.len() <= s.len()
    &&& s.subrange(at, at + pattern.len()) == pattern
}

/// `pattern` stands somewhere in `s`.
pub open spec fn has_substring(s: Seq<char>, pattern: Seq<char>) -> bool {
    exists|at: int| occurs_at(s, pattern, at)
}

/// Tells whether `pattern` stands in `s` at position `at`.
pub fn matches_at(s: &Vec<char>, pattern: &Vec<char>, at: usize) -> (found: bool)
    ensures
        found == occurs_at(s@, pattern@, at as int),
{
    if at > s.len() || pattern.len() > s.len() - at {
        return false;
    }
    let mut k: usize = 0;
    while k < pattern.len()
        invariant
            k <= pattern.len(),
            at + pattern.len() <= s.len(),
            forall|j: int| 0 <= j < k ==> s@[at + j] == pattern@[j],
        decreases pattern.len() - k,
    {
        if s[at + k] != pattern[k] {
            assert(s@.subrange(at as int, at + pattern.len())[k as int] == s@[at + k]);
            return false;
        }
        k += 1;
    }
    assert(s@.subrange(at as int, at + pattern.len()) =~= pattern@);
    true
}

/// `pattern` stands in `s` at position `at` and nowhere before.
pub open spec fn is_first_occurrence(s: Seq<char>, pattern: Seq<char>, at: int) -> bool {
    &&& occurs_at(s, pattern, at)
    &&& forall|j: int| 0 <= j < at ==> !occurs_at(s, pattern, j)
}

/// Finds the first place at which `pattern` stands in `s`.
pub fn find(s: &Vec<char>, pattern: &Vec<char>) -> (found: Option<usize>)
    ensures
        match found {
            Some(at) => is_first_occurrence(s@, pattern@, at as int),
            None => forall|j: int| !occurs_at(s@, pattern@, j),
        },
{
    if pattern.len() > s.len() {
        return None;
    }
    let last: usize = s.len() - pattern.len();
    let mut at: usize = 0;
    loop
        invariant
            last == s.len() - pattern.len(),
            at <= last,
            forall|j: int| 0 <= j < at ==> !occurs_at(s@, pattern@, j),
        decreases last - at,
    {
        if matches_at(s, pattern, at) {
            return Some(at);
        }
        if at == last {
            return None;
        }
        at += 1;
    }
}

/// Tells whether `pattern` stands somewhere in `s`.
pub fn contains(s: &Vec<char>, pattern: &Vec<char>) -> (found: bool)
    ensures
        found == has_substring(s@, pattern@),
{
    find(s, pattern).is_some()
}

/// Tells whether the text `pattern` stands somewhere in the text `s`.
pub fn str_contains(s: &str, pattern: &str) -> (found: bool)
    ensures
        found == has_substring(s@, pattern@),
{
    let chars = to_chars(s);
    let wanted = to_chars(pattern);
    contains(&chars, &wanted)
}

/// The characters of `s` from position `from` up to, not including, `to`.
pub(crate) fn slice(s: &Vec<char>, from: usize, to: usize) -> (part: Vec<char>)
    requires
        from <= to <= s.len(),
    ensures
        part@ == s@.subrange(from as int, to as int),
{
    let mut part: Vec<char> = Vec::new();
    let mut i: usize = from;
    while i < to
        invariant
            from <= i <= to <= s.len(),
            part@ == s@.subrange(from as int, i as int),
        decreases to - i,
    {
        part.push(s[i]);
        i += 1;
    }
    part
}

/// Appends the characters of `tail` to `out`.
pub fn append(out: &mut Vec<char>, tail: &Vec<char>)
    ensures
        final(out)@ == old(out)@ + tail@,
{
    let mut i: usize = 0;
    while i < tail.len()
        invariant
            i <= tail.len(),
            out@ == old(out)@ + tail@.take(i as int),
        decreases tail.len() - i,
    {
        out.push(tail[i]);
        i += 1;
    }
}

/// `s` without its longest prefix of characters that satisfy `skipped`.
pub open spec fn skip_while(s: Seq<char>, skipped: spec_fn(char) -> bool) -> Seq<char>
    decreases s.len(),
{
    if s.len() > 0 && skipped(s[0]) {
        skip_while(s.drop_first(), skipped)
    } else {
        s
    }
}

/// `s` without its longest suffix of characters that satisfy `dropped`.
pub open spec fn drop_while(s: Seq<char>, dropped: spec_fn(char) -> bool) -> Seq<char>
    decreases s.len(),
{
    if s.len() > 0 && dropped(s.last()) {
        drop_while(s.drop_last(), dropped)
    } else {
        s
    }
}

/// The predicate that holds of white space.
pub open spec fn is_white() -> spec_fn(char) -> bool {
    |c: char| white_space(c)
}

/// The predicate that holds of the character `marker` alone.
pub open spec fn is_char(marker: char) -> spec_fn(char) -> bool {
    |c: char| c == marker
}

/// `s` without leading and trailing white space.
pub open spec fn trimmed(s: Seq<char>) -> Seq<char> {
    drop_while(skip_while(s, is_white()), is_white())
}

/// `s` without its leading run of the character `marker`.
pub open spec fn without_leading(s: Seq<char>, marker: char) -> Seq<char> {
    skip_while(s, is_char(marker))
}

/// What `skip_while` leaves begins at the first character that does not
/// satisfy the predicate.
proof fn lemma_skip_while(s: Seq<char>, skipped: spec_fn(char) -> bool, from: int)
    requires
        0 <= from <= s.len(),
        forall|j: int| 0 <= j < from ==> skipped(s[j]),
        from == s.len() || !skipped(s[from]),
    ensures
        skip_while(s, skipped) == s.skip(from),
    decreases from,
{
    if from == 0 {
        assert(s.skip(0) =~= s);
    } else {
        lemma_skip_while(s.drop_first(), skipped, from - 1);
        assert(s.drop_first().skip(from - 1) =~= s.skip(from));
    }
}

/// What `drop_while` leaves ends behind the last character that does not
/// satisfy the predicate.
proof fn lemma_drop_while(s: Seq<char>, dropped: spec_fn(char) -> bool, to: int)
    requires
        0 <= to <= s.len(),
        forall|j: int| to <= j < s.len() ==> dropped(s[j]),
        to == 0 || !dropped(s[to - 1]),
    ensures
        drop_while(s, dropped) == s.take(to),
    decreases s.len() - to,
{
    if to == s.len() {
        assert(s.take(to) =~= s);
    } else {
        lemma_drop_while(s.drop_last(), dropped, to);
        assert(s.drop_last().take(to) =~= s.take(to));
    }
}

/// Removes leading and trailing white space.
pub fn trim(s: &Vec<char>) -> (out: Vec<char>)
    ensures
        out@ == trimmed(s@),
{
    let mut from: usize = 0;
    while from < s.len() && s[from].is_whitespace()
        invariant
            from <= s.len(),
            forall|j: int| 0 <= j < from ==> white_space(s@[j]),
        decreases s.len() - from,
    {
        from += 1;
    }
    let mut to: usize = s.len();
    while to > from && s[to - 1].is_whitespace()
        invariant
            from <= to <= s.len(),
            forall|j: int| to <= j < s.len() ==> white_space(s@[j]),
        decreases to,
    {
        to -= 1;
    }
    proof {
        let white = is_white();
        lemma_skip_while(s@, white, from as int);
        let rest = s@.skip(from as int);
        assert forall|j: int| to - from <= j < rest.len() implies white(rest[j]) by {
            assert(rest[j] == s@[from + j]);
        }
        lemma_drop_while(rest, white, to - from);
        assert(rest.take(to - from) =~= s@.subrange(from as int, to as int));
    }
    slice(s, from, to)
}

/// Removes the leading run of the character `marker`.
pub fn strip_leading(s: &Vec<char>, marker: char) -> (out: Vec<char>)
    ensures
        out@ == without_leading(s@, marker),
{
    let mut from: usize = 0;
    while from < s.len() && s[from] == marker
        invariant
            from <= s.len(),
            forall|j: int| 0 <= j < from ==> s@[j] == marker,
        decreases s.len() - from,
    {
        from += 1;
    }
    proof {
        lemma_skip_while(s@, is_char(marker), from as int);
        assert(s@.skip(from as int) =~= s@.subrange(from as int, s@.len() as int));
    }
    slice(s, from, s.len())
}

/// The position of the last `c` in `s`, or -1 where `s` holds none.
pub open spec fn last_index_of(s: Seq<char>, c: char) -> int
    decreases s.len(),
{
    if s.len() == 0 {
        -1
    } else if s.last() == c {
        s.len() - 1
    } else {
        last_index_of(s.drop_last(), c)
    }
}

/// `last_index_of` is the position of a `c` behind which no `c` follows.
pub proof fn lemma_last_index_of(s: Seq<char>, c: char)
    ensures
        -1 <= last_index_of(s, c) < s.len(),
        last_index_of(s, c) >= 0 ==> s[last_index_of(s, c)] == c,
        forall|j: int| last_index_of(s, c) < j < s.len() ==> s[j] != c,
    decreases s.len(),
{
    if s.len() > 0 && s.last() != c {
        let front = s.drop_last();
        lemma_last_index_of(front, c);
        assert forall|j: int| last_index_of(s, c) < j < s.len() implies s[j] != c by {
            if j < front.len() {
                assert(front[j] == s[j]);
            }
        }
    }
}

/// A position that holds `c` and has no `c` behind it is `last_index_of`.
proof fn lemma_last_index_of_is(s: Seq<char>, c: char, at: int)
    requires
        -1 <= at < s.len(),
        at >= 0 ==> s[at] == c,
        forall|j: int| at < j < s.len() ==> s[j] != c,
    ensures
        last_index_of(s, c) == at,
    decreases s.len(),
{
    if s.len() > 0 && s.last() != c {
        lemma_last_index_of_is(s.drop_last(), c, at);
    }
}

/// Finds the last `c` among the first `end` characters of `s`.
pub(crate) fn find_last(s: &Vec<char>, c: char, end: usize) -> (found: Option<usize>)
    requires
        end <= s.len(),
    ensures
        match found {
            Some(at) => at == last_index_of(s@.take(end as int), c),
            None => last_index_of(s@.take(end as int), c) == -1,
        },
{
    let mut i: usize = end;
    while i > 0
        invariant
            i <= end <= s.len(),
            forall|j: int| i <= j < end ==> s@[j] != c,
        decreases i,
    {
        if s[i - 1] == c {
            proof {
                lemma_last_index_of_is(s@.take(end as int), c, i - 1);
            }
            return Some(i - 1);
        }
        i -= 1;
    }
    proof {
        lemma_last_index_of_is(s@.take(end as int), c, -1);
    }
    None
}

/// What follows the last `c` in `s`; all of `s` where it holds no `c`.
pub open spec fn after_last(s: Seq<char>, c: char) -> Seq<char> {
    s.skip(last_index_of(s, c) + 1)
}

/// Copies what follows the last `c` in `s`.
pub fn tail_after_last(s: &Vec<char>, c: char) -> (tail: Vec<char>)
    ensures
        tail@ == after_last(s@, c),
{
    proof {
        assert(s@.take(s@.len() as int) =~= s@);
        lemma_last_index_of(s@, c);
    }
    let from: usize = match find_last(s, c, s.len()) {
        Some(at) => at + 1,
        None => 0,
    };
    assert(s@.skip(from as int) =~= s@.subrange(from as int, s@.len() as int));
    slice(s, from, s.len())
}

/// `s` with every `from` replaced by `to`.
pub open spec fn with_replaced(s: Seq<char>, from: char, to: char) -> Seq<char> {
    s.map_values(|c: char| if c == from { to } else { c })
}

/// Replaces every `from` in `s` by `to`.
pub fn replace_char(s: &Vec<char>, from: char, to: char) -> (out: Vec<char>)
    ensures
        out@ == with_replaced(s@, from, to),
{
    let mut out: Vec<char> = Vec::new();
    let mut i: usize = 0;
    while i < s.len()
        invariant
            i <= s.len(),
            out@ == with_replaced(s@.take(i as int), from, to),
        decreases s.len() - i,
    {
        let c: char = s[i];
        out.push(if c == from { to } else { c });
        assert(out@ =~= with_replaced(s@.take(i + 1), from, to));
        i += 1;
    }
    assert(s@.take(s@.len() as int) =~= s@);
    out
}

/// `s` with each pair of adjacent `c`, taken from the left, replaced by one.
pub open spec fn with_pairs_collapsed(s: Seq<char>, c: char) -> Seq<char>
    decreases s.len(),
{
    if s.len() >= 2 && s[0] == c && s[1] == c {
        seq![c] + with_pairs_collapsed(s.skip(2), c)
    } else if s.len() >= 1 {
        seq![s[0]] + with_pairs_collapsed(s.skip(1), c)
    } else {
        s
    }
}

/// Replaces each pair of adjacent `c` in `s`, taken from the left, by one.
pub fn collapse_pairs(s: &Vec<char>, c: char) -> (out: Vec<char>)
    ensures
        out@ == with_pairs_collapsed(s@, c),
{
    let mut out: Vec<char> = Vec::new();
    let mut i: usize = 0;
    assert(s@.skip(0) =~= s@);
    while i < s.len()
        invariant
            i <= s.len(),
            out@ + with_pairs_collapsed(s@.skip(i as int), c) == with_pairs_collapsed(s@, c),
        decreases s.len() - i,
    {
        let ghost rest = s@.skip(i as int);
        let ghost done = out@;
        if s[i] == c && i + 1 < s.len() && s[i + 1] == c {
            out.push(c);
            assert(rest.skip(2) =~= s@.skip(i + 2));
            assert(out@ + with_pairs_collapsed(s@.skip(i + 2), c) =~= done + (seq![c]
                + with_pairs_collapsed(rest.skip(2), c)));
            i += 2;
        } else {
            out.push(s[i]);
            assert(rest.skip(1) =~= s@.skip(i + 1));
            assert(out@ + with_pairs_collapsed(s@.skip(i + 1), c) =~= done + (seq![rest[0]]
                + with_pairs_collapsed(rest.skip(1), c)));
            i += 1;
        }
    }
    assert(out@ + Seq::<char>::empty() =~= out@);
    out
}

/// An optional text as an optional sequence of characters.
pub open spec fn text_view(text: Option<String>) -> Option<Seq<char>> {
    match text {
        Some(s) => Some(s@),
        None => None,
    }
}

/// The views of a list of texts, in order.
pub open spec fn texts(list: Seq<String>) -> Seq<Seq<char>> {
    list.map_values(|s: String| s@)
}

/// The character that writes the digit `d`.
pub open spec fn digit_of(d: int) -> char {
    (0x30 + d) as char
}

/// The number `n` written in decimal digits.
pub open spec fn decimal_of(n: nat) -> Seq<char>
    decreases n,
{
    if n < 10 {
        seq![digit_of(n as int)]
    } else {
        decimal_of(n / 10).push(digit_of((n % 10) as int))
    }
}

/// Appends the decimal digits of `n` to `out`.
pub fn push_decimal(out: &mut Vec<char>, n: u64)
    ensures
        final(out)@ == old(out)@ + decimal_of(n as nat),
    decreases n,
{
    if n >= 10 {
        push_decimal(out, n / 10);
    }
    let d: u8 = (n % 10) as u8;
    out.push((0x30u8 + d) as char);
    proof {
        if n < 10 {
            assert(out@ =~= old(out)@ + seq![digit_of(n as int)]);
        } else {
            assert(out@ =~= old(out)@ + decimal_of((n / 10) as nat).push(
                digit_of((n % 10) as int),
            ));
        }
    }
}

} // verus!
