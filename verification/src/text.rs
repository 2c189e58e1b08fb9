//! Text as sequences of characters: searching, cutting, splitting, replacing and joining.

use vstd::prelude::*;
use vstd::string::*;
use vstd::utf8::*;

verus! {

/// `String::push` appends one character.
pub assume_specification[ String::push ](s: &mut String, c: char)
    ensures
        final(s)@ == old(s)@.push(c),
;

// ---------------------------------------------------------------------------
// Conversions
// ---------------------------------------------------------------------------

/// Success and failure as their models.
pub open spec fn outcome<T: DeepView, E: DeepView>(r: Result<T, E>) -> Result<T::V, E::V> {
    match r {
        Ok(t) => Ok(t.deep_view()),
        Err(e) => Err(e.deep_view()),
    }
}

/// The characters of `s`.
pub fn to_chars(s: &str) -> (chars: Vec<char>)
    ensures
        chars@ == s@,
{
    let mut chars: Vec<char> = Vec::new();
    for c in it: s.chars()
        invariant
            it.seq() == s@,
            chars@ == s@.take(it.index() as int),
    {
        chars.push(c);
        assert(s@.take(it.index() + 1) =~= s@.take(it.index() as int).push(c));
    }
    assert(s@.take(s@.len() as int) =~= s@);
    chars
}

/// The string made of `chars`.
pub fn to_text(chars: &[char]) -> (s: String)
    ensures
        s@ == chars@,
{
    let mut s = String::new();
    for i in 0..chars.len()
        invariant
            s@ == chars@.take(i as int),
    {
        s.push(chars[i]);
        assert(chars@.take(i + 1) =~= chars@.take(i as int).push(chars@[i as int]));
    }
    assert(chars@.take(chars@.len() as int) =~= chars@);
    s
}

/// Whether `a` and `b` hold the same characters.
pub fn same(a: &str, b: &str) -> (eq: bool)
    ensures
        eq == (a@ == b@),
{
    let x = a.as_bytes();
    let y = b.as_bytes();
    proof {
        encode_utf8_decode_utf8(a@);
        encode_utf8_decode_utf8(b@);
    }
    if x.len() != y.len() {
        return false;
    }
    for i in 0..x.len()
        invariant
            x@ == encode_utf8(a@),
            y@ == encode_utf8(b@),
            x@.len() == y@.len(),
            forall|j: int| 0 <= j < i ==> x@[j] == y@[j],
    {
        if x[i] != y[i] {
            assert(x@[i as int] != y@[i as int]);
            return false;
        }
    }
    assert(x@ =~= y@);
    true
}

/// Whether `chars` spell `s`.
pub fn spells(chars: &[char], s: &str) -> (eq: bool)
    ensures
        eq == (chars@ == s@),
{
    same(to_text(chars).as_str(), s)
}

/// `a` followed by `b`.
pub fn join2(a: &str, b: &str) -> (s: String)
    ensures
        s@ == a@ + b@,
{
    let mut s = a.to_owned();
    s.append(b);
    s
}

/// `a`, `b` and `c`, one after the other.
pub fn join3(a: &str, b: &str, c: &str) -> (s: String)
    ensures
        s@ == a@ + b@ + c@,
{
    let mut s = a.to_owned();
    s.append(b);
    s.append(c);
    s
}

// ---------------------------------------------------------------------------
// White space
// ---------------------------------------------------------------------------

/// The characters with Unicode's White_Space property.
pub open spec fn is_white_space(c: char) -> bool {
    ||| '\u{9}' <= c <= '\u{d}'
    ||| c == ' '
    ||| c == '\u{85}'
    ||| c == '\u{a0}'
    ||| c == '\u{1680}'
    ||| '\u{2000}' <= c <= '\u{200a}'
    ||| c == '\u{2028}'
    ||| c == '\u{2029}'
    ||| c == '\u{202f}'
    ||| c == '\u{205f}'
    ||| c == '\u{3000}'
}

/// Whether `c` has Unicode's White_Space property.
pub fn white_space(c: char) -> (yes: bool)
    ensures
        yes == is_white_space(c),
{
    ('\u{9}' <= c && c <= '\u{d}') || c == ' ' || c == '\u{85}' || c == '\u{a0}' || c
        == '\u{1680}' || ('\u{2000}' <= c && c <= '\u{200a}') || c == '\u{2028}' || c == '\u{2029}'
        || c == '\u{202f}' || c == '\u{205f}' || c == '\u{3000}'
}

/// `s` without its trailing white space.
pub open spec fn trim_end(s: Seq<char>) -> Seq<char>
    decreases s.len(),
{
    if s.len() > 0 && is_white_space(s.last()) {
        trim_end(s.drop_last())
    } else {
        s
    }
}

/// `s` without its leading white space.
pub open spec fn trim_start(s: Seq<char>) -> Seq<char>
    decreases s.len(),
{
    if s.len() > 0 && is_white_space(s[0]) {
        trim_start(s.drop_first())
    } else {
        s
    }
}

/// `s` without the white space at both its ends.
pub open spec fn trim(s: Seq<char>) -> Seq<char> {
    trim_start(trim_end(s))
}

/// How many characters are left of `s` without its trailing white space.
pub fn trimmed_len(s: &[char]) -> (n: usize)
    ensures
        n <= s@.len(),
        trim_end(s@) == s@.take(n as int),
{
    let mut n: usize = s.len();
    assert(s@.take(n as int) =~= s@);
    while n > 0 && white_space(s[n - 1])
        invariant
            n <= s@.len(),
            trim_end(s@) == trim_end(s@.take(n as int)),
        decreases n,
    {
        assert(s@.take(n as int).drop_last() =~= s@.take(n - 1));
        n = n - 1;
    }
    n
}

/// Cuts the white space off both ends of `s`.
pub fn trimmed(s: &str) -> (r: String)
    ensures
        r@ == trim(s@),
{
    let chars = to_chars(s);
    let n = trimmed_len(chars.as_slice());
    let ghost t = s@.take(n as int);
    let mut start: usize = 0;
    assert(t.skip(0) =~= t);
    while start < n && white_space(chars[start])
        invariant
            start <= n <= chars@.len(),
            t == chars@.take(n as int),
            trim_start(t) == trim_start(t.skip(start as int)),
        decreases n - start,
    {
        assert(t.skip(start as int).drop_first() =~= t.skip(start + 1));
        start = start + 1;
    }
    assert(t.skip(start as int) =~= chars@.subrange(start as int, n as int));
    to_text(vstd::slice::slice_subrange(chars.as_slice(), start, n))
}

// ---------------------------------------------------------------------------
// Characters
// ---------------------------------------------------------------------------

/// How many characters of `s` stand before the first one that `stop` picks.
pub open spec fn scan(s: Seq<char>, stop: spec_fn(char) -> bool) -> nat
    decreases s.len(),
{
    if s.len() == 0 || stop(s[0]) {
        0
    } else {
        1 + scan(s.drop_first(), stop)
    }
}

/// A position before which `stop` picks nothing, and at which it picks or the text ends, is
/// what `scan` finds.
pub proof fn lemma_scan(s: Seq<char>, stop: spec_fn(char) -> bool, n: int)
    requires
        0 <= n <= s.len(),
        forall|i: int| 0 <= i < n ==> !stop(#[trigger] s[i]),
        n < s.len() ==> stop(s[n]),
    ensures
        scan(s, stop) == n,
    decreases s.len(),
{
    if n > 0 {
        let rest = s.drop_first();
        assert forall|i: int| 0 <= i < n - 1 implies !stop(#[trigger] rest[i]) by {
            assert(rest[i] == s[i + 1]);
        }
        if n < s.len() {
            assert(rest[n - 1] == s[n]);
        }
        lemma_scan(rest, stop, n - 1);
    }
}

/// What `scan` finds lies in the text, and is the first character that `stop` picks.
pub proof fn lemma_scan_bounds(s: Seq<char>, stop: spec_fn(char) -> bool)
    ensures
        scan(s, stop) <= s.len(),
        forall|i: int| 0 <= i < scan(s, stop) ==> !stop(#[trigger] s[i]),
        scan(s, stop) < s.len() ==> stop(s[scan(s, stop) as int]),
    decreases s.len(),
{
    if s.len() > 0 && !stop(s[0]) {
        let rest = s.drop_first();
        lemma_scan_bounds(rest, stop);
        assert forall|i: int| 0 <= i < scan(s, stop) implies !stop(#[trigger] s[i]) by {
            if i > 0 {
                assert(rest[i - 1] == s[i]);
            }
        }
    }
}

/// Picks `c` alone.
pub open spec fn only(c: char) -> spec_fn(char) -> bool {
    |x: char| x == c
}

/// How many characters of `s` stand before the first `c`: all of them where there is none.
pub open spec fn find_char(s: Seq<char>, c: char) -> nat {
    scan(s, only(c))
}

/// The position of the first `c` in `s` at or after `from`, or the length of `s`.
pub fn position(s: &[char], from: usize, c: char) -> (n: usize)
    requires
        from <= s@.len(),
    ensures
        n == from + find_char(s@.skip(from as int), c),
        from <= n <= s@.len(),
        n < s@.len() ==> s@[n as int] == c,
        forall|i: int| from <= i < n ==> s@[i] != c,
{
    let mut n: usize = from;
    while n < s.len() && s[n] != c
        invariant
            from <= n <= s@.len(),
            forall|i: int| from <= i < n ==> s@[i] != c,
        decreases s@.len() - n,
    {
        n = n + 1;
    }
    proof {
        lemma_scan(s@.skip(from as int), only(c), n - from);
    }
    n
}

/// The pieces of `s` between the `c`s.
pub open spec fn split(s: Seq<char>, c: char) -> Seq<Seq<char>>
    decreases s.len(),
{
    let n = find_char(s, c) as int;
    if n >= s.len() {
        seq![s]
    } else {
        seq![s.take(n)] + split(s.skip(n + 1), c)
    }
}

/// Splits `s` at every `c`.
pub fn split_at_each(s: &[char], c: char) -> (pieces: Vec<String>)
    ensures
        pieces.deep_view() == split(s@, c),
{
    let mut pieces: Vec<String> = Vec::new();
    let mut start: usize = 0;
    assert(s@.skip(0) =~= s@);
    loop
        invariant_except_break
            start <= s@.len(),
            split(s@, c) == pieces.deep_view() + split(s@.skip(start as int), c),
        ensures
            pieces.deep_view() == split(s@, c),
        decreases s@.len() - start,
    {
        let n = position(s, start, c);
        let ghost rest = s@.skip(start as int);
        let ghost before = pieces.deep_view();
        let piece = to_text(vstd::slice::slice_subrange(s, start, n));
        let ghost text = piece@;
        pieces.push(piece);
        assert(pieces.deep_view() =~= before.push(text));
        if n == s.len() {
            assert(text =~= rest);
            assert(pieces.deep_view() =~= before + split(rest, c));
            break;
        }
        assert(text =~= rest.take(n - start));
        assert(rest.skip(n - start + 1) =~= s@.skip(n + 1));
        assert(before + split(rest, c) =~= pieces.deep_view() + split(s@.skip(n + 1), c));
        start = n + 1;
    }
    pieces
}

/// `list`'s texts with `sep` between each two of them.
pub open spec fn join(list: Seq<Seq<char>>, sep: Seq<char>) -> Seq<char>
    decreases list.len(),
{
    if list.len() == 0 {
        seq![]
    } else if list.len() == 1 {
        list[0]
    } else {
        join(list.drop_last(), sep) + sep + list.last()
    }
}

/// Joins `list` with `sep`.
pub fn joined(list: &[String], sep: &str) -> (s: String)
    ensures
        s@ == join(list.deep_view(), sep@),
{
    let ghost all = list.deep_view();
    let mut s = String::new();
    for i in 0..list.len()
        invariant
            all == list.deep_view(),
            s@ == join(all.take(i as int), sep@),
    {
        assert(all.take(i + 1).drop_last() =~= all.take(i as int));
        assert(all.take(i + 1).last() == list@[i as int]@);
        if i > 0 {
            s.append(sep);
        }
        s.append(list[i].as_str());
        if i == 0 {
            assert(s@ =~= all.take(1)[0]);
        }
    }
    assert(all.take(all.len() as int) =~= all);
    s
}

/// `s` without its trailing `c`s.
pub open spec fn trim_end_char(s: Seq<char>, c: char) -> Seq<char>
    decreases s.len(),
{
    if s.len() > 0 && s.last() == c {
        trim_end_char(s.drop_last(), c)
    } else {
        s
    }
}

/// How many characters are left of `s` without its trailing `c`s.
pub fn trimmed_char_len(s: &[char], c: char) -> (n: usize)
    ensures
        n <= s@.len(),
        trim_end_char(s@, c) == s@.take(n as int),
{
    let mut n: usize = s.len();
    assert(s@.take(n as int) =~= s@);
    while n > 0 && s[n - 1] == c
        invariant
            n <= s@.len(),
            trim_end_char(s@, c) == trim_end_char(s@.take(n as int), c),
        decreases n,
    {
        assert(s@.take(n as int).drop_last() =~= s@.take(n - 1));
        n = n - 1;
    }
    n
}

/// `s` without a carriage return at its end.
pub open spec fn without_return(s: Seq<char>) -> Seq<char> {
    if s.len() > 0 && s.last() == '\r' {
        s.drop_last()
    } else {
        s
    }
}

/// The lines of `s`: what stands before each newline, without a carriage return at its end, and
/// what stands behind the last newline, if there is anything.
pub open spec fn lines(s: Seq<char>) -> Seq<Seq<char>> {
    let pieces = split(s, '\n');
    let ended = pieces.drop_last().map_values(|piece: Seq<char>| without_return(piece));
    if pieces.last().len() > 0 {
        ended.push(pieces.last())
    } else {
        ended
    }
}

/// Cuts `s` into its lines.
pub fn cut_lines(s: &str) -> (r: Vec<String>)
    ensures
        r.deep_view() == lines(s@),
{
    let pieces = split_at_each(to_chars(s).as_slice(), '\n');
    let ghost model = pieces.deep_view();
    proof {
        lemma_split_pieces(s@, '\n');
    }
    let ghost ended = model.drop_last().map_values(|piece: Seq<char>| without_return(piece));
    let last: usize = pieces.len() - 1;
    let mut r: Vec<String> = Vec::new();
    for i in 0..last
        invariant
            last + 1 == pieces@.len(),
            model == pieces.deep_view(),
            ended == model.drop_last().map_values(|piece: Seq<char>| without_return(piece)),
            r.deep_view() == ended.take(i as int),
    {
        let chars = to_chars(pieces[i].as_str());
        let len = chars.len();
        let ghost before = r.deep_view();
        let line = if len > 0 && chars[len - 1] == '\r' {
            to_text(vstd::slice::slice_subrange(chars.as_slice(), 0, len - 1))
        } else {
            pieces[i].clone()
        };
        assert(line@ =~= without_return(model[i as int]));
        assert(ended[i as int] == without_return(model[i as int]));
        r.push(line);
        assert(r.deep_view() =~= before.push(line@));
        assert(ended.take(i + 1) =~= before.push(line@));
    }
    assert(ended.take(ended.len() as int) =~= ended);
    if !pieces[last].as_str().is_empty() {
        r.push(pieces[last].clone());
        assert(r.deep_view() =~= ended.push(model.last()));
    }
    r
}

// ---------------------------------------------------------------------------
// Substrings
// ---------------------------------------------------------------------------

/// What follows `prefix` in `s`, if `s` starts with it.
pub open spec fn strip_prefix(s: Seq<char>, prefix: Seq<char>) -> Option<Seq<char>> {
    if prefix.is_prefix_of(s) {
        Some(s.skip(prefix.len() as int))
    } else {
        None
    }
}

/// What precedes `suffix` in `s`, if `s` ends with it.
pub open spec fn strip_suffix(s: Seq<char>, suffix: Seq<char>) -> Option<Seq<char>> {
    if suffix.is_suffix_of(s) {
        Some(s.take(s.len() - suffix.len()))
    } else {
        None
    }
}

/// Whether `pattern` stands in `s` at position `i`.
pub open spec fn occurs_at(s: Seq<char>, pattern: Seq<char>, i: int) -> bool {
    0 <= i && i + pattern.len() <= s.len() && s.subrange(i, i + pattern.len()) == pattern
}

/// Whether `pattern` stands somewhere in `s`.
pub open spec fn occurs(s: Seq<char>, pattern: Seq<char>) -> bool {
    exists|i: int| occurs_at(s, pattern, i)
}

/// Whether `i` is the first position in `s` at which `pattern` stands.
pub open spec fn first_at(s: Seq<char>, pattern: Seq<char>, i: int) -> bool {
    occurs_at(s, pattern, i) && forall|j: int| 0 <= j < i ==> !occurs_at(s, pattern, j)
}

/// The first position in `s` at which `pattern` stands.
pub open spec fn find(s: Seq<char>, pattern: Seq<char>) -> Option<int> {
    if exists|i: int| first_at(s, pattern, i) {
        Some(choose|i: int| first_at(s, pattern, i))
    } else {
        None
    }
}

/// There is only one first position.
pub proof fn lemma_find(s: Seq<char>, pattern: Seq<char>, i: int)
    requires
        first_at(s, pattern, i),
    ensures
        find(s, pattern) == Some(i),
{
    let k = choose|k: int| first_at(s, pattern, k);
    assert(first_at(s, pattern, k));
}

/// Whether `pattern` stands in `s` at position `i`.
pub fn matches_at(s: &[char], pattern: &[char], i: usize) -> (yes: bool)
    requires
        i <= s@.len(),
    ensures
        yes == occurs_at(s@, pattern@, i as int),
{
    let len = s.len();
    if len - i < pattern.len() {
        return false;
    }
    for k in 0..pattern.len()
        invariant
            len == s@.len(),
            i + pattern@.len() <= len,
            forall|j: int| 0 <= j < k ==> s@[i + j] == pattern@[j],
    {
        if s[i + k] != pattern[k] {
            assert(s@.subrange(i as int, i + pattern@.len())[k as int] != pattern@[k as int]);
            return false;
        }
    }
    assert(s@.subrange(i as int, i + pattern@.len()) =~= pattern@);
    true
}

/// The first position in `s`, at or after `from`, at which `pattern` stands.
pub fn find_from(s: &[char], from: usize, pattern: &[char]) -> (found: Option<usize>)
    requires
        from <= s@.len(),
    ensures
        match found {
            Some(i) => {
                &&& from <= i
                &&& i + pattern@.len() <= s@.len()
                &&& occurs_at(s@, pattern@, i as int)
                &&& find(s@.skip(from as int), pattern@) == Some(i - from)
            },
            None => {
                &&& find(s@.skip(from as int), pattern@) is None
                &&& !occurs(s@.skip(from as int), pattern@)
            },
        },
{
    let ghost rest = s@.skip(from as int);
    let mut i: usize = from;
    loop
        invariant
            from <= i <= s@.len(),
            rest == s@.skip(from as int),
            forall|j: int| 0 <= j < i - from ==> !occurs_at(rest, pattern@, j),
        decreases s@.len() - i,
    {
        proof {
            assert(i + pattern@.len() <= s@.len() ==> s@.subrange(i as int, i + pattern@.len())
                =~= rest.subrange(i - from, i - from + pattern@.len()));
        }
        if matches_at(s, pattern, i) {
            proof {
                assert(occurs_at(rest, pattern@, i - from));
                lemma_find(rest, pattern@, i - from);
            }
            return Some(i);
        }
        assert(!occurs_at(rest, pattern@, i - from));
        if i == s.len() {
            assert forall|j: int| !occurs_at(rest, pattern@, j) by {
                assert(j > i - from ==> j > rest.len());
            }
            return None;
        }
        i = i + 1;
    }
}

/// `s` with every `pattern` in it, from left to right and without overlap, replaced by `with`.
pub open spec fn replace(s: Seq<char>, pattern: Seq<char>, with: Seq<char>) -> Seq<char>
    decreases s.len(),
{
    match find(s, pattern) {
        Some(i) => if pattern.len() > 0 && 0 <= i && i + pattern.len() <= s.len() {
            s.take(i) + with + replace(s.skip(i + pattern.len()), pattern, with)
        } else {
            s
        },
        None => s,
    }
}

/// Replaces every `pattern` in `s` by `with`.
pub fn replaced(s: &str, pattern: &str, with: &str) -> (r: String)
    requires
        pattern@.len() > 0,
    ensures
        r@ == replace(s@, pattern@, with@),
{
    let chars = to_chars(s);
    let pat = to_chars(pattern);
    let len = chars.len();
    let mut r = String::new();
    let mut start: usize = 0;
    assert(s@.skip(0) =~= s@);
    loop
        invariant_except_break
            start <= s@.len(),
            replace(s@, pattern@, with@) == r@ + replace(s@.skip(start as int), pattern@, with@),
        invariant
            chars@ == s@,
            len == s@.len(),
            pat@ == pattern@,
            pat@.len() > 0,
        ensures
            r@ == replace(s@, pattern@, with@),
        decreases s@.len() - start,
    {
        let ghost rest = s@.skip(start as int);
        let ghost before = r@;
        match find_from(chars.as_slice(), start, pat.as_slice()) {
            Some(i) => {
                let piece = to_text(vstd::slice::slice_subrange(chars.as_slice(), start, i));
                r.append(piece.as_str());
                r.append(with);
                assert(piece@ =~= rest.take(i - start));
                assert(rest.skip(i - start + pat@.len()) =~= s@.skip(i + pat@.len()));
                assert(before + replace(rest, pattern@, with@) =~= r@ + replace(
                    s@.skip(i + pat@.len()),
                    pattern@,
                    with@,
                ));
                start = i + pat.len();
            },
            None => {
                let piece = to_text(vstd::slice::slice_subrange(chars.as_slice(), start, len));
                r.append(piece.as_str());
                assert(piece@ =~= rest);
                break;
            },
        }
    }
    r
}

/// Whether `pattern` stands somewhere in `s`.
pub fn contains(s: &str, pattern: &str) -> (yes: bool)
    ensures
        yes == occurs(s@, pattern@),
{
    let chars = to_chars(s);
    let pat = to_chars(pattern);
    assert(s@.skip(0) =~= s@);
    match find_from(chars.as_slice(), 0, pat.as_slice()) {
        Some(_) => true,
        None => false,
    }
}

/// Whether `s` starts with `prefix`.
pub fn starts_with(s: &str, prefix: &str) -> (yes: bool)
    ensures
        yes == prefix@.is_prefix_of(s@),
{
    let chars = to_chars(s);
    let pat = to_chars(prefix);
    let yes = matches_at(chars.as_slice(), pat.as_slice(), 0);
    assert(occurs_at(s@, prefix@, 0) == prefix@.is_prefix_of(s@)) by {
        if prefix@.len() <= s@.len() {
            assert(s@.subrange(0, prefix@.len() as int) =~= s@.take(prefix@.len() as int));
        }
    }
    yes
}

/// What follows `prefix` in `s`, if `s` starts with it.
pub fn after_prefix<'a>(s: &'a [char], prefix: &str) -> (r: Option<&'a [char]>)
    ensures
        match r {
            Some(rest) => strip_prefix(s@, prefix@) == Some(rest@),
            None => strip_prefix(s@, prefix@) is None,
        },
{
    let pat = to_chars(prefix);
    let yes = matches_at(s, pat.as_slice(), 0);
    assert(occurs_at(s@, prefix@, 0) == prefix@.is_prefix_of(s@)) by {
        if prefix@.len() <= s@.len() {
            assert(s@.subrange(0, prefix@.len() as int) =~= s@.take(prefix@.len() as int));
        }
    }
    if yes {
        let rest = vstd::slice::slice_subrange(s, pat.len(), s.len());
        assert(rest@ =~= s@.skip(prefix@.len() as int));
        Some(rest)
    } else {
        None
    }
}

/// What precedes `suffix` in `s`, if `s` ends with it.
pub fn before_suffix<'a>(s: &'a [char], suffix: &str) -> (r: Option<&'a [char]>)
    ensures
        match r {
            Some(rest) => strip_suffix(s@, suffix@) == Some(rest@),
            None => strip_suffix(s@, suffix@) is None,
        },
{
    let pat = to_chars(suffix);
    if s.len() < pat.len() {
        return None;
    }
    let n = s.len() - pat.len();
    let yes = matches_at(s, pat.as_slice(), n);
    assert(occurs_at(s@, suffix@, n as int) == suffix@.is_suffix_of(s@)) by {
        assert(s@.subrange(n as int, n + suffix@.len()) =~= s@.skip(n as int));
    }
    if yes {
        let rest = vstd::slice::slice_subrange(s, 0, n);
        assert(rest@ =~= s@.take(n as int));
        Some(rest)
    } else {
        None
    }
}

/// What stands before and after the first `pattern` in `s`.
pub open spec fn split_once(s: Seq<char>, pattern: Seq<char>) -> Option<(Seq<char>, Seq<char>)> {
    match find(s, pattern) {
        Some(i) => Some((s.take(i), s.skip(i + pattern.len()))),
        None => None,
    }
}

/// Cuts `s` at the first `pattern`.
pub fn cut<'a>(s: &'a [char], pattern: &str) -> (r: Option<(&'a [char], &'a [char])>)
    ensures
        match r {
            Some((a, b)) => split_once(s@, pattern@) == Some((a@, b@)),
            None => split_once(s@, pattern@) is None,
        },
{
    let pat = to_chars(pattern);
    let len = s.len();
    assert(s@.skip(0) =~= s@);
    match find_from(s, 0, pat.as_slice()) {
        Some(i) => {
            let a = vstd::slice::slice_subrange(s, 0, i);
            let b = vstd::slice::slice_subrange(s, i + pat.len(), len);
            assert(a@ =~= s@.take(i as int));
            assert(b@ =~= s@.skip(i + pattern@.len()));
            Some((a, b))
        },
        None => None,
    }
}

// ---------------------------------------------------------------------------
// Order
// ---------------------------------------------------------------------------

/// Whether `a` and `b` agree up to position `i`, where `a` ends or has the smaller character.
pub open spec fn smaller_at(a: Seq<char>, b: Seq<char>, i: int) -> bool {
    &&& 0 <= i <= a.len()
    &&& i < b.len()
    &&& forall|j: int| 0 <= j < i ==> a[j] == b[j]
    &&& i == a.len() || a[i] < b[i]
}

/// Whether `a` comes before `b` in lexicographic order.
pub open spec fn precedes(a: Seq<char>, b: Seq<char>) -> bool {
    exists|i: int| smaller_at(a, b, i)
}

/// Two texts are equal, or one of them comes before the other, but not both.
pub proof fn lemma_precedes_total(a: Seq<char>, b: Seq<char>)
    ensures
        a == b || precedes(a, b) || precedes(b, a),
        !(precedes(a, b) && precedes(b, a)),
        !precedes(a, a),
    decreases a.len(),
{
    if precedes(a, b) && precedes(b, a) {
        let i = choose|i: int| smaller_at(a, b, i);
        let j = choose|j: int| smaller_at(b, a, j);
        if i < j {
            assert(b[i] == a[i]);
        } else if j < i {
            assert(a[j] == b[j]);
        }
    }
    if precedes(a, a) {
        let i = choose|i: int| smaller_at(a, a, i);
        assert(a[i] < a[i]);
    }
    if a.len() == 0 {
        if b.len() == 0 {
            assert(a =~= b);
        } else {
            assert(smaller_at(a, b, 0));
        }
    } else if b.len() == 0 {
        assert(smaller_at(b, a, 0));
    } else if a[0] < b[0] {
        assert(smaller_at(a, b, 0));
    } else if b[0] < a[0] {
        assert(smaller_at(b, a, 0));
    } else {
        let x = a.drop_first();
        let y = b.drop_first();
        lemma_precedes_total(x, y);
        if x == y {
            assert(a =~= seq![a[0]] + x);
            assert(b =~= seq![b[0]] + y);
        } else if precedes(x, y) {
            let i = choose|i: int| smaller_at(x, y, i);
            assert forall|j: int| 0 <= j < i + 1 implies a[j] == b[j] by {
                assert(j > 0 ==> x[j - 1] == y[j - 1]);
            }
            assert(smaller_at(a, b, i + 1));
        } else {
            let i = choose|i: int| smaller_at(y, x, i);
            assert forall|j: int| 0 <= j < i + 1 implies b[j] == a[j] by {
                assert(j > 0 ==> y[j - 1] == x[j - 1]);
            }
            assert(smaller_at(b, a, i + 1));
        }
    }
}

/// The order of texts is transitive.
pub proof fn lemma_precedes_transitive(a: Seq<char>, b: Seq<char>, c: Seq<char>)
    requires
        precedes(a, b),
        precedes(b, c),
    ensures
        precedes(a, c),
{
    let i = choose|i: int| smaller_at(a, b, i);
    let j = choose|j: int| smaller_at(b, c, j);
    let k = if i < j {
        i
    } else {
        j
    };
    assert(smaller_at(a, c, k));
}

/// Whether `a` comes before `b` in lexicographic order.
pub fn comes_before(a: &str, b: &str) -> (yes: bool)
    ensures
        yes == precedes(a@, b@),
{
    let x = to_chars(a);
    let y = to_chars(b);
    let mut i: usize = 0;
    while i < x.len() && i < y.len() && x[i] == y[i]
        invariant
            x@ == a@,
            y@ == b@,
            i <= x@.len(),
            i <= y@.len(),
            forall|j: int| 0 <= j < i ==> x@[j] == y@[j],
        decreases x@.len() - i,
    {
        i = i + 1;
    }
    let yes = i < y.len() && (i == x.len() || x[i] < y[i]);
    proof {
        if yes {
            assert(smaller_at(a@, b@, i as int));
        } else if precedes(a@, b@) {
            let k = choose|k: int| smaller_at(a@, b@, k);
            if k < i {
                assert(x@[k] == y@[k]);
            } else if i < k {
                assert(a@[i as int] == b@[i as int]);
            }
        }
    }
    yes
}

// ---------------------------------------------------------------------------
// Laws of splitting
// ---------------------------------------------------------------------------

/// Whether `s` has no `c`.
pub open spec fn without(s: Seq<char>, c: char) -> bool {
    forall|i: int| 0 <= i < s.len() ==> s[i] != c
}

/// A text without the separator is one piece.
pub proof fn lemma_split_none(s: Seq<char>, c: char)
    requires
        without(s, c),
    ensures
        split(s, c) == seq![s],
{
    lemma_scan(s, only(c), s.len() as int);
}

/// What stands before the first separator is the first piece.
pub proof fn lemma_split_first(a: Seq<char>, b: Seq<char>, c: char)
    requires
        without(a, c),
    ensures
        split(a + seq![c] + b, c) == seq![a] + split(b, c),
{
    let s = a + seq![c] + b;
    assert forall|i: int| 0 <= i < a.len() implies !only(c)(#[trigger] s[i]) by {
        assert(s[i] == a[i]);
    }
    assert(s[a.len() as int] == c);
    lemma_scan(s, only(c), a.len() as int);
    assert(s.take(a.len() as int) =~= a);
    assert(s.skip(a.len() + 1 as int) =~= b);
}

/// Pieces have no separator, and what is in a piece was in the text.
pub proof fn lemma_split_pieces(s: Seq<char>, c: char)
    ensures
        split(s, c).len() > 0,
        forall|i: int| 0 <= i < split(s, c).len() ==> without(#[trigger] split(s, c)[i], c),
        forall|i: int, x: char|
            0 <= i < split(s, c).len() && without(s, x) ==> #[trigger] without(split(s, c)[i], x),
    decreases s.len(),
{
    lemma_scan_bounds(s, only(c));
    let n = find_char(s, c) as int;
    let pieces = split(s, c);
    if n < s.len() {
        let head = s.take(n);
        let tail = s.skip(n + 1);
        lemma_split_pieces(tail, c);
        assert(pieces == seq![head] + split(tail, c));
        assert(without(head, c)) by {
            assert forall|i: int| 0 <= i < head.len() implies head[i] != c by {
                assert(!only(c)(s[i]));
            }
        }
        assert forall|i: int| 0 <= i < pieces.len() implies without(#[trigger] pieces[i], c) by {
            if i > 0 {
                assert(pieces[i] == split(tail, c)[i - 1]);
            }
        }
        assert forall|i: int, x: char|
            0 <= i < pieces.len() && without(s, x) implies #[trigger] without(pieces[i], x) by {
            if i > 0 {
                assert(pieces[i] == split(tail, c)[i - 1]);
                assert(without(tail, x));
            }
        }
    } else {
        assert(without(s, c)) by {
            assert forall|i: int| 0 <= i < s.len() implies s[i] != c by {
                assert(!only(c)(s[i]));
            }
        }
    }
}

/// Joining from the front.
pub proof fn lemma_join_first(list: Seq<Seq<char>>, sep: Seq<char>)
    requires
        list.len() > 1,
    ensures
        join(list, sep) == list[0] + sep + join(list.drop_first(), sep),
    decreases list.len(),
{
    let rest = list.drop_first();
    if list.len() == 2 {
        assert(list.drop_last() =~= seq![list[0]]);
        assert(rest =~= seq![list[1]]);
        assert(join(list.drop_last(), sep) == list[0]);
        assert(join(rest, sep) == list[1]);
    } else {
        lemma_join_first(list.drop_last(), sep);
        assert(list.drop_last().drop_first() =~= rest.drop_last());
        assert(join(list, sep) =~= list[0] + sep + join(rest, sep));
    }
}

/// The pieces of a text, joined by the separator, are the text again.
pub proof fn law_join_undoes_split(s: Seq<char>, c: char)
    ensures
        join(split(s, c), seq![c]) == s,
    decreases s.len(),
{
    lemma_scan_bounds(s, only(c));
    let n = find_char(s, c) as int;
    if n < s.len() {
        let head = s.take(n);
        let tail = s.skip(n + 1);
        let pieces = split(s, c);
        law_join_undoes_split(tail, c);
        lemma_split_pieces(tail, c);
        assert(pieces.drop_first() =~= split(tail, c));
        lemma_join_first(pieces, seq![c]);
        assert(only(c)(s[n]));
        assert(head + seq![c] + tail =~= s);
    }
}

/// `list` with each entry on a line of its own.
pub open spec fn one_per_line(list: Seq<Seq<char>>) -> Seq<char>
    decreases list.len(),
{
    if list.len() == 0 {
        seq![]
    } else {
        list[0] + seq!['\n'] + one_per_line(list.drop_first())
    }
}

/// One more line.
pub proof fn lemma_one_more_line(list: Seq<Seq<char>>, line: Seq<char>)
    ensures
        one_per_line(list.push(line)) == one_per_line(list) + line + seq!['\n'],
    decreases list.len(),
{
    let longer = list.push(line);
    if list.len() == 0 {
        assert(longer.drop_first() =~= list);
        assert(one_per_line(longer) =~= one_per_line(list) + line + seq!['\n']);
    } else {
        let rest = list.drop_first();
        lemma_one_more_line(rest, line);
        assert(longer.drop_first() =~= rest.push(line));
        assert(one_per_line(longer) =~= one_per_line(list) + line + seq!['\n']);
    }
}

/// Whether `s` fits on a line: it has no newline and does not end in a carriage return.
pub open spec fn fits_line(s: Seq<char>) -> bool {
    without(s, '\n') && (s.len() > 0 ==> s.last() != '\r')
}

/// What was written one per line is read back.
pub proof fn law_lines_are_read_back(list: Seq<Seq<char>>)
    requires
        forall|i: int| 0 <= i < list.len() ==> fits_line(#[trigger] list[i]),
    ensures
        lines(one_per_line(list)) == list,
{
    lemma_one_per_line(list);
    let pieces = split(one_per_line(list), '\n');
    let ended = pieces.drop_last().map_values(|piece: Seq<char>| without_return(piece));
    assert(pieces.drop_last() =~= list);
    assert forall|i: int| 0 <= i < list.len() implies #[trigger] ended[i] == list[i] by {
        assert(fits_line(list[i]));
    }
    assert(ended =~= list);
}

/// The pieces of what was written one per line: all that was written, and nothing behind it.
proof fn lemma_one_per_line(list: Seq<Seq<char>>)
    requires
        forall|i: int| 0 <= i < list.len() ==> fits_line(#[trigger] list[i]),
    ensures
        split(one_per_line(list), '\n') == list.push(seq![]),
    decreases list.len(),
{
    if list.len() == 0 {
        lemma_split_none(seq![], '\n');
        assert(split(one_per_line(list), '\n') =~= list.push(seq![]));
    } else {
        let rest = list.drop_first();
        assert forall|i: int| 0 <= i < rest.len() implies fits_line(#[trigger] rest[i]) by {
            assert(rest[i] == list[i + 1]);
        }
        lemma_one_per_line(rest);
        assert(fits_line(list[0]));
        lemma_split_first(list[0], one_per_line(rest), '\n');
        assert(seq![list[0]] + rest.push(seq![]) =~= list.push(seq![]));
    }
}

// ---------------------------------------------------------------------------
// Laws of searching, cutting, trimming and ordering
// ---------------------------------------------------------------------------

/// White space: the ASCII controls from tab to carriage return, the space, and what Unicode adds.
pub proof fn law_white_space(c: char)
    ensures
        is_white_space(c) <==> (9 <= c as u32 <= 13 || c as u32 == 32 || c as u32 == 0x85 || c as u32
            == 0xa0 || c as u32 == 0x1680 || 0x2000 <= c as u32 <= 0x200a || c as u32 == 0x2028
            || c as u32 == 0x2029 || c as u32 == 0x202f || c as u32 == 0x205f || c as u32 == 0x3000),
{
}

/// Trimming the end cuts off white space only, and all of it.
pub proof fn law_trimming_the_end_cuts_white_space(s: Seq<char>)
    ensures
        trim_end(s).is_prefix_of(s),
        forall|i: int| trim_end(s).len() <= i < s.len() ==> is_white_space(#[trigger] s[i]),
        trim_end(s).len() > 0 ==> !is_white_space(trim_end(s).last()),
    decreases s.len(),
{
    let t = trim_end(s);
    if s.len() > 0 && is_white_space(s.last()) {
        let front = s.drop_last();
        law_trimming_the_end_cuts_white_space(front);
        assert(front.take(t.len() as int) =~= s.take(t.len() as int));
        assert forall|i: int| t.len() <= i < s.len() implies is_white_space(#[trigger] s[i]) by {
            if i < front.len() {
                assert(front[i] == s[i]);
            }
        }
    } else {
        assert(s.take(s.len() as int) =~= s);
    }
}

/// Trimming the start cuts off white space only, and all of it.
pub proof fn law_trimming_the_start_cuts_white_space(s: Seq<char>)
    ensures
        trim_start(s).is_suffix_of(s),
        forall|i: int| 0 <= i < s.len() - trim_start(s).len() ==> is_white_space(#[trigger] s[i]),
        trim_start(s).len() > 0 ==> !is_white_space(trim_start(s)[0]),
    decreases s.len(),
{
    let t = trim_start(s);
    if s.len() > 0 && is_white_space(s[0]) {
        let rest = s.drop_first();
        law_trimming_the_start_cuts_white_space(rest);
        assert(trim_start(s) == trim_start(rest));
        assert(rest.skip(rest.len() - t.len()) =~= s.skip(s.len() - t.len()));
        assert forall|i: int| 0 <= i < s.len() - t.len() implies is_white_space(
            #[trigger] s[i],
        ) by {
            if i > 0 {
                assert(rest[i - 1] == s[i]);
            }
        }
    } else {
        assert(s.skip(0) =~= s);
    }
}

/// Trimming cuts white space off both ends: text that has none there is left as it is, whatever
/// white space was put around it.
pub proof fn law_trimming_finds_the_text(before: Seq<char>, s: Seq<char>, after: Seq<char>)
    requires
        s.len() > 0,
        !is_white_space(s[0]),
        !is_white_space(s.last()),
        forall|i: int| 0 <= i < before.len() ==> is_white_space(#[trigger] before[i]),
        forall|i: int| 0 <= i < after.len() ==> is_white_space(#[trigger] after[i]),
    ensures
        trim(before + s + after) == s,
{
    let whole = before + s + after;
    let front = before + s;
    law_trimming_the_end_cuts_white_space(whole);
    let t = trim_end(whole);
    let last = front.len() - 1;
    assert(whole[last] == s.last());
    assert(t.len() > last);
    if t.len() > front.len() {
        assert(whole.take(t.len() as int)[t.len() - 1] == whole[t.len() - 1]);
        assert(whole[t.len() - 1] == after[t.len() - 1 - front.len()]);
    }
    assert(whole.take(front.len() as int) =~= front);
    assert(t == front);
    law_trimming_the_start_cuts_white_space(front);
    let u = trim_start(front);
    let n = front.len() - u.len();
    assert(front[before.len() as int] == s[0]);
    assert(n <= before.len());
    if n < before.len() {
        assert(front.skip(n)[0] == front[n]);
        assert(front[n] == before[n]);
    }
    assert(front.skip(before.len() as int) =~= s);
}

/// A text that is all white space is trimmed to nothing.
pub proof fn law_white_space_is_trimmed_away(s: Seq<char>)
    requires
        forall|i: int| 0 <= i < s.len() ==> is_white_space(#[trigger] s[i]),
    ensures
        trim(s).len() == 0,
{
    law_trimming_the_end_cuts_white_space(s);
    let t = trim_end(s);
    if t.len() > 0 {
        assert(s.take(t.len() as int)[t.len() - 1] == s[t.len() - 1]);
    }
}

/// A pattern occurs in a text exactly if the text can be cut into something, the pattern, and
/// something.
pub proof fn law_what_occurs_can_be_cut_out(s: Seq<char>, pattern: Seq<char>)
    ensures
        occurs(s, pattern) <==> exists|a: Seq<char>, b: Seq<char>| s == #[trigger] (a + pattern + b),
{
    if occurs(s, pattern) {
        let i = choose|i: int| occurs_at(s, pattern, i);
        let a = s.take(i);
        let b = s.skip(i + pattern.len());
        assert forall|k: int| 0 <= k < s.len() implies s[k] == (a + pattern + b)[k] by {
            if i <= k < i + pattern.len() {
                assert(s.subrange(i, i + pattern.len())[k - i] == s[k]);
            }
        }
        assert(s =~= a + pattern + b);
    }
    if exists|a: Seq<char>, b: Seq<char>| s == #[trigger] (a + pattern + b) {
        let (a, b) = choose|a: Seq<char>, b: Seq<char>| s == #[trigger] (a + pattern + b);
        let n = a.len() as int;
        assert(s.subrange(n, n + pattern.len()) =~= pattern);
        assert(occurs_at(s, pattern, n));
    }
}

/// Where a text occurs, it has a first position.
proof fn lemma_first(s: Seq<char>, pattern: Seq<char>, i: int) -> (first: int)
    requires
        occurs_at(s, pattern, i),
    ensures
        first_at(s, pattern, first),
    decreases i,
{
    if exists|j: int| 0 <= j < i && occurs_at(s, pattern, j) {
        let j = choose|j: int| 0 <= j < i && occurs_at(s, pattern, j);
        lemma_first(s, pattern, j)
    } else {
        i
    }
}

/// What a pattern is first found behind, and what stands behind it: a text is cut there, and only
/// a text without the pattern cannot be cut.
pub proof fn law_texts_are_cut_at_the_first_occurrence(
    a: Seq<char>,
    pattern: Seq<char>,
    b: Seq<char>,
)
    ensures
        (forall|j: int| 0 <= j < a.len() ==> !occurs_at(a + pattern + b, pattern, j))
            ==> split_once(a + pattern + b, pattern) == Some((a, b)),
        split_once(a, pattern) is None <==> !occurs(a, pattern),
{
    let s = a + pattern + b;
    let n = a.len() as int;
    if forall|j: int| 0 <= j < a.len() ==> !occurs_at(s, pattern, j) {
        assert(s.subrange(n, n + pattern.len()) =~= pattern);
        lemma_find(s, pattern, n);
        assert(s.take(n) =~= a);
        assert(s.skip(n + pattern.len()) =~= b);
    }
    if occurs(a, pattern) {
        let i = choose|i: int| occurs_at(a, pattern, i);
        let first = lemma_first(a, pattern, i);
        lemma_find(a, pattern, first);
    }
}

/// A text without the pattern is not changed by replacing it; where it first occurs it is replaced,
/// and then in what follows.
pub proof fn law_replacing_goes_from_left_to_right(
    a: Seq<char>,
    pattern: Seq<char>,
    b: Seq<char>,
    with: Seq<char>,
)
    requires
        pattern.len() > 0,
    ensures
        !occurs(a, pattern) ==> replace(a, pattern, with) == a,
        (forall|j: int| 0 <= j < a.len() ==> !occurs_at(a + pattern + b, pattern, j)) ==> replace(
            a + pattern + b,
            pattern,
            with,
        ) == a + with + replace(b, pattern, with),
{
    law_texts_are_cut_at_the_first_occurrence(a, pattern, b);
    let s = a + pattern + b;
    let n = a.len() as int;
    if forall|j: int| 0 <= j < a.len() ==> !occurs_at(s, pattern, j) {
        assert(s.subrange(n, n + pattern.len()) =~= pattern);
        lemma_find(s, pattern, n);
        assert(s.take(n) =~= a);
        assert(s.skip(n + pattern.len()) =~= b);
    }
}

/// Texts are ordered by the first character in which they differ; a text comes before every longer
/// one that begins with it.
pub proof fn law_the_first_difference_decides(
    start: Seq<char>,
    c: char,
    x: Seq<char>,
    d: char,
    y: Seq<char>,
)
    ensures
        c < d ==> precedes(start + seq![c] + x, start + seq![d] + y),
        c > d ==> !precedes(start + seq![c] + x, start + seq![d] + y),
        precedes(start, start + seq![c] + x),
        !precedes(start + seq![c] + x, start),
        !precedes(start, start),
{
    let n = start.len() as int;
    let a = start + seq![c] + x;
    let b = start + seq![d] + y;
    assert(a[n] == c && b[n] == d);
    if c < d {
        assert(smaller_at(a, b, n));
    }
    if c > d {
        assert(smaller_at(b, a, n));
    }
    assert(smaller_at(start, a, n));
    lemma_precedes_total(a, b);
    lemma_precedes_total(start, a);
}

/// The pieces of a text have no separator in them, and there is one more of them than there are
/// separators; in particular, a text without one is its only piece.
pub proof fn law_pieces_stand_between_separators(a: Seq<char>, b: Seq<char>, c: char)
    requires
        without(a, c),
    ensures
        split(a, c) == seq![a],
        split(a + seq![c] + b, c) == seq![a] + split(b, c),
{
    lemma_split_none(a, c);
    lemma_split_first(a, b, c);
}

/// What stands behind the last newline is a line of its own, if there is anything, and keeps a
/// carriage return; a carriage return before a newline is dropped.
pub proof fn law_lines_end_where_they_end(line: Seq<char>, rest: Seq<char>)
    requires
        without(line, '\n'),
    ensures
        line.len() > 0 ==> lines(line) == seq![line],
        lines(seq![]) == Seq::<Seq<char>>::empty(),
        lines(line + seq!['\r', '\n'] + rest) == seq![line] + lines(rest),
        line.len() > 0 && line.last() != '\r' ==> lines(line + seq!['\n'] + rest) == seq![line]
            + lines(rest),
{
    lemma_split_none(line, '\n');
    lemma_split_none(seq![], '\n');
    assert(lines(seq![]) =~= Seq::<Seq<char>>::empty());
    assert(line.len() > 0 ==> lines(line) =~= seq![line]);
    let ended = line.push('\r');
    assert(without(ended, '\n'));
    assert(line + seq!['\r', '\n'] + rest =~= ended + seq!['\n'] + rest);
    lemma_first_line(ended, rest);
    assert(without_return(ended) =~= line);
    lemma_first_line(line, rest);
}

/// The first line.
proof fn lemma_first_line(line: Seq<char>, rest: Seq<char>)
    requires
        without(line, '\n'),
    ensures
        lines(line + seq!['\n'] + rest) == seq![without_return(line)] + lines(rest),
{
    let s = line + seq!['\n'] + rest;
    lemma_split_first(line, rest, '\n');
    lemma_split_pieces(rest, '\n');
    let pieces = split(rest, '\n');
    let all = split(s, '\n');
    assert(all =~= seq![line] + pieces);
    assert(all.last() == pieces.last());
    assert(all.drop_last() =~= seq![line] + pieces.drop_last());
    let f = |piece: Seq<char>| without_return(piece);
    assert(all.drop_last().map_values(f) =~= seq![without_return(line)]
        + pieces.drop_last().map_values(f));
    assert(lines(s) =~= seq![without_return(line)] + lines(rest));
}

/// Joining puts the separator between neighbours and nowhere else, and leaves out nothing, be it
/// empty or not.
pub proof fn law_joining_puts_separators_between(
    list: Seq<Seq<char>>,
    x: Seq<char>,
    sep: Seq<char>,
)
    ensures
        join(seq![], sep) == Seq::<char>::empty(),
        join(seq![x], sep) == x,
        list.len() > 0 ==> join(list.push(x), sep) == join(list, sep) + sep + x,
{
    assert(list.push(x).drop_last() =~= list);
}

} // verus!
