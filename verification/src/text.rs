//! Character-level helpers on strings: the views that the contracts of the
//! name and path handling speak of, and the few standard-library string
//! operations that they rest on.

use vstd::prelude::*;
use vstd::string::StringSliceAdditionalSpecFns;

verus! {

broadcast use vstd::string::axiom_spec_iter;

/// Unicode lowercase mapping as `str::to_lowercase` computes it.
pub uninterp spec fn spec_to_lowercase(s: Seq<char>) -> Seq<char>;

/// Wraps `str::to_lowercase`: the result is the Unicode lowercase mapping of
/// the argument, named `spec_to_lowercase`; nothing more is claimed of it.
#[verifier::external_body]
pub(crate) fn to_lowercase(s: &str) -> (r: String)
    ensures
        r@ == spec_to_lowercase(s@),
{
    s.to_lowercase()
}

/// Wraps `FromIterator<&char> for String`: the string holds exactly the
/// given characters, in order.
#[verifier::external_body]
pub(crate) fn string_from_chars(chars: &[char]) -> (r: String)
    ensures
        r@ == chars@,
{
    String::from_iter(chars.iter())
}

/// The characters of `s`, in order.
pub fn chars_of(s: &str) -> (v: Vec<char>)
    ensures
        v@ == s@,
{
    let mut v: Vec<char> = Vec::new();
    for c in it: s.chars()
        invariant
            it.seq() == s@,
            v@ == it.seq().take(it.index() as int),
    {
        v.push(c);
    }
    v
}

/// Index of the first occurrence of `c` in `s`, or `s.len()` when there is none.
pub open spec fn first_index_of(s: Seq<char>, c: char) -> int
    decreases s.len(),
{
    if s.len() == 0 {
        0
    } else if s[0] == c {
        0
    } else {
        1 + first_index_of(s.drop_first(), c)
    }
}

/// `first_index_of` is the least index holding `c`, and `s.len()` when none does.
pub proof fn lemma_first_index_of(s: Seq<char>, c: char)
    ensures
        0 <= first_index_of(s, c) <= s.len(),
        forall|j: int| 0 <= j < first_index_of(s, c) ==> s[j] != c,
        first_index_of(s, c) < s.len() ==> s[first_index_of(s, c)] == c,
    decreases s.len(),
{
    if s.len() > 0 && s[0] != c {
        lemma_first_index_of(s.drop_first(), c);
        assert forall|j: int| 0 <= j < first_index_of(s, c) implies s[j] != c by {
            if j > 0 {
                assert(s[j] == s.drop_first()[j - 1]);
            }
        }
    }
}

/// Finds the first occurrence of `c` in `chars`.
pub fn find_char(chars: &[char], c: char) -> (r: Option<usize>)
    ensures
        match r {
            Some(i) => i as int == first_index_of(chars@, c) && i < chars@.len(),
            None => first_index_of(chars@, c) == chars@.len(),
        },
{
    let mut i: usize = 0;
    while i < chars.len()
        invariant
            i <= chars@.len(),
            forall|j: int| 0 <= j < i ==> chars@[j] != c,
        decreases chars@.len() - i,
    {
        if chars[i] == c {
            proof {
                lemma_first_index_of(chars@, c);
                let k = first_index_of(chars@, c);
                if k < i {
                    assert(chars@[k] == c);
                }
            }
            return Some(i);
        }
        i += 1;
    }
    proof {
        lemma_first_index_of(chars@, c);
        let k = first_index_of(chars@, c);
        if k < chars@.len() {
            assert(chars@[k] == c);
        }
    }
    None
}

/// `s` with every trailing `c` removed (`str::trim_end_matches` with a char).
pub open spec fn trim_end_char(s: Seq<char>, c: char) -> Seq<char>
    decreases s.len(),
{
    if s.len() > 0 && s.last() == c {
        trim_end_char(s.drop_last(), c)
    } else {
        s
    }
}

/// Removes every trailing `c` from `chars`.
pub fn trim_end_matches_char(chars: &[char], c: char) -> (r: Vec<char>)
    ensures
        r@ == trim_end_char(chars@, c),
{
    let mut end: usize = chars.len();
    assert(chars@.take(end as int) =~= chars@);
    while end > 0 && chars[end - 1] == c
        invariant
            end <= chars@.len(),
            trim_end_char(chars@.take(end as int), c) == trim_end_char(chars@, c),
        decreases end,
    {
        assert(chars@.take(end as int).drop_last() =~= chars@.take(end - 1));
        end -= 1;
    }
    assert(trim_end_char(chars@.take(end as int), c) == chars@.take(end as int));
    let mut r: Vec<char> = Vec::new();
    let mut i: usize = 0;
    while i < end
        invariant
            i <= end <= chars@.len(),
            r@ == chars@.take(i as int),
        decreases end - i,
    {
        assert(chars@.take(i + 1) =~= chars@.take(i as int).push(chars@[i as int]));
        r.push(chars[i]);
        i += 1;
    }
    r
}

/// Copies `chars[start..end]`.
pub fn sub_chars(chars: &[char], start: usize, end: usize) -> (r: Vec<char>)
    requires
        start <= end <= chars@.len(),
    ensures
        r@ == chars@.subrange(start as int, end as int),
{
    let mut r: Vec<char> = Vec::new();
    let mut i: usize = start;
    while i < end
        invariant
            start <= i <= end <= chars@.len(),
            r@ == chars@.subrange(start as int, i as int),
        decreases end - i,
    {
        assert(chars@.subrange(start as int, i + 1) =~= chars@.subrange(start as int, i as int).push(
            chars@[i as int],
        ));
        r.push(chars[i]);
        i += 1;
    }
    r
}

} // verus!

verus! {

/// Whether `s` begins with `p`.
pub open spec fn spec_starts_with(s: Seq<char>, p: Seq<char>) -> bool {
    s.len() >= p.len() && s.take(p.len() as int) == p
}

/// Whether `s` ends with `p`.
pub open spec fn spec_ends_with(s: Seq<char>, p: Seq<char>) -> bool {
    s.len() >= p.len() && s.skip(s.len() - p.len()) == p
}

/// Whether two character sequences are equal.
pub fn chars_equal(a: &[char], b: &[char]) -> (r: bool)
    ensures
        r == (a@ == b@),
{
    if a.len() != b.len() {
        return false;
    }
    let mut i: usize = 0;
    while i < a.len()
        invariant
            i <= a@.len(),
            a@.len() == b@.len(),
            forall|j: int| 0 <= j < i ==> a@[j] == b@[j],
        decreases a@.len() - i,
    {
        if a[i] != b[i] {
            return false;
        }
        i += 1;
    }
    assert(a@ =~= b@);
    true
}

/// Whether `s` begins with `p`.
pub fn starts_with(s: &[char], p: &[char]) -> (r: bool)
    ensures
        r == spec_starts_with(s@, p@),
{
    if s.len() < p.len() {
        return false;
    }
    let head = sub_chars(s, 0, p.len());
    chars_equal(head.as_slice(), p)
}

/// Whether `s` ends with `p`.
pub fn ends_with(s: &[char], p: &[char]) -> (r: bool)
    ensures
        r == spec_ends_with(s@, p@),
{
    if s.len() < p.len() {
        return false;
    }
    let tail = sub_chars(s, s.len() - p.len(), s.len());
    assert(tail@ =~= s@.skip(s@.len() - p@.len()));
    chars_equal(tail.as_slice(), p)
}

} // verus!

verus! {

/// Whether `c` has the Unicode `White_Space` property, which is what
/// `char::is_whitespace` tests.
pub open spec fn spec_is_whitespace(c: char) -> bool {
    let v = c as u32;
    (0x9 <= v <= 0xd) || v == 0x20 || v == 0x85 || v == 0xa0 || v == 0x1680 || (0x2000 <= v
        <= 0x200a) || v == 0x2028 || v == 0x2029 || v == 0x202f || v == 0x205f || v == 0x3000
}

/// Whether `c` is Unicode white space.
pub fn is_whitespace(c: char) -> (r: bool)
    ensures
        r == spec_is_whitespace(c),
{
    let v = c as u32;
    (0x9 <= v && v <= 0xd) || v == 0x20 || v == 0x85 || v == 0xa0 || v == 0x1680 || (0x2000 <= v
        && v <= 0x200a) || v == 0x2028 || v == 0x2029 || v == 0x202f || v == 0x205f || v == 0x3000
}

/// The maximal runs of non-white-space characters of `s`, in order, as
/// `str::split_whitespace` gives them.
pub open spec fn ws_tokens(s: Seq<char>) -> Seq<Seq<char>>
    decreases s.len(),
{
    if s.len() == 0 {
        seq![]
    } else {
        let prev = ws_tokens(s.drop_last());
        let c = s.last();
        if spec_is_whitespace(c) {
            prev
        } else if s.len() >= 2 && !spec_is_whitespace(s[s.len() - 2]) {
            prev.update(prev.len() - 1, prev.last().push(c))
        } else {
            prev.push(seq![c])
        }
    }
}

/// The pieces of `s` between occurrences of `c`, as `str::split` with a char
/// gives them (always at least one piece).
pub open spec fn split_char_spec(s: Seq<char>, c: char) -> Seq<Seq<char>>
    decreases s.len(),
{
    if s.len() == 0 {
        seq![seq![]]
    } else {
        let prev = split_char_spec(s.drop_last(), c);
        if s.last() == c {
            prev.push(seq![])
        } else {
            prev.update(prev.len() - 1, prev.last().push(s.last()))
        }
    }
}

/// `split_char_spec` never gives an empty list.
pub proof fn lemma_split_char_nonempty(s: Seq<char>, c: char)
    ensures
        split_char_spec(s, c).len() >= 1,
    decreases s.len(),
{
    if s.len() > 0 {
        lemma_split_char_nonempty(s.drop_last(), c);
    }
}

/// The views of a vector of character vectors.
pub open spec fn chars_views(v: Seq<Vec<char>>) -> Seq<Seq<char>> {
    v.map_values(|t: Vec<char>| t@)
}

/// A sequence that ends in a non-white-space character has a token.
pub proof fn lemma_ws_tokens_nonempty(s: Seq<char>)
    requires
        s.len() > 0,
        !spec_is_whitespace(s.last()),
    ensures
        ws_tokens(s).len() >= 1,
    decreases s.len(),
{
    if s.len() >= 2 && !spec_is_whitespace(s[s.len() - 2]) {
        lemma_ws_tokens_nonempty(s.drop_last());
    }
}

/// Splits `chars` into its maximal runs of non-white-space characters.
pub fn split_whitespace(chars: &[char]) -> (r: Vec<Vec<char>>)
    ensures
        chars_views(r@) == ws_tokens(chars@),
{
    let mut tokens: Vec<Vec<char>> = Vec::new();
    let mut i: usize = 0;
    while i < chars.len()
        invariant
            i <= chars@.len(),
            chars_views(tokens@) == ws_tokens(chars@.take(i as int)),
        decreases chars@.len() - i,
    {
        let c = chars[i];
        let ghost prev = chars@.take(i as int);
        assert(chars@.take(i + 1).drop_last() =~= prev);
        if is_whitespace(c) {
        } else if i > 0 && !is_whitespace(chars[i - 1]) {
            assert(prev.len() >= 1 && prev.last() == chars@[i - 1]);
            proof {
                lemma_ws_tokens_nonempty(prev);
            }
            let mut t = tokens.pop().unwrap();
            t.push(c);
            tokens.push(t);
            assert(chars_views(tokens@) =~= ws_tokens(prev).update(
                ws_tokens(prev).len() - 1,
                ws_tokens(prev).last().push(c),
            ));
        } else {
            let mut t: Vec<char> = Vec::new();
            t.push(c);
            tokens.push(t);
            assert(chars_views(tokens@) =~= ws_tokens(prev).push(seq![c]));
        }
        i += 1;
    }
    assert(chars@.take(i as int) =~= chars@);
    tokens
}

/// Splits `chars` at every occurrence of `c`.
pub fn split_char(chars: &[char], c: char) -> (r: Vec<Vec<char>>)
    ensures
        chars_views(r@) == split_char_spec(chars@, c),
{
    let mut parts: Vec<Vec<char>> = Vec::new();
    parts.push(Vec::new());
    assert(chars_views(parts@) =~= seq![seq![]]);
    assert(chars@.take(0) =~= Seq::<char>::empty());
    let mut i: usize = 0;
    while i < chars.len()
        invariant
            i <= chars@.len(),
            chars_views(parts@) == split_char_spec(chars@.take(i as int), c),
        decreases chars@.len() - i,
    {
        let ghost prev = chars@.take(i as int);
        assert(chars@.take(i + 1).drop_last() =~= prev);
        proof {
            lemma_split_char_nonempty(prev, c);
        }
        let x = chars[i];
        if x == c {
            parts.push(Vec::new());
            assert(chars_views(parts@) =~= split_char_spec(prev, c).push(seq![]));
        } else {
            let mut t = parts.pop().unwrap();
            t.push(x);
            parts.push(t);
            assert(chars_views(parts@) =~= split_char_spec(prev, c).update(
                split_char_spec(prev, c).len() - 1,
                split_char_spec(prev, c).last().push(x),
            ));
        }
        i += 1;
    }
    assert(chars@.take(i as int) =~= chars@);
    parts
}

/// `tokens` joined with `sep` between consecutive items.
pub open spec fn join_with(tokens: Seq<Seq<char>>, sep: char) -> Seq<char>
    decreases tokens.len(),
{
    if tokens.len() == 0 {
        seq![]
    } else if tokens.len() == 1 {
        tokens[0]
    } else {
        join_with(tokens.drop_last(), sep) + seq![sep] + tokens.last()
    }
}

/// Joins `tokens[from..]` with `sep` between consecutive items.
pub fn join_from(tokens: &Vec<Vec<char>>, from: usize, sep: char) -> (r: Vec<char>)
    requires
        from <= tokens@.len(),
    ensures
        r@ == join_with(chars_views(tokens@).skip(from as int), sep),
{
    let mut r: Vec<char> = Vec::new();
    let mut i: usize = from;
    assert(chars_views(tokens@).subrange(from as int, from as int) =~= Seq::<Seq<char>>::empty());
    while i < tokens.len()
        invariant
            from <= i <= tokens@.len(),
            r@ == join_with(chars_views(tokens@).subrange(from as int, i as int), sep),
        decreases tokens@.len() - i,
    {
        let ghost before = chars_views(tokens@).subrange(from as int, i as int);
        let ghost after = chars_views(tokens@).subrange(from as int, i + 1);
        assert(after.drop_last() =~= before);
        assert(after.last() == tokens@[i as int]@);
        if i > from {
            r.push(sep);
        }
        let mut j: usize = 0;
        let ghost r0 = r@;
        while j < tokens[i].len()
            invariant
                i < tokens@.len(),
                j <= tokens@[i as int]@.len(),
                r@ == r0 + tokens@[i as int]@.take(j as int),
            decreases tokens@[i as int]@.len() - j,
        {
            assert(tokens@[i as int]@.take(j + 1) =~= tokens@[i as int]@.take(j as int).push(
                tokens@[i as int]@[j as int],
            ));
            r.push(tokens[i][j]);
            j += 1;
        }
        assert(tokens@[i as int]@.take(j as int) =~= tokens@[i as int]@);
        if i == from {
            assert(after.len() == 1);
            assert(r@ =~= join_with(after, sep));
        } else {
            assert(r@ =~= join_with(after, sep));
        }
        i += 1;
    }
    assert(chars_views(tokens@).subrange(from as int, i as int) =~= chars_views(tokens@).skip(
        from as int,
    ));
    r
}

/// The value of a hexadecimal digit, or `None` for any other character.
pub open spec fn hex_digit_value(c: char) -> Option<nat> {
    if '0' <= c <= '9' {
        Some((c as u32 - '0' as u32) as nat)
    } else if 'a' <= c <= 'f' {
        Some((c as u32 - 'a' as u32 + 10) as nat)
    } else if 'A' <= c <= 'F' {
        Some((c as u32 - 'A' as u32 + 10) as nat)
    } else {
        None
    }
}

/// Whether every character of `s` is a hexadecimal digit.
pub open spec fn all_hex(s: Seq<char>) -> bool {
    forall|i: int| 0 <= i < s.len() ==> (#[trigger] hex_digit_value(s[i])) is Some
}

/// The value of the hexadecimal digits `s`.
pub open spec fn hex_value(s: Seq<char>) -> nat
    decreases s.len(),
{
    if s.len() == 0 {
        0
    } else {
        hex_value(s.drop_last()) * 16 + hex_digit_value(s.last()).unwrap_or(0)
    }
}

/// What `usize::from_str_radix(s, 16)` accepts: an optional `+`, then one or
/// more hexadecimal digits whose value fits in a `usize`.
pub open spec fn spec_parse_hex(s: Seq<char>) -> Option<usize> {
    let d = if s.len() > 0 && s[0] == '+' {
        s.skip(1)
    } else {
        s
    };
    if d.len() == 0 || !all_hex(d) || hex_value(d) > usize::MAX {
        None
    } else {
        Some(hex_value(d) as usize)
    }
}

/// The value of hexadecimal digits is at least that of any prefix.
pub proof fn lemma_hex_value_prefix(s: Seq<char>, k: int)
    requires
        0 <= k <= s.len(),
    ensures
        hex_value(s) >= hex_value(s.take(k)),
    decreases s.len(),
{
    if k < s.len() {
        assert(s.drop_last().take(k) =~= s.take(k));
        lemma_hex_value_prefix(s.drop_last(), k);
    } else {
        assert(s.take(k) =~= s);
    }
}

/// Parses a hexadecimal `usize` as `usize::from_str_radix(s, 16)` does.
pub fn parse_hex_usize(s: &[char]) -> (r: Option<usize>)
    ensures
        r == spec_parse_hex(s@),
{
    let start: usize = if s.len() > 0 && s[0] == '+' {
        1
    } else {
        0
    };
    let ghost d = s@.skip(start as int);
    assert(d =~= if s@.len() > 0 && s@[0] == '+' {
        s@.skip(1)
    } else {
        s@
    });
    if start == s.len() {
        return None;
    }
    let mut acc: usize = 0;
    let mut i: usize = start;
    while i < s.len()
        invariant
            start <= i <= s@.len(),
            start < s@.len(),
            d == s@.skip(start as int),
            d == (if s@.len() > 0 && s@[0] == '+' {
                s@.skip(1)
            } else {
                s@
            }),
            all_hex(d.take(i - start)),
            acc == hex_value(d.take(i - start)),
        decreases s@.len() - i,
    {
        let c = s[i];
        let digit: usize;
        if '0' <= c && c <= '9' {
            digit = (c as u32 - '0' as u32) as usize;
        } else if 'a' <= c && c <= 'f' {
            digit = (c as u32 - 'a' as u32 + 10) as usize;
        } else if 'A' <= c && c <= 'F' {
            digit = (c as u32 - 'A' as u32 + 10) as usize;
        } else {
            assert(d[i - start] == c);
            assert(hex_digit_value(d[i - start]) is None);
            assert(!all_hex(d));
            return None;
        }
        let ghost next = d.take(i - start + 1);
        assert(next.drop_last() =~= d.take(i - start));
        assert(next.last() == c);
        assert(hex_value(next) == acc * 16 + digit);
        assert forall|j: int| 0 <= j < next.len() implies (#[trigger] hex_digit_value(
            next[j],
        )) is Some by {
            if j < next.len() - 1 {
                assert(next[j] == d.take(i - start)[j]);
            }
        }
        if acc > (usize::MAX - digit) / 16 {
            proof {
                lemma_hex_value_prefix(d, i - start + 1);
                assert(acc * 16 + digit > usize::MAX) by (nonlinear_arith)
                    requires
                        acc > (usize::MAX - digit) / 16,
                        digit < 16,
                ;
            }
            return None;
        }
        assert(acc * 16 + digit <= usize::MAX) by (nonlinear_arith)
            requires
                acc <= (usize::MAX - digit) / 16,
                digit < 16,
        ;
        acc = acc * 16 + digit;
        i += 1;
    }
    assert(d.take(i - start) =~= d);
    Some(acc)
}

/// The bytes before the first NUL of `name`, or all of them when it holds
/// no NUL.
pub open spec fn nul_prefix(name: Seq<u8>) -> Seq<u8>
    decreases name.len(),
{
    if name.len() == 0 {
        name
    } else if name[0] == 0 {
        Seq::empty()
    } else {
        seq![name[0]] + nul_prefix(name.drop_first())
    }
}

/// Length of `name_prefix`.
pub open spec fn nul_prefix_len(name: Seq<u8>) -> nat
    decreases name.len(),
{
    if name.len() == 0 {
        0
    } else if name[0] == 0 {
        0
    } else {
        1 + nul_prefix_len(name.drop_first())
    }
}

/// `nul_prefix` is the part before the first NUL.
pub proof fn lemma_nul_prefix(name: Seq<u8>)
    ensures
        nul_prefix_len(name) <= name.len(),
        nul_prefix(name) == name.take(nul_prefix_len(name) as int),
        forall|j: int| 0 <= j < nul_prefix_len(name) ==> name[j] != 0,
        nul_prefix_len(name) < name.len() ==> name[nul_prefix_len(name) as int] == 0,
    decreases name.len(),
{
    if name.len() > 0 && name[0] != 0 {
        lemma_nul_prefix(name.drop_first());
        assert(seq![name[0]] + name.drop_first().take(nul_prefix_len(name.drop_first()) as int)
            =~= name.take(nul_prefix_len(name) as int));
        assert forall|j: int| 0 <= j < nul_prefix_len(name) implies name[j] != 0 by {
            if j > 0 {
                assert(name[j] == name.drop_first()[j - 1]);
            }
        }
    } else if name.len() > 0 {
        assert(name.take(0) =~= Seq::<u8>::empty());
    } else {
        assert(name.take(0) =~= name);
    }
}

/// The index of the first NUL at or after `start`, if there is one.
pub fn find_nul(data: &[u8], start: usize) -> (r: Option<usize>)
    requires
        start <= data@.len(),
    ensures
        match r {
            Some(i) => nul_prefix_len(data@.skip(start as int)) < data@.len() - start && i == start
                + nul_prefix_len(data@.skip(start as int)),
            None => nul_prefix_len(data@.skip(start as int)) == data@.len() - start,
        },
{
    let ghost rest = data@.skip(start as int);
    proof {
        lemma_nul_prefix(rest);
    }
    let mut i: usize = start;
    while i < data.len()
        invariant
            start <= i <= data@.len(),
            rest == data@.skip(start as int),
            i - start <= nul_prefix_len(rest),
            nul_prefix_len(rest) <= rest.len(),
            nul_prefix_len(rest) < rest.len() ==> rest[nul_prefix_len(rest) as int] == 0,
            forall|j: int| 0 <= j < nul_prefix_len(rest) ==> rest[j] != 0,
        decreases data@.len() - i,
    {
        assert(rest[i - start] == data@[i as int]);
        if data[i] == 0 {
            return Some(i);
        }
        i += 1;
    }
    None
}

/// The text of an optional string.
pub open spec fn opt_view(s: Option<String>) -> Option<Seq<char>> {
    match s {
        Some(t) => Some(t@),
        None => None,
    }
}

/// The UTF-8 bytes of `s` followed by a NUL, as C functions take a name.
pub fn c_string(s: &str) -> (r: Vec<u8>)
    ensures
        r@ == s.spec_bytes().push(0),
{
    let bytes = s.as_bytes();
    let mut r: Vec<u8> = Vec::new();
    let mut i: usize = 0;
    while i < bytes.len()
        invariant
            i <= bytes@.len(),
            bytes@ == s.spec_bytes(),
            r@ == bytes@.take(i as int),
        decreases bytes@.len() - i,
    {
        r.push(bytes[i]);
        i += 1;
        assert(r@ =~= bytes@.take(i as int));
    }
    r.push(0);
    assert(bytes@.take(bytes@.len() as int) =~= bytes@);
    r
}

/// The lowercase hexadecimal digit of `d`.
pub open spec fn hex_char(d: nat) -> char {
    if d < 10 {
        (('0' as nat) + d) as char
    } else {
        (('a' as nat) + (d - 10)) as char
    }
}

/// The lowercase hexadecimal digits of `v`, without leading zeros.
pub open spec fn spec_hex(v: nat) -> Seq<char>
    decreases v,
{
    if v < 16 {
        seq![hex_char(v)]
    } else {
        spec_hex(v / 16).push(hex_char(v % 16))
    }
}

/// `v` in hexadecimal after `0x`, zero-padded after the prefix to at least
/// `width` characters, as `{:#0<width>x}` formats it.
pub open spec fn spec_hex_padded(v: nat, width: nat) -> Seq<char> {
    let digits = spec_hex(v);
    let zeros: nat = if 2 + digits.len() < width {
        (width - 2 - digits.len()) as nat
    } else {
        0
    };
    "0x"@ + Seq::new(zeros, |i: int| '0') + digits
}

fn hex_digit(d: u64) -> (c: char)
    requires
        d < 16,
    ensures
        c == hex_char(d as nat),
{
    let digits: [char; 16] = ['0', '1', '2', '3', '4', '5', '6', '7', '8', '9', 'a', 'b', 'c', 'd', 'e', 'f'];
    let c = digits[d as usize];
    assert(c == hex_char(d as nat)) by {
        assert(digits@[d as int] == c);
    }
    c
}

/// `v` in hexadecimal; see `spec_hex_padded`.
pub fn hex_string(v: u64, width: usize) -> (r: String)
    ensures
        r@ == spec_hex_padded(v as nat, width as nat),
{
    proof {
        reveal_strlit("0x");
    }
    let mut low: Vec<char> = Vec::new();
    let mut rest: u64 = v;
    while rest >= 16
        invariant
            spec_hex(v as nat) == spec_hex(rest as nat) + low@.reverse(),
        decreases rest,
    {
        let c = hex_digit(rest % 16);
        proof {
            assert(low@.push(c).reverse() =~= seq![c] + low@.reverse());
            assert(spec_hex(rest as nat) == spec_hex((rest / 16) as nat).push(c));
            assert(spec_hex((rest / 16) as nat).push(c) + low@.reverse() =~= spec_hex((rest / 16) as nat)
                + low@.push(c).reverse());
        }
        low.push(c);
        rest = rest / 16;
    }
    let mut out: Vec<char> = Vec::new();
    out.push('0');
    out.push('x');
    let mut pad: usize = 0;
    let zeros: usize = if width >= 3 && low.len() < width - 3 {
        width - 3 - low.len()
    } else {
        0
    };
    while pad < zeros
        invariant
            pad <= zeros,
            out@ =~= "0x"@ + Seq::new(pad as nat, |i: int| '0'),
        decreases zeros - pad,
    {
        out.push('0');
        pad += 1;
    }
    out.push(hex_digit(rest));
    let mut k: usize = low.len();
    while k > 0
        invariant
            k <= low@.len(),
            out@ =~= "0x"@ + Seq::new(zeros as nat, |i: int| '0') + seq![hex_char(rest as nat)]
                + low@.reverse().take((low@.len() - k) as int),
        decreases k,
    {
        k -= 1;
        proof {
            assert(low@.reverse().take((low@.len() - k) as int) =~= low@.reverse().take(
                (low@.len() - k - 1) as int,
            ).push(low@[k as int]));
        }
        out.push(low[k]);
    }
    proof {
        assert(low@.reverse().take(low@.len() as int) =~= low@.reverse());
        assert(spec_hex(rest as nat) =~= seq![hex_char(rest as nat)]);
        assert(spec_hex(v as nat).len() == low@.len() + 1);
    }
    string_from_chars(out.as_slice())
}


/// The decimal digit of `d`.
pub open spec fn decimal_char(d: nat) -> char {
    (('0' as nat) + d) as char
}

/// The decimal digits of `v`, without leading zeros, as `{}` formats it.
pub open spec fn spec_decimal(v: nat) -> Seq<char>
    decreases v,
{
    if v < 10 {
        seq![decimal_char(v)]
    } else {
        spec_decimal(v / 10).push(decimal_char(v % 10))
    }
}

fn decimal_digit(d: u64) -> (c: char)
    requires
        d < 10,
    ensures
        c == decimal_char(d as nat),
{
    let digits: [char; 10] = ['0', '1', '2', '3', '4', '5', '6', '7', '8', '9'];
    let c = digits[d as usize];
    assert(c == decimal_char(d as nat)) by {
        assert(digits@[d as int] == c);
    }
    c
}

/// `v` in decimal; see `spec_decimal`.
pub fn decimal_string(v: u64) -> (r: String)
    ensures
        r@ == spec_decimal(v as nat),
{
    let mut low: Vec<char> = Vec::new();
    let mut rest: u64 = v;
    while rest >= 10
        invariant
            spec_decimal(v as nat) == spec_decimal(rest as nat) + low@.reverse(),
        decreases rest,
    {
        let c = decimal_digit(rest % 10);
        proof {
            assert(low@.push(c).reverse() =~= seq![c] + low@.reverse());
            assert(spec_decimal(rest as nat) == spec_decimal((rest / 10) as nat).push(c));
            assert(spec_decimal((rest / 10) as nat).push(c) + low@.reverse() =~= spec_decimal(
                (rest / 10) as nat,
            ) + low@.push(c).reverse());
        }
        low.push(c);
        rest = rest / 10;
    }
    let mut out: Vec<char> = Vec::new();
    out.push(decimal_digit(rest));
    let mut k: usize = low.len();
    while k > 0
        invariant
            k <= low@.len(),
            out@ =~= seq![decimal_char(rest as nat)] + low@.reverse().take((low@.len() - k) as int),
        decreases k,
    {
        k -= 1;
        proof {
            assert(low@.reverse().take((low@.len() - k) as int) =~= low@.reverse().take(
                (low@.len() - k - 1) as int,
            ).push(low@[k as int]));
        }
        out.push(low[k]);
    }
    proof {
        assert(low@.reverse().take(low@.len() as int) =~= low@.reverse());
        assert(spec_decimal(rest as nat) =~= seq![decimal_char(rest as nat)]);
    }
    string_from_chars(out.as_slice())
}

/// `parts` joined by `sep`: empty for no part, the part itself for one.
pub open spec fn spec_join(parts: Seq<Seq<char>>, sep: Seq<char>) -> Seq<char>
    decreases parts.len(),
{
    if parts.len() == 0 {
        Seq::empty()
    } else if parts.len() == 1 {
        parts[0]
    } else {
        spec_join(parts.drop_last(), sep) + sep + parts.last()
    }
}

/// The views of `v`.
pub open spec fn string_views(v: Seq<String>) -> Seq<Seq<char>> {
    v.map_values(|s: String| s@)
}

/// `parts` joined by `sep`; see `spec_join`.
pub fn join_strings(parts: &Vec<String>, sep: &str) -> (r: String)
    ensures
        r@ == spec_join(string_views(parts@), sep@),
{
    let mut out = String::new();
    let mut i: usize = 0;
    while i < parts.len()
        invariant
            i <= parts@.len(),
            out@ == spec_join(string_views(parts@).take(i as int), sep@),
        decreases parts@.len() - i,
    {
        proof {
            assert(string_views(parts@).take(i + 1).drop_last() =~= string_views(parts@).take(i as int));
            assert(string_views(parts@).take(i + 1).last() == parts@[i as int]@);
        }
        if i > 0 {
            out.append(sep);
        } else {
            proof {
                assert(string_views(parts@).take(1) =~= seq![parts@[0]@]);
                assert(Seq::<char>::empty() + parts@[0]@ =~= parts@[0]@);
            }
        }
        out.append(parts[i].as_str());
        i += 1;
    }
    proof {
        assert(string_views(parts@).take(parts@.len() as int) =~= string_views(parts@));
    }
    out
}

} // verus!
