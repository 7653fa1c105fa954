//! Character-level helpers and the std calls the library makes on text.

use vstd::prelude::*;

verus! {

/// Whether `c` has the Unicode `White_Space` property (the property `char::is_whitespace`
/// tests): tab through carriage return, space, next line, no-break space, ogham space mark,
/// en quad through hair space, the line and paragraph separators, narrow no-break space,
/// medium mathematical space and ideographic space.
pub open spec fn white_space(c: char) -> bool {
    let u = c as u32;
    (0x9 <= u && u <= 0xd) || u == 0x20 || u == 0x85 || u == 0xa0 || u == 0x1680 || (0x2000 <= u
        && u <= 0x200a) || u == 0x2028 || u == 0x2029 || u == 0x202f || u == 0x205f || u == 0x3000
}

/// Whether `c` is in the general category Cc, control codes (what `char::is_control` tests):
/// U+0000 to U+001F and U+007F to U+009F.
pub open spec fn control_char(c: char) -> bool {
    let u = c as u32;
    u <= 0x1f || (0x7f <= u && u <= 0x9f)
}

/// Lowercase of an ASCII character: `A` to `Z` become `a` to `z`, others stay.
pub open spec fn ascii_lower(c: char) -> char {
    let u = c as u32;
    if 0x41 <= u && u <= 0x5a {
        (u + 0x20) as char
    } else {
        c
    }
}

/// The lowercase of `s`: character by character for ASCII text, else the named Unicode
/// mapping.
pub open spec fn lowered(s: Seq<char>) -> Seq<char> {
    if ascii(s) {
        s.map_values(|c: char| ascii_lower(c))
    } else {
        lowercase_of(s)
    }
}

/// Every character of `s` is ASCII.
pub open spec fn ascii(s: Seq<char>) -> bool {
    forall|i: int| 0 <= i < s.len() ==> (#[trigger] s[i] as u32) < 0x80
}

/// The full Unicode lowercase mapping of a string, as `str::to_lowercase` computes it.
pub uninterp spec fn lowercase_of(s: Seq<char>) -> Seq<char>;

/// Whether `c` is white space.
pub(crate) fn is_white_space(c: char) -> (b: bool)
    ensures
        b == white_space(c),
{
    let u = c as u32;
    (0x9 <= u && u <= 0xd) || u == 0x20 || u == 0x85 || u == 0xa0 || u == 0x1680 || (0x2000 <= u
        && u <= 0x200a) || u == 0x2028 || u == 0x2029 || u == 0x202f || u == 0x205f || u == 0x3000
}

/// Whether `c` is a control character.
pub(crate) fn is_control_char(c: char) -> (b: bool)
    ensures
        b == control_char(c),
{
    let u = c as u32;
    u <= 0x1f || (0x7f <= u && u <= 0x9f)
}

/// Calls `str::to_lowercase`; the result is the named lowercase mapping of `s`. The Unicode
/// lowercase mapping of an ASCII character is its ASCII lowercase, so an all-ASCII string is
/// lowercased character by character.
#[verifier::external_body]
pub(crate) fn lowercase(s: &str) -> (res: String)
    ensures
        res@ == lowercase_of(s@),
        ascii(s@) ==> res@ == s@.map_values(|c: char| ascii_lower(c)),
        res@ == lowered(s@),
{
    s.to_lowercase()
}

/// Calls `String::push`, which appends one character.
#[verifier::external_body]
pub(crate) fn push_char(s: &mut String, c: char)
    ensures
        final(s)@ == old(s)@.push(c),
{
    s.push(c)
}

/// The views of a sequence of strings.
pub open spec fn views(v: Seq<String>) -> Seq<Seq<char>> {
    v.map_values(|s: String| s@)
}

/// Every character of `s` is white space (true of the empty string).
pub open spec fn all_white(s: Seq<char>) -> bool {
    forall|i: int| 0 <= i < s.len() ==> #[trigger] white_space(s[i])
}

/// Some character of `s` is white space.
pub open spec fn any_white(s: Seq<char>) -> bool {
    exists|i: int| 0 <= i < s.len() && #[trigger] white_space(s[i])
}

/// `needle` occurs in `hay` as a contiguous run of characters.
pub open spec fn occurs_in(needle: Seq<char>, hay: Seq<char>) -> bool {
    exists|i: int|
        0 <= i && i + needle.len() <= hay.len() && #[trigger] hay.subrange(i, i + needle.len())
            == needle
}

/// The decimal digit character for `d < 10`.
pub open spec fn digit(d: nat) -> char {
    if d == 0 {
        '0'
    } else if d == 1 {
        '1'
    } else if d == 2 {
        '2'
    } else if d == 3 {
        '3'
    } else if d == 4 {
        '4'
    } else if d == 5 {
        '5'
    } else if d == 6 {
        '6'
    } else if d == 7 {
        '7'
    } else if d == 8 {
        '8'
    } else {
        '9'
    }
}

/// The decimal notation of `n`, without leading zeros, as `Display` writes an unsigned integer.
pub open spec fn decimal_of(n: nat) -> Seq<char>
    decreases n,
{
    if n < 10 {
        seq![digit(n)]
    } else {
        decimal_of(n / 10).push(digit(n % 10))
    }
}

/// `n` copies of `c`.
pub open spec fn repeated(c: char, n: nat) -> Seq<char> {
    Seq::new(n, |i: int| c)
}

/// The characters of a string, in order.
pub fn chars_of(s: &str) -> (res: Vec<char>)
    ensures
        res@ == s@,
{
    let mut res: Vec<char> = Vec::new();
    for c in it: s.chars()
        invariant
            res@ == it.seq().take(it.index() as int),
    {
        res.push(c);
    }
    res
}

/// The string made of the given characters.
pub fn string_of(cs: &[char]) -> (res: String)
    ensures
        res@ == cs@,
{
    let mut res = String::new();
    let n = cs.len();
    for i in 0..n
        invariant
            n == cs@.len(),
            res@ == cs@.take(i as int),
    {
        push_char(&mut res, cs[i]);
        assert(cs@.take(i as int).push(cs@[i as int]) =~= cs@.take(i + 1));
    }
    assert(cs@.take(n as int) =~= cs@);
    res
}

/// Whether every character of `s` is white space; true of the empty string.
pub fn is_blank(s: &str) -> (b: bool)
    ensures
        b == all_white(s@),
{
    let cs = chars_of(s);
    let n = cs.len();
    for i in 0..n
        invariant
            n == cs@.len(),
            cs@ == s@,
            forall|j: int| 0 <= j < i ==> #[trigger] white_space(s@[j]),
    {
        if !is_white_space(cs[i]) {
            return false;
        }
    }
    true
}

/// Whether `needle` occurs in `hay`.
pub fn contains(hay: &str, needle: &str) -> (b: bool)
    ensures
        b == occurs_in(needle@, hay@),
{
    let h = chars_of(hay);
    let nd = chars_of(needle);
    let hn = h.len();
    let nn = nd.len();
    if nn > hn {
        return false;
    }
    let last = hn - nn;
    let mut i: usize = 0;
    while i <= last
        invariant
            h@ == hay@,
            nd@ == needle@,
            hn == h@.len(),
            nn == nd@.len(),
            last == hn - nn,
            forall|k: int| 0 <= k < i ==> #[trigger] hay@.subrange(k, k + nn) != needle@,
        decreases last + 1 - i,
    {
        let mut j: usize = 0;
        let mut same = true;
        while j < nn
            invariant
                h@ == hay@,
                nd@ == needle@,
                hn == h@.len(),
                nn == nd@.len(),
                i + nn <= hn,
                j <= nn,
                same == (forall|t: int| 0 <= t < j ==> h@[i + t] == nd@[t]),
            decreases nn - j,
        {
            if h[i + j] != nd[j] {
                same = false;
            }
            j += 1;
        }
        if same {
            assert(hay@.subrange(i as int, i + nn) =~= needle@);
            return true;
        }
        assert(hay@.subrange(i as int, i + nn) != needle@) by {
            let t = choose|t: int| 0 <= t < nn && h@[i + t] != nd@[t];
            assert(hay@.subrange(i as int, i + nn)[t] == h@[i + t]);
        }
        i += 1;
    }
    assert forall|k: int|
        0 <= k && k + needle@.len() <= hay@.len() implies #[trigger] hay@.subrange(
        k,
        k + needle@.len(),
    ) != needle@ by {
        assert(k < i);
    }
    false
}

/// Whether `prefix` is a prefix of `s`.
pub fn starts_with(s: &str, prefix: &str) -> (b: bool)
    ensures
        b == prefix@.is_prefix_of(s@),
{
    let cs = chars_of(s);
    let ps = chars_of(prefix);
    if ps.len() > cs.len() {
        return false;
    }
    let n = ps.len();
    for i in 0..n
        invariant
            cs@ == s@,
            ps@ == prefix@,
            n == ps@.len(),
            n <= cs@.len(),
            forall|j: int| 0 <= j < i ==> ps@[j] == cs@[j],
    {
        if cs[i] != ps[i] {
            return false;
        }
    }
    true
}

/// The decimal digit character for `d < 10`.
fn digit_char(d: usize) -> (c: char)
    requires
        d < 10,
    ensures
        c == digit(d as nat),
{
    if d == 0 {
        '0'
    } else if d == 1 {
        '1'
    } else if d == 2 {
        '2'
    } else if d == 3 {
        '3'
    } else if d == 4 {
        '4'
    } else if d == 5 {
        '5'
    } else if d == 6 {
        '6'
    } else if d == 7 {
        '7'
    } else if d == 8 {
        '8'
    } else {
        '9'
    }
}

/// The decimal notation of `n`.
pub fn decimal(n: usize) -> (res: String)
    ensures
        res@ == decimal_of(n as nat),
{
    let digits = decimal_chars(n);
    string_of(digits.as_slice())
}

fn decimal_chars(n: usize) -> (res: Vec<char>)
    ensures
        res@ == decimal_of(n as nat),
    decreases n,
{
    if n < 10 {
        let mut v = Vec::new();
        v.push(digit_char(n));
        v
    } else {
        let mut v = decimal_chars(n / 10);
        v.push(digit_char(n % 10));
        v
    }
}

/// `n` copies of `c` as a string.
pub fn repeat_char(c: char, n: usize) -> (res: String)
    ensures
        res@ == repeated(c, n as nat),
{
    let mut res = String::new();
    for i in 0..n
        invariant
            res@ == repeated(c, i as nat),
    {
        push_char(&mut res, c);
        assert(repeated(c, i as nat).push(c) =~= repeated(c, (i + 1) as nat));
    }
    res
}

} // verus!

verus! {

/// Whether two strings hold the same characters.
pub fn same_text(a: &str, b: &str) -> (r: bool)
    ensures
        r == (a@ == b@),
{
    let x = chars_of(a);
    let y = chars_of(b);
    if x.len() != y.len() {
        return false;
    }
    let n = x.len();
    for i in 0..n
        invariant
            x@ == a@,
            y@ == b@,
            n == x@.len(),
            n == y@.len(),
            forall|j: int| 0 <= j < i ==> x@[j] == y@[j],
    {
        if x[i] != y[i] {
            return false;
        }
    }
    assert(x@ =~= y@);
    true
}

/// Whether some character of `s` is white space.
pub fn has_white_space(s: &str) -> (r: bool)
    ensures
        r == any_white(s@),
{
    let cs = chars_of(s);
    let n = cs.len();
    for i in 0..n
        invariant
            n == cs@.len(),
            cs@ == s@,
            forall|j: int| 0 <= j < i ==> !#[trigger] white_space(s@[j]),
    {
        if is_white_space(cs[i]) {
            return true;
        }
    }
    false
}

/// The indices below `n` that satisfy `p`, in increasing order.
pub open spec fn indices_where(n: nat, p: spec_fn(int) -> bool) -> Seq<int>
    decreases n,
{
    if n == 0 {
        Seq::empty()
    } else if p(n - 1) {
        indices_where((n - 1) as nat, p).push(n - 1)
    } else {
        indices_where((n - 1) as nat, p)
    }
}

/// A vector of indices read as integers.
pub open spec fn as_ints(v: Seq<usize>) -> Seq<int> {
    v.map_values(|i: usize| i as int)
}

/// Every index that `indices_where` yields lies below `n` and satisfies `p`.
pub proof fn lemma_indices_where(n: nat, p: spec_fn(int) -> bool)
    ensures
        forall|k: int|
            0 <= k < indices_where(n, p).len() ==> 0 <= #[trigger] indices_where(n, p)[k] < n
                && p(indices_where(n, p)[k]),
        indices_where(n, p).len() <= n,
    decreases n,
{
    if n > 0 {
        lemma_indices_where((n - 1) as nat, p);
    }
}

} // verus!

verus! {

/// Line breaks folded into spaces: each CR LF pair, and each CR or LF on its own, becomes one
/// space; tabs become spaces too when `tabs` holds.
pub open spec fn folded(s: Seq<char>, tabs: bool) -> Seq<char>
    decreases s.len(),
{
    if s.len() == 0 {
        Seq::empty()
    } else if s.len() >= 2 && s[0] == '\r' && s[1] == '\n' {
        seq![' '] + folded(s.skip(2), tabs)
    } else {
        let c = if s[0] == '\r' || s[0] == '\n' || (tabs && s[0] == '\t') {
            ' '
        } else {
            s[0]
        };
        seq![c] + folded(s.skip(1), tabs)
    }
}

/// Folded text holds no line feed.
pub proof fn lemma_folded_single_line(s: Seq<char>, tabs: bool)
    ensures
        !folded(s, tabs).contains('\n'),
        !folded(s, tabs).contains('\r'),
        tabs ==> !folded(s, tabs).contains('\t'),
    decreases s.len(),
{
    if s.len() >= 2 && s[0] == '\r' && s[1] == '\n' {
        lemma_folded_single_line(s.skip(2), tabs);
        let r = folded(s.skip(2), tabs);
        assert forall|c: char| (seq![' '] + r).contains(c) implies c == ' ' || r.contains(c) by {
            let i = choose|i: int| 0 <= i < (seq![' '] + r).len() && (seq![' '] + r)[i] == c;
            if i > 0 {
                assert(r[i - 1] == c);
            }
        }
    } else if s.len() > 0 {
        lemma_folded_single_line(s.skip(1), tabs);
        let r = folded(s.skip(1), tabs);
        let c0 = if s[0] == '\r' || s[0] == '\n' || (tabs && s[0] == '\t') {
            ' '
        } else {
            s[0]
        };
        assert forall|c: char| (seq![c0] + r).contains(c) implies c == c0 || r.contains(c) by {
            let i = choose|i: int| 0 <= i < (seq![c0] + r).len() && (seq![c0] + r)[i] == c;
            if i > 0 {
                assert(r[i - 1] == c);
            }
        }
    }
}

/// Fold line breaks (and tabs, when asked) into spaces, as pasting into a one-line input does.
pub fn fold_line_breaks(s: &str, tabs: bool) -> (r: String)
    ensures
        r@ == folded(s@, tabs),
{
    let cs = chars_of(s);
    let n = cs.len();
    let mut r = String::new();
    let mut i: usize = 0;
    assert(s@.skip(0) =~= s@);
    while i < n
        invariant
            n == cs@.len(),
            cs@ == s@,
            i <= n,
            folded(s@, tabs) == r@ + folded(s@.skip(i as int), tabs),
        decreases n - i,
    {
        let ghost rest = s@.skip(i as int);
        if i + 1 < n && cs[i] == '\r' && cs[i + 1] == '\n' {
            push_char(&mut r, ' ');
            assert(rest.skip(2) =~= s@.skip(i + 2));
            assert(rest[0] == cs@[i as int] && rest[1] == cs@[i + 1]);
            i = i + 2;
        } else {
            let c = cs[i];
            let d = if c == '\r' || c == '\n' || (tabs && c == '\t') {
                ' '
            } else {
                c
            };
            push_char(&mut r, d);
            assert(rest.skip(1) =~= s@.skip(i + 1));
            assert(rest[0] == c);
            i = i + 1;
        }
    }
    assert(s@.skip(n as int) =~= Seq::<char>::empty());
    r
}

} // verus!
