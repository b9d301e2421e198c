//! Character-level text primitives shared by the exporters, the hub and the
//! notification code: whitespace per Unicode, trimming, line splitting,
//! searching, decimal and hexadecimal rendering, ASCII case folding.
use vstd::prelude::*;
use vstd::std_specs::iter::IteratorSpec;

verus! {

// ---------------------------------------------------------------------------
// Conversions between `str`/`String` and character buffers.
// ---------------------------------------------------------------------------

/// The characters of `s`, in order, read through `str::chars`.
pub(crate) fn chars_of(s: &str) -> (v: Vec<char>)
    ensures
        v@ == s@,
{
    broadcast use vstd::string::axiom_spec_iter, vstd::string::next_postcondition;
    let mut it = s.chars();
    let mut v: Vec<char> = Vec::new();
    assert(v@ + it.remaining() =~= s@);
    loop
        invariant
            v@ + it.remaining() == s@,
            it.decrease() is Some,
        decreases it.decrease()->0,
    {
        match it.next() {
            Some(c) => {
                v.push(c);
                assert(v@ + it.remaining() =~= s@);
            },
            None => {
                assert(v@ =~= s@);
                return v;
            },
        }
    }
}

/// Collects characters into a `String` through `FromIterator<char>`.
/// Claims: the string holds exactly the given characters, in order.
#[verifier::external_body]
pub(crate) fn string_of(v: &[char]) -> (s: String)
    ensures
        s@ == v@,
{
    v.iter().collect()
}

/// Appends the characters of `s` to `out`.
pub fn append_str(out: &mut Vec<char>, s: &str)
    ensures
        final(out)@ == old(out)@ + s@,
{
    let mut cs = chars_of(s);
    out.append(&mut cs);
}

/// Appends a character slice to `out`.
pub fn append_chars(out: &mut Vec<char>, s: &[char])
    ensures
        final(out)@ == old(out)@ + s@,
{
    let mut i: usize = 0;
    while i < s.len()
        invariant
            i <= s@.len(),
            out@ == old(out)@ + s@.take(i as int),
        decreases s@.len() - i,
    {
        out.push(s[i]);
        i = i + 1;
        assert(s@.take(i as int) =~= s@.take((i - 1) as int).push(s@[i - 1]));
    }
    assert(s@.take(s@.len() as int) =~= s@);
}

/// The characters `s[from..to]` as a new vector.
pub fn slice_chars(s: &[char], from: usize, to: usize) -> (r: Vec<char>)
    requires
        from <= to <= s@.len(),
    ensures
        r@ == s@.subrange(from as int, to as int),
{
    let mut r: Vec<char> = Vec::new();
    let mut i: usize = from;
    while i < to
        invariant
            from <= i <= to <= s@.len(),
            r@ == s@.subrange(from as int, i as int),
        decreases to - i,
    {
        r.push(s[i]);
        i = i + 1;
        assert(r@ =~= s@.subrange(from as int, i as int));
    }
    r
}

/// Whether two character sequences are equal.
pub fn chars_eq(a: &[char], b: &[char]) -> (r: bool)
    ensures
        r == (a@ == b@),
{
    if a.len() != b.len() {
        return false;
    }
    let mut i: usize = 0;
    while i < a.len()
        invariant
            a@.len() == b@.len(),
            i <= a@.len(),
            forall|k: int| 0 <= k < i ==> a@[k] == b@[k],
        decreases a@.len() - i,
    {
        if a[i] != b[i] {
            return false;
        }
        i = i + 1;
    }
    assert(a@ =~= b@);
    true
}

// ---------------------------------------------------------------------------
// Unicode whitespace, as `char::is_whitespace` documents it (White_Space).
// ---------------------------------------------------------------------------

/// The Unicode `White_Space` property.
pub open spec fn is_ws(c: char) -> bool {
    let u = c as u32;
    ||| 0x09 <= u <= 0x0d
    ||| u == 0x20
    ||| u == 0x85
    ||| u == 0xa0
    ||| u == 0x1680
    ||| 0x2000 <= u <= 0x200a
    ||| u == 0x2028
    ||| u == 0x2029
    ||| u == 0x202f
    ||| u == 0x205f
    ||| u == 0x3000
}

/// Decides the Unicode `White_Space` property of a character.
pub fn is_whitespace_char(c: char) -> (r: bool)
    ensures
        r == is_ws(c),
{
    let u = c as u32;
    (0x09 <= u && u <= 0x0d) || u == 0x20 || u == 0x85 || u == 0xa0 || u == 0x1680 || (0x2000
        <= u && u <= 0x200a) || u == 0x2028 || u == 0x2029 || u == 0x202f || u == 0x205f || u
        == 0x3000
}

/// Number of leading whitespace characters.
pub open spec fn leading_ws(s: Seq<char>) -> nat
    decreases s.len(),
{
    if s.len() > 0 && is_ws(s[0]) {
        1 + leading_ws(s.drop_first())
    } else {
        0
    }
}

/// Number of trailing whitespace characters.
pub open spec fn trailing_ws(s: Seq<char>) -> nat
    decreases s.len(),
{
    if s.len() > 0 && is_ws(s.last()) {
        1 + trailing_ws(s.drop_last())
    } else {
        0
    }
}

/// `str::trim_start`.
pub open spec fn trim_start(s: Seq<char>) -> Seq<char> {
    s.skip(leading_ws(s) as int)
}

/// `str::trim_end`.
pub open spec fn trim_end(s: Seq<char>) -> Seq<char> {
    s.take(s.len() - trailing_ws(s))
}

/// `str::trim`.
pub open spec fn trim(s: Seq<char>) -> Seq<char> {
    trim_end(trim_start(s))
}

/// Index of the first whitespace character, or `s.len()` when there is none.
pub open spec fn first_ws(s: Seq<char>) -> nat
    decreases s.len(),
{
    if s.len() == 0 {
        0
    } else if is_ws(s[0]) {
        0
    } else {
        1 + first_ws(s.drop_first())
    }
}

pub proof fn lemma_first_ws_unique(s: Seq<char>, i: nat)
    requires
        i <= s.len(),
        forall|k: int| 0 <= k < i ==> !is_ws(#[trigger] s[k]),
        i == s.len() || is_ws(s[i as int]),
    ensures
        first_ws(s) == i,
    decreases i,
{
    if i > 0 {
        let t = s.drop_first();
        assert forall|k: int| 0 <= k < i - 1 implies !is_ws(#[trigger] t[k]) by {
            assert(t[k] == s[k + 1]);
        }
        if i - 1 < t.len() {
            assert(t[i - 1] == s[i as int]);
        }
        lemma_first_ws_unique(t, (i - 1) as nat);
    }
}

/// Whether the text is empty once trimmed, i.e. made of whitespace only.
pub open spec fn is_blank(s: Seq<char>) -> bool {
    forall|k: int| 0 <= k < s.len() ==> is_ws(#[trigger] s[k])
}

pub proof fn lemma_leading_ws_is_prefix(s: Seq<char>, i: nat)
    requires
        i <= s.len(),
        forall|k: int| 0 <= k < i ==> is_ws(#[trigger] s[k]),
        i == s.len() || !is_ws(s[i as int]),
    ensures
        leading_ws(s) == i,
    decreases i,
{
    if i > 0 {
        let t = s.drop_first();
        assert forall|k: int| 0 <= k < i - 1 implies is_ws(#[trigger] t[k]) by {
            assert(t[k] == s[k + 1]);
        }
        if i - 1 < t.len() {
            assert(t[i - 1] == s[i as int]);
        }
        lemma_leading_ws_is_prefix(t, (i - 1) as nat);
    }
}

pub proof fn lemma_leading_ws_bounds(s: Seq<char>)
    ensures
        leading_ws(s) <= s.len(),
        forall|k: int| 0 <= k < leading_ws(s) ==> is_ws(#[trigger] s[k]),
        leading_ws(s) < s.len() ==> !is_ws(s[leading_ws(s) as int]),
    decreases s.len(),
{
    if s.len() > 0 && is_ws(s[0]) {
        let t = s.drop_first();
        lemma_leading_ws_bounds(t);
        assert forall|k: int| 0 <= k < leading_ws(s) implies is_ws(#[trigger] s[k]) by {
            if k > 0 {
                assert(s[k] == t[k - 1]);
            }
        }
        if leading_ws(s) < s.len() {
            assert(s[leading_ws(s) as int] == t[leading_ws(t) as int]);
        }
    }
}

pub proof fn lemma_trailing_ws_is_suffix(s: Seq<char>, i: nat)
    requires
        i <= s.len(),
        forall|k: int| s.len() - i <= k < s.len() ==> is_ws(#[trigger] s[k]),
        i == s.len() || !is_ws(s[s.len() - i - 1]),
    ensures
        trailing_ws(s) == i,
    decreases i,
{
    if i > 0 {
        let t = s.drop_last();
        assert forall|k: int| t.len() - (i - 1) <= k < t.len() implies is_ws(#[trigger] t[k]) by {
            assert(t[k] == s[k]);
        }
        if i - 1 < t.len() {
            assert(t[t.len() - (i - 1) - 1] == s[s.len() - i - 1]);
        }
        lemma_trailing_ws_is_suffix(t, (i - 1) as nat);
    }
}

pub proof fn lemma_trailing_ws_bounds(s: Seq<char>)
    ensures
        trailing_ws(s) <= s.len(),
        trailing_ws(s) < s.len() ==> !is_ws(s[s.len() - trailing_ws(s) - 1]),
    decreases s.len(),
{
    if s.len() > 0 && is_ws(s.last()) {
        let t = s.drop_last();
        lemma_trailing_ws_bounds(t);
        if trailing_ws(s) < s.len() {
            assert(s[s.len() - trailing_ws(s) - 1] == t[t.len() - trailing_ws(t) - 1]);
        }
    }
}

pub proof fn lemma_trim_idempotent(s: Seq<char>)
    ensures
        trim(trim(s)) == trim(s),
{
    let u = trim_start(s);
    lemma_leading_ws_bounds(s);
    lemma_trailing_ws_bounds(u);
    let t = trim(s);
    if t.len() > 0 {
        assert(t[0] == u[0]);
        assert(u[0] == s[leading_ws(s) as int]);
        assert(t[t.len() - 1] == u[u.len() - trailing_ws(u) - 1]);
    }
    lemma_leading_ws_is_prefix(t, 0);
    assert(trim_start(t) =~= t);
    lemma_trailing_ws_is_suffix(t, 0);
    assert(trim_end(t) =~= t);
}

/// Number of leading whitespace characters of `s`.
pub fn leading_ws_count(s: &[char]) -> (n: usize)
    ensures
        n == leading_ws(s@),
{
    let mut i: usize = 0;
    while i < s.len() && is_whitespace_char(s[i])
        invariant
            i <= s@.len(),
            forall|k: int| 0 <= k < i ==> is_ws(#[trigger] s@[k]),
        decreases s@.len() - i,
    {
        i = i + 1;
    }
    proof {
        lemma_leading_ws_is_prefix(s@, i as nat);
    }
    i
}

/// Number of trailing whitespace characters of `s`.
pub fn trailing_ws_count(s: &[char]) -> (n: usize)
    ensures
        n == trailing_ws(s@),
{
    let mut i: usize = 0;
    while i < s.len() && is_whitespace_char(s[s.len() - 1 - i])
        invariant
            i <= s@.len(),
            forall|k: int| s@.len() - i <= k < s@.len() ==> is_ws(#[trigger] s@[k]),
        decreases s@.len() - i,
    {
        i = i + 1;
    }
    proof {
        lemma_trailing_ws_is_suffix(s@, i as nat);
    }
    i
}

/// `str::trim` on characters.
pub fn trim_chars(s: &[char]) -> (r: Vec<char>)
    ensures
        r@ == trim(s@),
{
    let lead = leading_ws_count(s);
    proof {
        lemma_leading_ws_bounds(s@);
    }
    let rest = slice_chars(s, lead, s.len());
    let trail = trailing_ws_count(rest.as_slice());
    proof {
        lemma_trailing_ws_bounds(rest@);
    }
    let r = slice_chars(rest.as_slice(), 0, rest.len() - trail);
    assert(r@ =~= trim(s@));
    r
}

/// `str::trim_start` on characters.
pub fn trim_start_chars(s: &[char]) -> (r: Vec<char>)
    ensures
        r@ == trim_start(s@),
{
    let lead = leading_ws_count(s);
    proof {
        lemma_leading_ws_bounds(s@);
    }
    let r = slice_chars(s, lead, s.len());
    assert(r@ =~= trim_start(s@));
    r
}

pub proof fn lemma_trim_empty_iff_blank(s: Seq<char>)
    ensures
        (trim(s).len() == 0) == is_blank(s),
{
    lemma_leading_ws_bounds(s);
    let t = trim_start(s);
    lemma_trailing_ws_bounds(t);
    if is_blank(s) {
        if leading_ws(s) < s.len() {
            assert(is_ws(s[leading_ws(s) as int]));
        }
        assert(t.len() == 0);
    } else {
        let k = choose|k: int| 0 <= k < s.len() && !is_ws(#[trigger] s[k]);
        assert(leading_ws(s) <= k);
        let j = leading_ws(s) as int;
        assert(t.len() > 0);
        assert(!is_ws(t[0])) by {
            assert(t[0] == s[j]);
        }
        lemma_trailing_not_all(t);
    }
}

proof fn lemma_trailing_not_all(t: Seq<char>)
    requires
        t.len() > 0,
        !is_ws(t[0]),
    ensures
        trailing_ws(t) < t.len(),
    decreases t.len(),
{
    if is_ws(t.last()) {
        assert(t.len() > 1);
        let u = t.drop_last();
        assert(u[0] == t[0]);
        lemma_trailing_not_all(u);
    }
}

/// Whether the characters are all whitespace (the trimmed text is empty).
pub fn is_blank_chars(s: &[char]) -> (r: bool)
    ensures
        r == is_blank(s@),
        r == (trim(s@).len() == 0),
{
    let mut i: usize = 0;
    while i < s.len()
        invariant
            i <= s@.len(),
            forall|k: int| 0 <= k < i ==> is_ws(#[trigger] s@[k]),
        decreases s@.len() - i,
    {
        if !is_whitespace_char(s[i]) {
            proof {
                lemma_trim_empty_iff_blank(s@);
            }
            return false;
        }
        i = i + 1;
    }
    proof {
        lemma_trim_empty_iff_blank(s@);
    }
    true
}

// ---------------------------------------------------------------------------
// Searching.
// ---------------------------------------------------------------------------

/// Index of the first occurrence of `c` in `s`, or `s.len()` when absent.
pub open spec fn index_of(s: Seq<char>, c: char) -> nat
    decreases s.len(),
{
    if s.len() == 0 {
        0
    } else if s[0] == c {
        0
    } else {
        1 + index_of(s.drop_first(), c)
    }
}

pub proof fn lemma_index_of(s: Seq<char>, c: char)
    ensures
        index_of(s, c) <= s.len(),
        forall|k: int| 0 <= k < index_of(s, c) ==> #[trigger] s[k] != c,
        index_of(s, c) < s.len() ==> s[index_of(s, c) as int] == c,
    decreases s.len(),
{
    if s.len() > 0 && s[0] != c {
        let t = s.drop_first();
        lemma_index_of(t, c);
        assert forall|k: int| 0 <= k < index_of(s, c) implies #[trigger] s[k] != c by {
            if k > 0 {
                assert(s[k] == t[k - 1]);
            }
        }
    }
}

pub proof fn lemma_index_of_unique(s: Seq<char>, c: char, i: nat)
    requires
        i <= s.len(),
        forall|k: int| 0 <= k < i ==> #[trigger] s[k] != c,
        i == s.len() || s[i as int] == c,
    ensures
        index_of(s, c) == i,
    decreases i,
{
    if i > 0 {
        let t = s.drop_first();
        assert forall|k: int| 0 <= k < i - 1 implies #[trigger] t[k] != c by {
            assert(t[k] == s[k + 1]);
        }
        if i - 1 < t.len() {
            assert(t[i - 1] == s[i as int]);
        }
        lemma_index_of_unique(t, c, (i - 1) as nat);
    }
}

/// Position of the first `c` in `s`.
pub fn find_char(s: &[char], c: char) -> (r: Option<usize>)
    ensures
        r == (if index_of(s@, c) < s@.len() {
            Some(index_of(s@, c) as usize)
        } else {
            None
        }),
{
    let mut i: usize = 0;
    while i < s.len()
        invariant
            i <= s@.len(),
            forall|k: int| 0 <= k < i ==> #[trigger] s@[k] != c,
        decreases s@.len() - i,
    {
        if s[i] == c {
            proof {
                lemma_index_of_unique(s@, c, i as nat);
            }
            return Some(i);
        }
        i = i + 1;
    }
    proof {
        lemma_index_of_unique(s@, c, i as nat);
    }
    None
}

/// Whether `needle` occurs in `s` at position `i`.
pub open spec fn occurs_at(s: Seq<char>, needle: Seq<char>, i: int) -> bool {
    0 <= i && i + needle.len() <= s.len() && s.subrange(i, i + needle.len()) == needle
}

/// Index of the first occurrence of `needle` in `s` at or after `from`.
pub open spec fn find_from(s: Seq<char>, needle: Seq<char>, from: nat) -> Option<nat>
    decreases s.len() + 1 - from,
{
    if from + needle.len() > s.len() {
        None
    } else if occurs_at(s, needle, from as int) {
        Some(from)
    } else {
        find_from(s, needle, from + 1)
    }
}

/// `str::find` with a string pattern: index of the first occurrence.
pub open spec fn find_seq(s: Seq<char>, needle: Seq<char>) -> Option<nat> {
    find_from(s, needle, 0)
}

pub proof fn lemma_find_from(s: Seq<char>, needle: Seq<char>, from: nat)
    ensures
        find_from(s, needle, from) matches Some(i) ==> from <= i && occurs_at(s, needle, i as int)
            && forall|k: int| from <= k < i ==> !#[trigger] occurs_at(s, needle, k),
        find_from(s, needle, from) is None ==> forall|k: int| from <= k ==> !#[trigger] occurs_at(s, needle, k),
    decreases s.len() + 1 - from,
{
    if from + needle.len() > s.len() {
    } else if occurs_at(s, needle, from as int) {
    } else {
        lemma_find_from(s, needle, from + 1);
    }
}

/// Position of the first occurrence of `needle` in `s` (`str::find`).
pub fn find_chars(s: &[char], needle: &[char]) -> (r: Option<usize>)
    ensures
        r matches Some(i) ==> find_seq(s@, needle@) == Some(i as nat),
        r is None ==> find_seq(s@, needle@) is None,
{
    if needle.len() > s.len() {
        assert(find_from(s@, needle@, 0) is None);
        return None;
    }
    let total = s.len();
    let n = needle.len();
    let last = total - n;
    let mut i: usize = 0;
    loop
        invariant
            total == s@.len(),
            n == needle@.len(),
            last + n == total,
            needle@.len() <= s@.len(),
            last == s@.len() - needle@.len(),
            i <= last,
            find_seq(s@, needle@) == find_from(s@, needle@, i as nat),
        decreases last - i,
    {
        let piece = slice_chars(s, i, i + n);
        if chars_eq(piece.as_slice(), needle) {
            assert(occurs_at(s@, needle@, i as int));
            return Some(i);
        }
        assert(!occurs_at(s@, needle@, i as int));
        if i == last {
            assert(find_from(s@, needle@, (i + 1) as nat) is None);
            return None;
        }
        i = i + 1;
    }
}

// ---------------------------------------------------------------------------
// Lines (`str::lines`).
// ---------------------------------------------------------------------------

/// Drops one trailing `'\r'`.
pub open spec fn strip_cr(s: Seq<char>) -> Seq<char> {
    if s.len() > 0 && s.last() == '\r' {
        s.drop_last()
    } else {
        s
    }
}

/// The lines of `s` as `str::lines` yields them: split at `'\n'`, a `'\r'`
/// right before the `'\n'` dropped, no final empty line.
pub open spec fn lines(s: Seq<char>) -> Seq<Seq<char>>
    decreases s.len(),
{
    if s.len() == 0 {
        seq![]
    } else {
        let i = index_of(s, '\n');
        if i >= s.len() {
            seq![s]
        } else {
            seq![strip_cr(s.take(i as int))] + lines(s.skip(i as int + 1))
        }
    }
}

// ---------------------------------------------------------------------------
// Prefixes.
// ---------------------------------------------------------------------------

/// `str::starts_with` with a string pattern.
pub open spec fn starts_with(s: Seq<char>, prefix: Seq<char>) -> bool {
    prefix.len() <= s.len() && s.take(prefix.len() as int) == prefix
}

/// Whether `s` begins with `prefix`.
pub fn starts_with_chars(s: &[char], prefix: &[char]) -> (r: bool)
    ensures
        r == starts_with(s@, prefix@),
{
    if prefix.len() > s.len() {
        return false;
    }
    let head = slice_chars(s, 0, prefix.len());
    let r = chars_eq(head.as_slice(), prefix);
    assert(head@ =~= s@.take(prefix@.len() as int));
    r
}

// ---------------------------------------------------------------------------
// UTF-8 length (`str::len`).
// ---------------------------------------------------------------------------

/// Number of bytes that UTF-8 uses for `c`.
pub open spec fn utf8_width(c: char) -> nat {
    let u = c as u32;
    if u < 0x80 {
        1
    } else if u < 0x800 {
        2
    } else if u < 0x10000 {
        3
    } else {
        4
    }
}

/// Byte length of the UTF-8 encoding of `s`.
pub open spec fn utf8_len(s: Seq<char>) -> nat
    decreases s.len(),
{
    if s.len() == 0 {
        0
    } else {
        utf8_len(s.drop_last()) + utf8_width(s.last())
    }
}

/// Byte length of the UTF-8 encoding of the characters (`str::len`).
pub fn utf8_len_chars(s: &[char]) -> (n: u128)
    ensures
        n == utf8_len(s@),
{
    let mut n: u128 = 0;
    let mut i: usize = 0;
    let total = s.len();
    while i < total
        invariant
            total == s@.len(),
            i <= s@.len(),
            n == utf8_len(s@.take(i as int)),
            n <= 4 * i,
        decreases s@.len() - i,
    {
        let u = s[i] as u32;
        let w: u128 = if u < 0x80 {
            1
        } else if u < 0x800 {
            2
        } else if u < 0x10000 {
            3
        } else {
            4
        };
        assert(s@.take(i + 1).drop_last() =~= s@.take(i as int));
        assert(w == utf8_width(s@[i as int]));
        assert(usize::MAX <= u64::MAX);
        n = n + w;
        i = i + 1;
    }
    assert(s@.take(s@.len() as int) =~= s@);
    n
}

// ---------------------------------------------------------------------------
// ASCII case folding (`str::eq_ignore_ascii_case`).
// ---------------------------------------------------------------------------

/// `char::to_ascii_lowercase`.
pub open spec fn ascii_lower(c: char) -> char {
    if 'A' <= c <= 'Z' {
        ((c as u32) + 32) as char
    } else {
        c
    }
}

/// `str::eq_ignore_ascii_case`: equal once ASCII letters are folded.
pub open spec fn eq_ignore_ascii_case(a: Seq<char>, b: Seq<char>) -> bool {
    a.len() == b.len() && forall|k: int| 0 <= k < a.len() ==> ascii_lower(#[trigger] a[k]) == ascii_lower(b[k])
}

/// `char::to_ascii_lowercase`.
pub fn ascii_lower_char(c: char) -> (r: char)
    ensures
        r == ascii_lower(c),
{
    if 'A' <= c && c <= 'Z' {
        let b: u8 = (c as u8) + 32;
        b as char
    } else {
        c
    }
}

/// Compares two texts ignoring the case of ASCII letters.
pub fn eq_ignore_ascii_case_chars(a: &[char], b: &[char]) -> (r: bool)
    ensures
        r == eq_ignore_ascii_case(a@, b@),
{
    if a.len() != b.len() {
        return false;
    }
    let mut i: usize = 0;
    while i < a.len()
        invariant
            a@.len() == b@.len(),
            i <= a@.len(),
            forall|k: int| 0 <= k < i ==> ascii_lower(#[trigger] a@[k]) == ascii_lower(b@[k]),
        decreases a@.len() - i,
    {
        if ascii_lower_char(a[i]) != ascii_lower_char(b[i]) {
            return false;
        }
        i = i + 1;
    }
    true
}

// ---------------------------------------------------------------------------
// Decimal and hexadecimal rendering.
// ---------------------------------------------------------------------------

/// The ASCII digit for `d < 16`, lower-case letters above nine.
pub open spec fn digit_char(d: nat) -> char {
    if d < 10 {
        ((d + 0x30) as u32) as char
    } else {
        ((d - 10 + 0x61) as u32) as char
    }
}

/// Decimal rendering of a natural number, as `Display` writes it.
pub open spec fn dec_nat(n: nat) -> Seq<char>
    decreases n,
{
    if n < 10 {
        seq![digit_char(n)]
    } else {
        dec_nat(n / 10) + seq![digit_char(n % 10)]
    }
}

/// Decimal rendering of an integer, as `Display` writes it.
pub open spec fn dec_int(i: int) -> Seq<char> {
    if i < 0 {
        seq!['-'] + dec_nat((-i) as nat)
    } else {
        dec_nat(i as nat)
    }
}

/// The digit character for `d < 16`.
pub fn digit(d: u64) -> (c: char)
    requires
        d < 16,
    ensures
        c == digit_char(d as nat),
{
    let b: u8 = if d < 10 {
        (d as u8) + 0x30
    } else {
        (d as u8) - 10 + 0x61
    };
    b as char
}

/// Appends the decimal digits of `n`.
pub fn push_decimal(out: &mut Vec<char>, n: u64)
    ensures
        final(out)@ == old(out)@ + dec_nat(n as nat),
    decreases n,
{
    if n >= 10 {
        push_decimal(out, n / 10);
    }
    out.push(digit(n % 10));
    assert(out@ =~= old(out)@ + dec_nat(n as nat));
}

/// Appends the decimal rendering of a signed integer.
pub fn push_decimal_i64(out: &mut Vec<char>, n: i64)
    ensures
        final(out)@ == old(out)@ + dec_int(n as int),
{
    if n < 0 {
        out.push('-');
        let m: u64 = (0i128 - (n as i128)) as u64;
        push_decimal(out, m);
        assert(out@ =~= old(out)@ + dec_int(n as int));
    } else {
        push_decimal(out, n as u64);
    }
}

/// Two lower-case hexadecimal digits of a byte, as `{:02x}` writes them.
pub open spec fn hex_byte(b: u8) -> Seq<char> {
    seq![digit_char((b / 16) as nat), digit_char((b % 16) as nat)]
}

/// Lower-case hexadecimal rendering of a byte string.
pub open spec fn hex_bytes(bs: Seq<u8>) -> Seq<char>
    decreases bs.len(),
{
    if bs.len() == 0 {
        seq![]
    } else {
        hex_bytes(bs.drop_last()) + hex_byte(bs.last())
    }
}

pub proof fn lemma_hex_bytes_len(bs: Seq<u8>)
    ensures
        hex_bytes(bs).len() == 2 * bs.len(),
    decreases bs.len(),
{
    if bs.len() > 0 {
        lemma_hex_bytes_len(bs.drop_last());
    }
}

/// Appends the lower-case hexadecimal rendering of the bytes.
pub fn push_hex(out: &mut Vec<char>, bs: &[u8])
    ensures
        final(out)@ == old(out)@ + hex_bytes(bs@),
{
    let mut i: usize = 0;
    while i < bs.len()
        invariant
            i <= bs@.len(),
            out@ == old(out)@ + hex_bytes(bs@.take(i as int)),
        decreases bs@.len() - i,
    {
        let b = bs[i];
        out.push(digit((b / 16) as u64));
        out.push(digit((b % 16) as u64));
        assert(bs@.take(i + 1).drop_last() =~= bs@.take(i as int));
        i = i + 1;
        assert(out@ =~= old(out)@ + hex_bytes(bs@.take(i as int)));
    }
    assert(bs@.take(bs@.len() as int) =~= bs@);
}

} // verus!
