use vstd::prelude::*;

verus! {

/// The view of an optional string.
pub open spec fn opt_string_view(o: Option<String>) -> Option<Seq<char>> {
    match o {
        Some(s) => Some(s@),
        None => None,
    }
}

/// A copy of an optional string.
pub fn clone_opt_string(o: &Option<String>) -> (r: Option<String>)
    ensures
        opt_string_view(r) == opt_string_view(*o),
{
    match o {
        Some(s) => Some(s.clone()),
        None => None,
    }
}

/// The result of `str::to_lowercase` on a string with characters `s`.
pub uninterp spec fn lowercase(s: Seq<char>) -> Seq<char>;

/// Whether `c` has the Unicode property White_Space (the characters that
/// `char::is_whitespace` accepts): U+0009 to U+000D, U+0020, U+0085, U+00A0,
/// U+1680, U+2000 to U+200A, U+2028, U+2029, U+202F, U+205F and U+3000.
pub open spec fn is_white_space(c: char) -> bool {
    let v = c as u32;
    ||| 0x09 <= v <= 0x0d
    ||| v == 0x20
    ||| v == 0x85
    ||| v == 0xa0
    ||| v == 0x1680
    ||| 0x2000 <= v <= 0x200a
    ||| v == 0x2028
    ||| v == 0x2029
    ||| v == 0x202f
    ||| v == 0x205f
    ||| v == 0x3000
}

/// `s` without its leading white space.
pub open spec fn trim_start(s: Seq<char>) -> Seq<char>
    decreases s.len(),
{
    if s.len() > 0 && is_white_space(s[0]) {
        trim_start(s.drop_first())
    } else {
        s
    }
}

/// `s` without its trailing white space.
pub open spec fn trim_end(s: Seq<char>) -> Seq<char>
    decreases s.len(),
{
    if s.len() > 0 && is_white_space(s.last()) {
        trim_end(s.drop_last())
    } else {
        s
    }
}

/// `s` without its leading and trailing white space.
pub open spec fn trimmed(s: Seq<char>) -> Seq<char> {
    trim_end(trim_start(s))
}

/// Whether every character of `s` is an ASCII character.
pub open spec fn is_ascii_text(s: Seq<char>) -> bool {
    forall|i: int| 0 <= i < s.len() ==> (#[trigger] s[i] as u32) < 128
}

/// The ASCII lower-case form of `c`: 'A' to 'Z' become 'a' to 'z', all else stays.
pub open spec fn ascii_lower_char(c: char) -> char {
    if 'A' <= c && c <= 'Z' {
        ((c as u32) + 32) as char
    } else {
        c
    }
}

/// The ASCII upper-case form of `c`: 'a' to 'z' become 'A' to 'Z', all else stays.
pub open spec fn ascii_upper_char(c: char) -> char {
    if 'a' <= c && c <= 'z' {
        ((c as u32) - 32) as char
    } else {
        c
    }
}

/// `s` with its ASCII letters in lower case.
pub open spec fn ascii_lowercase(s: Seq<char>) -> Seq<char> {
    s.map_values(|c: char| ascii_lower_char(c))
}

/// `s` with its ASCII letters in upper case.
pub open spec fn ascii_uppercase(s: Seq<char>) -> Seq<char> {
    s.map_values(|c: char| ascii_upper_char(c))
}

/// Calls `str::to_lowercase`. Its result is taken to depend on the characters of
/// `s` alone and is named `lowercase`. Of the Unicode case mapping only this is
/// claimed: on a text of ASCII characters it lower-cases the letters 'A' to 'Z'
/// and keeps every other character, as `to_ascii_lowercase` does (whose
/// documentation points to `to_lowercase` for lower-casing ASCII characters in
/// addition to the others).
#[verifier::external_body]
pub fn to_lowercase(s: &str) -> (r: String)
    ensures
        r@ == lowercase(s@),
        is_ascii_text(s@) ==> r@ == ascii_lowercase(s@),
{
    s.to_lowercase()
}

/// Whether `c` has the Unicode property White_Space.
pub fn is_white_space_char(c: char) -> (b: bool)
    ensures
        b == is_white_space(c),
{
    let v = c as u32;
    (0x09 <= v && v <= 0x0d) || v == 0x20 || v == 0x85 || v == 0xa0 || v == 0x1680 || (0x2000
        <= v && v <= 0x200a) || v == 0x2028 || v == 0x2029 || v == 0x202f || v == 0x205f || v
        == 0x3000
}

proof fn lemma_trim_start_at(s: Seq<char>, k: int)
    requires
        0 <= k <= s.len(),
        forall|i: int| 0 <= i < k ==> is_white_space(#[trigger] s[i]),
        k == s.len() || !is_white_space(s[k]),
    ensures
        trim_start(s) == s.subrange(k, s.len() as int),
    decreases k,
{
    if k == 0 {
        assert(s.subrange(0, s.len() as int) =~= s);
    } else {
        let d = s.drop_first();
        assert(is_white_space(s[0]));
        assert forall|i: int| 0 <= i < k - 1 implies is_white_space(#[trigger] d[i]) by {
            assert(d[i] == s[i + 1]);
        }
        if k - 1 < d.len() {
            assert(d[k - 1] == s[k]);
        }
        lemma_trim_start_at(d, k - 1);
        assert(d.subrange(k - 1, d.len() as int) =~= s.subrange(k, s.len() as int));
    }
}

proof fn lemma_trim_end_at(s: Seq<char>, m: int)
    requires
        0 <= m <= s.len(),
        forall|i: int| m <= i < s.len() ==> is_white_space(#[trigger] s[i]),
        m == 0 || !is_white_space(s[m - 1]),
    ensures
        trim_end(s) == s.subrange(0, m),
    decreases s.len() - m,
{
    if m == s.len() {
        assert(s.subrange(0, m) =~= s);
    } else {
        let d = s.drop_last();
        assert(is_white_space(s[s.len() - 1]));
        assert forall|i: int| m <= i < d.len() implies is_white_space(#[trigger] d[i]) by {
            assert(d[i] == s[i]);
        }
        if m > 0 {
            assert(d[m - 1] == s[m - 1]);
        }
        lemma_trim_end_at(d, m);
        assert(d.subrange(0, m) =~= s.subrange(0, m));
    }
}

/// `s` without its leading and trailing white space (what `str::trim` gives).
pub fn trim(s: &str) -> (r: &str)
    ensures
        r@ == trimmed(s@),
{
    let c = chars_of(s);
    let n = c.len();
    let mut start: usize = 0;
    while start < n && is_white_space_char(c[start])
        invariant
            c@ == s@,
            n == c@.len(),
            start <= n,
            forall|i: int| 0 <= i < start ==> is_white_space(#[trigger] c@[i]),
        decreases n - start,
    {
        start = start + 1;
    }
    let mut end: usize = n;
    while end > start && is_white_space_char(c[end - 1])
        invariant
            c@ == s@,
            n == c@.len(),
            start <= end <= n,
            forall|i: int| end <= i < n ==> is_white_space(#[trigger] c@[i]),
        decreases end - start,
    {
        end = end - 1;
    }
    proof {
        let sv = s@;
        lemma_trim_start_at(sv, start as int);
        let t = sv.subrange(start as int, sv.len() as int);
        let m = end - start;
        assert forall|i: int| m <= i < t.len() implies is_white_space(#[trigger] t[i]) by {
            assert(t[i] == sv[start + i]);
        }
        if m > 0 {
            assert(t[m - 1] == sv[end - 1]);
        }
        lemma_trim_end_at(t, m as int);
        assert(t.subrange(0, m as int) =~= sv.subrange(start as int, end as int));
    }
    s.substring_char(start, end)
}

/// Calls `String::push`: appends the character `c`.
#[verifier::external_body]
pub fn push_char(s: &mut String, c: char)
    ensures
        final(s)@ == old(s)@.push(c),
{
    s.push(c)
}

/// Whether `needle` occurs in `haystack` as a contiguous run of characters
/// (the empty text occurs in every text).
pub open spec fn text_contains(haystack: Seq<char>, needle: Seq<char>) -> bool {
    exists|i: int|
        0 <= i <= haystack.len() - needle.len() && #[trigger] haystack.subrange(
            i,
            i + needle.len(),
        ) == needle
}

/// The characters of `s`, in order.
pub fn chars_of(s: &str) -> (r: Vec<char>)
    ensures
        r@ == s@,
{
    let n = s.unicode_len();
    let mut r: Vec<char> = Vec::new();
    let mut i: usize = 0;
    while i < n
        invariant
            n == s@.len(),
            i <= n,
            r@ == s@.take(i as int),
        decreases n - i,
    {
        r.push(s.get_char(i));
        i = i + 1;
        assert(r@ =~= s@.take(i as int));
    }
    assert(s@.take(n as int) =~= s@);
    r
}

/// Whether the characters `needle` match those of `haystack` from position `start`.
fn matches_at(haystack: &Vec<char>, needle: &Vec<char>, start: usize) -> (b: bool)
    requires
        start + needle@.len() <= haystack@.len(),
    ensures
        b == (haystack@.subrange(start as int, start + needle@.len()) == needle@),
{
    let m = needle.len();
    let mut j: usize = 0;
    while j < m
        invariant
            m == needle@.len(),
            start + m <= haystack@.len(),
            j <= m,
            forall|k: int| 0 <= k < j ==> haystack@[start + k] == needle@[k],
        decreases m - j,
    {
        assert(haystack@.len() == haystack.len());
        if haystack[start + j] != needle[j] {
            assert(haystack@.subrange(start as int, start + m)[j as int] != needle@[j as int]);
            return false;
        }
        j = j + 1;
    }
    assert(haystack@.subrange(start as int, start + m) =~= needle@);
    true
}

/// Whether `needle` occurs in `haystack` (the test of `str::contains` with a
/// string pattern).
pub fn contains_text(haystack: &str, needle: &str) -> (b: bool)
    ensures
        b == text_contains(haystack@, needle@),
{
    let h = chars_of(haystack);
    let n = chars_of(needle);
    if n.len() > h.len() {
        return false;
    }
    let last = h.len() - n.len();
    let mut i: usize = 0;
    loop
        invariant
            h@ == haystack@,
            n@ == needle@,
            last == h@.len() - n@.len(),
            i <= last,
            forall|k: int| 0 <= k < i ==> #[trigger] h@.subrange(k, k + n@.len()) != n@,
        ensures
            forall|k: int| 0 <= k <= last ==> #[trigger] h@.subrange(k, k + n@.len()) != n@,
        decreases last - i,
    {
        if matches_at(&h, &n, i) {
            return true;
        }
        if i == last {
            break;
        }
        i = i + 1;
    }
    false
}

proof fn lemma_trim_start_suffix(s: Seq<char>)
    ensures
        trim_start(s).len() <= s.len(),
        trim_start(s) == s.subrange(s.len() - trim_start(s).len(), s.len() as int),
        trim_start(s).len() == 0 || !is_white_space(trim_start(s)[0]),
    decreases s.len(),
{
    if s.len() > 0 && is_white_space(s[0]) {
        lemma_trim_start_suffix(s.drop_first());
        let t = trim_start(s.drop_first());
        assert(s.drop_first().subrange(s.drop_first().len() - t.len(), s.drop_first().len() as int)
            =~= s.subrange(s.len() - t.len(), s.len() as int));
    } else {
        assert(s.subrange(0, s.len() as int) =~= s);
    }
}

proof fn lemma_trim_end_prefix(s: Seq<char>)
    ensures
        trim_end(s).len() <= s.len(),
        trim_end(s) == s.subrange(0, trim_end(s).len() as int),
        trim_end(s).len() == 0 || !is_white_space(trim_end(s).last()),
    decreases s.len(),
{
    if s.len() > 0 && is_white_space(s.last()) {
        lemma_trim_end_prefix(s.drop_last());
        let t = trim_end(s.drop_last());
        assert(s.drop_last().subrange(0, t.len() as int) =~= s.subrange(0, t.len() as int));
    } else {
        assert(s.subrange(0, s.len() as int) =~= s);
    }
}

/// `trimmed(s)` is the run of `s` from position `start` of length `trimmed(s).len()`.
proof fn lemma_trimmed_is_run(s: Seq<char>) -> (start: int)
    ensures
        0 <= start && start + trimmed(s).len() <= s.len(),
        trimmed(s) == s.subrange(start, start + trimmed(s).len()),
        trimmed(s).len() == 0 || (!is_white_space(trimmed(s)[0]) && !is_white_space(trimmed(s).last())),
{
    let a = trim_start(s);
    lemma_trim_start_suffix(s);
    lemma_trim_end_prefix(a);
    let start = s.len() - a.len();
    let t = trim_end(a);
    assert(t =~= s.subrange(start, start + t.len()));
    if t.len() > 0 {
        assert(t[0] == a[0]);
    }
    start
}

/// Trimming a trimmed text changes nothing.
pub proof fn lemma_trimmed_idempotent(s: Seq<char>)
    ensures
        trimmed(trimmed(s)) == trimmed(s),
{
    let t = trimmed(s);
    lemma_trimmed_is_run(s);
    assert(trim_start(t) == t);
    assert(trim_end(t) == t);
}

/// A trimmed ASCII text is an ASCII text.
pub proof fn lemma_trimmed_ascii(s: Seq<char>)
    requires
        is_ascii_text(s),
    ensures
        is_ascii_text(trimmed(s)),
{
    let start = lemma_trimmed_is_run(s);
    let t = trimmed(s);
    assert forall|i: int| 0 <= i < t.len() implies (#[trigger] t[i] as u32) < 128 by {
        assert(t[i] == s[start + i]);
    }
}

proof fn lemma_trim_start_map(s: Seq<char>, f: spec_fn(char) -> char)
    requires
        forall|c: char| #[trigger] is_white_space(f(c)) == is_white_space(c),
    ensures
        trim_start(s.map_values(f)) == trim_start(s).map_values(f),
    decreases s.len(),
{
    let m = s.map_values(f);
    if s.len() > 0 {
        assert(m[0] == f(s[0]));
        assert(m.drop_first() =~= s.drop_first().map_values(f));
        lemma_trim_start_map(s.drop_first(), f);
    } else {
        assert(m =~= s.map_values(f));
    }
}

proof fn lemma_trim_end_map(s: Seq<char>, f: spec_fn(char) -> char)
    requires
        forall|c: char| #[trigger] is_white_space(f(c)) == is_white_space(c),
    ensures
        trim_end(s.map_values(f)) == trim_end(s).map_values(f),
    decreases s.len(),
{
    let m = s.map_values(f);
    if s.len() > 0 {
        assert(m.last() == f(s.last()));
        assert(m.drop_last() =~= s.drop_last().map_values(f));
        lemma_trim_end_map(s.drop_last(), f);
    }
}

/// Changing the case of ASCII letters commutes with trimming.
pub proof fn lemma_trimmed_uppercase(s: Seq<char>)
    ensures
        trimmed(ascii_uppercase(s)) == ascii_uppercase(trimmed(s)),
{
    let f = |c: char| ascii_upper_char(c);
    assert forall|c: char| #[trigger] is_white_space(f(c)) == is_white_space(c) by {}
    lemma_trim_start_map(s, f);
    lemma_trim_end_map(trim_start(s), f);
}

/// Lower-casing the ASCII letters of a text gives the same as lower-casing them
/// after upper-casing them.
pub proof fn lemma_lower_of_upper(s: Seq<char>)
    ensures
        ascii_lowercase(ascii_uppercase(s)) == ascii_lowercase(s),
{
    assert(ascii_lowercase(ascii_uppercase(s)) =~= ascii_lowercase(s));
}

/// Upper-casing the ASCII letters of an ASCII text gives an ASCII text.
pub proof fn lemma_uppercase_ascii(s: Seq<char>)
    requires
        is_ascii_text(s),
    ensures
        is_ascii_text(ascii_uppercase(s)),
{
    assert forall|i: int| 0 <= i < ascii_uppercase(s).len() implies (#[trigger] ascii_uppercase(
        s,
    )[i] as u32) < 128 by {
        assert((s[i] as u32) < 128);
    }
}

/// A text of white space alone trims to the empty text.
pub proof fn lemma_blank_trims_to_empty(s: Seq<char>)
    requires
        forall|i: int| 0 <= i < s.len() ==> is_white_space(#[trigger] s[i]),
    ensures
        trimmed(s) == Seq::<char>::empty(),
    decreases s.len(),
{
    if s.len() > 0 {
        assert forall|i: int| 0 <= i < s.drop_first().len() implies is_white_space(
            #[trigger] s.drop_first()[i],
        ) by {
            assert(s.drop_first()[i] == s[i + 1]);
        }
        lemma_blank_trims_to_empty(s.drop_first());
    } else {
        assert(trim_start(s) =~= Seq::<char>::empty());
    }
}

/// Containment of texts is transitive: a text that contains `b`, which contains
/// `a`, contains `a`.
pub proof fn lemma_contains_transitive(t: Seq<char>, b: Seq<char>, a: Seq<char>)
    requires
        text_contains(t, b),
        text_contains(b, a),
    ensures
        text_contains(t, a),
{
    let i = choose|i: int| 0 <= i <= t.len() - b.len() && #[trigger] t.subrange(i, i + b.len()) == b;
    let j = choose|j: int| 0 <= j <= b.len() - a.len() && #[trigger] b.subrange(j, j + a.len()) == a;
    assert(t.subrange(i + j, i + j + a.len()) =~= a) by {
        assert forall|k: int| 0 <= k < a.len() implies t.subrange(i + j, i + j + a.len())[k] == a[k] by {
            assert(t.subrange(i, i + b.len())[j + k] == b[j + k]);
            assert(b.subrange(j, j + a.len())[k] == a[k]);
        }
    }
}

/// Whether, from position `i` of `haystack` on, each character of `needle`
/// equals the character of `haystack` that many places further.
pub open spec fn agrees_at(haystack: Seq<char>, needle: Seq<char>, i: int) -> bool {
    &&& 0 <= i
    &&& i + needle.len() <= haystack.len()
    &&& forall|k: int| 0 <= k < needle.len() ==> #[trigger] haystack[i + k] == needle[k]
}

/// `needle` occurs in `haystack` exactly when `haystack` agrees with it from some
/// position on; in particular every text occurs in itself and the empty text
/// occurs everywhere.
pub proof fn lemma_text_contains_by_position(haystack: Seq<char>, needle: Seq<char>)
    ensures
        text_contains(haystack, needle) <==> exists|i: int| #[trigger] agrees_at(haystack, needle, i),
        text_contains(haystack, haystack),
        text_contains(haystack, Seq::<char>::empty()),
{
    if text_contains(haystack, needle) {
        let i = choose|i: int|
            0 <= i <= haystack.len() - needle.len() && #[trigger] haystack.subrange(
                i,
                i + needle.len(),
            ) == needle;
        assert forall|k: int| 0 <= k < needle.len() implies #[trigger] haystack[i + k] == needle[k] by {
            assert(haystack.subrange(i, i + needle.len())[k] == haystack[i + k]);
        }
        assert(agrees_at(haystack, needle, i));
    }
    if exists|i: int| #[trigger] agrees_at(haystack, needle, i) {
        let i = choose|i: int| #[trigger] agrees_at(haystack, needle, i);
        assert forall|k: int| 0 <= k < needle.len() implies haystack.subrange(i, i + needle.len())[k]
            == needle[k] by {
            assert(haystack[i + k] == needle[k]);
        }
        assert(haystack.subrange(i, i + needle.len()) =~= needle);
    }
    assert(haystack.subrange(0, 0 + haystack.len() as int) =~= haystack);
    let e = Seq::<char>::empty();
    assert(haystack.subrange(0, 0 + e.len() as int) =~= e);
}

} // verus!
