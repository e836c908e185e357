//! String helpers with contracts over `Seq<char>`.
use vstd::prelude::*;

verus! {

// ---------------------------------------------------------------------------
// Named results of Unicode functions of the standard library
// ---------------------------------------------------------------------------
/// The lowercase form of a text, as `str::to_lowercase` computes it.
pub uninterp spec fn lowercase_of(s: Seq<char>) -> Seq<char>;

/// Whether a character is white space, as `char::is_whitespace` decides it.
pub uninterp spec fn whitespace_char(c: char) -> bool;

/// Whether a character is a letter or a digit, as `char::is_alphanumeric`
/// decides it.
pub uninterp spec fn alphanumeric_char(c: char) -> bool;

/// The uppercase form of one character, as `char::to_uppercase` computes it.
pub uninterp spec fn uppercase_of(c: char) -> Seq<char>;

/// Every character of the text is ASCII.
pub open spec fn is_ascii_text(s: Seq<char>) -> bool {
    forall|i: int| 0 <= i < s.len() ==> (#[trigger] s[i] as u32) < 128
}

/// An ASCII letter or digit.
pub open spec fn ascii_alphanumeric(c: char) -> bool {
    '0' <= c && c <= '9' || 'A' <= c && c <= 'Z' || 'a' <= c && c <= 'z'
}

/// Wraps `str::to_lowercase`. The result is `lowercase_of` applied to the text.
/// Of a text of ASCII characters it claims that `A`–`Z` are mapped to `a`–`z` and
/// nothing else changes; the Unicode tables for the rest are not restated.
/// Whether lowercasing the result again changes it is left open there.
#[verifier::external_body]
pub(crate) fn to_lowercase(s: &str) -> (r: String)
    ensures
        r@ == lowercase_of(s@),
        is_ascii_text(s@) ==> r@ == ascii_lower(s@),
{
    s.to_lowercase()
}

/// Wraps `char::is_whitespace`. The result is `whitespace_char` applied to the
/// character. It claims that no ASCII letter or digit is white space; whether
/// another letter or digit can be is left open.
#[verifier::external_body]
pub(crate) fn is_whitespace(c: char) -> (r: bool)
    ensures
        r == whitespace_char(c),
        ascii_alphanumeric(c) ==> !r,
{
    c.is_whitespace()
}

/// Wraps `char::is_alphanumeric`. The result is `alphanumeric_char` applied to
/// the character. Of the ASCII characters it claims that just the letters and the
/// digits are alphanumeric.
#[verifier::external_body]
pub(crate) fn is_alphanumeric(c: char) -> (r: bool)
    ensures
        r == alphanumeric_char(c),
        (c as u32) < 128 ==> r == ascii_alphanumeric(c),
{
    c.is_alphanumeric()
}

/// Wraps `char::to_uppercase`. The characters of the result, in order, are
/// `uppercase_of` applied to the character.
#[verifier::external_body]
pub(crate) fn to_uppercase(c: char) -> (r: Vec<char>)
    ensures
        r@ == uppercase_of(c),
{
    c.to_uppercase().collect()
}

/// Wraps `String::push`. The character is appended to the end of the text.
#[verifier::external_body]
pub(crate) fn push_char(s: &mut String, c: char)
    ensures
        final(s)@ == old(s)@.push(c),
{
    s.push(c);
}

// ---------------------------------------------------------------------------
// Conversions
// ---------------------------------------------------------------------------
/// The characters of a text.
pub fn chars_of(s: &str) -> (v: Vec<char>)
    ensures
        v@ == s@,
{
    let mut v: Vec<char> = Vec::new();
    for c in it: s.chars()
        invariant
            v@ == it.seq().take(it.index()),
            it.seq() == s@,
    {
        v.push(c);
    }
    v
}

/// The text made of `v[from..to]`.
pub fn string_of_range(v: &Vec<char>, from: usize, to: usize) -> (r: String)
    requires
        from <= to <= v.len(),
    ensures
        r@ == v@.subrange(from as int, to as int),
{
    let mut r: String = String::new();
    let mut i: usize = from;
    while i < to
        invariant
            from <= i <= to <= v.len(),
            r@ == v@.subrange(from as int, i as int),
        decreases to - i,
    {
        push_char(&mut r, v[i]);
        proof {
            assert(v@.subrange(from as int, i + 1) =~= v@.subrange(from as int, i as int).push(v@[i as int]));
        }
        i = i + 1;
    }
    r
}

/// Whether two texts hold the same characters.
pub fn str_eq(a: &str, b: &str) -> (r: bool)
    ensures
        r == (a@ == b@),
{
    a.to_owned() == b.to_owned()
}

// ---------------------------------------------------------------------------
// Searching and comparing
// ---------------------------------------------------------------------------
/// `needle` stands in `hay` at offset `i`.
pub open spec fn occurs_at(hay: Seq<char>, needle: Seq<char>, i: int) -> bool {
    0 <= i && i + needle.len() <= hay.len() && hay.subrange(i, i + needle.len()) == needle
}

/// `needle` stands somewhere in `hay`.
pub open spec fn has_substring(hay: Seq<char>, needle: Seq<char>) -> bool {
    exists|i: int| occurs_at(hay, needle, i)
}

fn occurs_at_exec(hay: &Vec<char>, needle: &Vec<char>, i: usize) -> (r: bool)
    requires
        i + needle.len() <= hay.len(),
    ensures
        r == occurs_at(hay@, needle@, i as int),
{
    let mut j: usize = 0;
    while j < needle.len()
        invariant
            j <= needle.len(),
            i + needle.len() <= hay.len(),
            forall|k: int| 0 <= k < j ==> hay@[i + k] == needle@[k],
        decreases needle.len() - j,
    {
        if hay[i + j] != needle[j] {
            proof {
                assert(hay@.subrange(i as int, i + needle@.len())[j as int] == hay@[i + j]);
            }
            return false;
        }
        j = j + 1;
    }
    proof {
        assert(hay@.subrange(i as int, i + needle@.len()) =~= needle@);
    }
    true
}

/// Whether `needle` is a substring of `hay`.
pub fn contains_str(hay: &str, needle: &str) -> (r: bool)
    ensures
        r == has_substring(hay@, needle@),
{
    let h = chars_of(hay);
    let n = chars_of(needle);
    if n.len() > h.len() {
        return false;
    }
    let mut i: usize = 0;
    let last: usize = h.len() - n.len();
    while i <= last
        invariant
            last + n.len() == h.len(),
            h@ == hay@,
            n@ == needle@,
            i <= last + 1,
            forall|k: int| 0 <= k < i ==> !occurs_at(h@, n@, k),
        decreases last + 1 - i,
    {
        if occurs_at_exec(&h, &n, i) {
            return true;
        }
        if i == last {
            proof {
                assert forall|k: int| !occurs_at(hay@, needle@, k) by {}
            }
            return false;
        }
        i = i + 1;
    }
    false
}

/// One character with `A`–`Z` mapped to `a`–`z`.
pub open spec fn ascii_fold(c: char) -> char {
    if 'A' <= c && c <= 'Z' {
        ((c as u32 + 32) as u32) as char
    } else {
        c
    }
}

/// A text with `A`–`Z` mapped to `a`–`z`.
pub open spec fn ascii_lower(s: Seq<char>) -> Seq<char> {
    s.map_values(|c: char| ascii_fold(c))
}

fn ascii_fold_exec(c: char) -> (r: char)
    ensures
        r == ascii_fold(c),
{
    if 'A' <= c && c <= 'Z' {
        ((c as u8) + 32u8) as char
    } else {
        c
    }
}

/// The text with `A`–`Z` mapped to `a`–`z`.
pub fn to_ascii_lowercase(s: &str) -> (r: String)
    ensures
        r@ == ascii_lower(s@),
{
    let v = chars_of(s);
    let mut r: String = String::new();
    let mut i: usize = 0;
    while i < v.len()
        invariant
            i <= v.len(),
            v@ == s@,
            r@ == ascii_lower(s@.take(i as int)),
        decreases v.len() - i,
    {
        push_char(&mut r, ascii_fold_exec(v[i]));
        proof {
            assert(ascii_lower(s@.take(i + 1)) =~= ascii_lower(s@.take(i as int)).push(ascii_fold(s@[i as int])));
        }
        i = i + 1;
    }
    proof {
        assert(s@.take(s@.len() as int) =~= s@);
    }
    r
}

/// Two texts agree when `A`–`Z` and `a`–`z` are not told apart.
pub open spec fn same_ignoring_case(a: Seq<char>, b: Seq<char>) -> bool {
    ascii_lower(a) == ascii_lower(b)
}

/// Whether two texts agree when `A`–`Z` and `a`–`z` are not told apart.
pub fn eq_ignore_ascii_case(a: &str, b: &str) -> (r: bool)
    ensures
        r == same_ignoring_case(a@, b@),
{
    to_ascii_lowercase(a) == to_ascii_lowercase(b)
}

/// Lexicographic order of texts by code point.
pub open spec fn text_lt(a: Seq<char>, b: Seq<char>) -> bool
    decreases a.len(),
{
    if b.len() == 0 {
        false
    } else if a.len() == 0 {
        true
    } else if a[0] != b[0] {
        a[0] < b[0]
    } else {
        text_lt(a.skip(1), b.skip(1))
    }
}

/// The order of texts is a strict total order.
pub proof fn text_order_is_total(a: Seq<char>, b: Seq<char>)
    ensures
        !text_lt(a, a),
        text_lt(a, b) || text_lt(b, a) || a == b,
        !(text_lt(a, b) && text_lt(b, a)),
    decreases a.len(),
{
    if a.len() > 0 {
        text_order_is_total(a.skip(1), a.skip(1));
    }
    if a.len() > 0 && b.len() > 0 {
        text_order_is_total(a.skip(1), b.skip(1));
        if a[0] == b[0] && a.skip(1) == b.skip(1) {
            assert(a =~= seq![a[0]] + a.skip(1));
            assert(b =~= seq![b[0]] + b.skip(1));
        }
    } else if a.len() == 0 && b.len() == 0 {
        assert(a =~= b);
    }
}

/// The order of texts is transitive.
pub proof fn text_order_is_transitive(a: Seq<char>, b: Seq<char>, c: Seq<char>)
    requires
        text_lt(a, b),
        text_lt(b, c),
    ensures
        text_lt(a, c),
    decreases a.len(),
{
    if a.len() > 0 && b.len() > 0 && c.len() > 0 {
        if a[0] == b[0] && b[0] == c[0] {
            text_order_is_transitive(a.skip(1), b.skip(1), c.skip(1));
        }
    }
}

/// Whether `a` stands before `b`.
pub fn str_lt(a: &str, b: &str) -> (r: bool)
    ensures
        r == text_lt(a@, b@),
{
    let x = chars_of(a);
    let y = chars_of(b);
    let mut i: usize = 0;
    proof {
        assert(x@.skip(0) =~= x@);
        assert(y@.skip(0) =~= y@);
    }
    while i < x.len() && i < y.len()
        invariant
            i <= x.len(),
            i <= y.len(),
            x@ == a@,
            y@ == b@,
            text_lt(a@, b@) == text_lt(x@.skip(i as int), y@.skip(i as int)),
        decreases x.len() - i,
    {
        if x[i] != y[i] {
            return x[i] < y[i];
        }
        proof {
            assert(x@.skip(i as int).skip(1) =~= x@.skip(i + 1));
            assert(y@.skip(i as int).skip(1) =~= y@.skip(i + 1));
        }
        i = i + 1;
    }
    i < y.len()
}

// ---------------------------------------------------------------------------
// Stripping
// ---------------------------------------------------------------------------
/// A class of characters that `strip` removes from the ends of a text.
#[derive(Clone, Copy)]
pub enum CharClass {
    Whitespace,
    NonAlphanumeric,
}

pub open spec fn in_class(c: char, class: CharClass) -> bool {
    match class {
        CharClass::Whitespace => whitespace_char(c),
        CharClass::NonAlphanumeric => !alphanumeric_char(c),
    }
}

fn in_class_exec(c: char, class: CharClass) -> (r: bool)
    ensures
        r == in_class(c, class),
        (c as u32) < 128 ==> match class {
            CharClass::Whitespace => r ==> !ascii_alphanumeric(c),
            CharClass::NonAlphanumeric => r == !ascii_alphanumeric(c),
        },
{
    match class {
        CharClass::Whitespace => is_whitespace(c),
        CharClass::NonAlphanumeric => !is_alphanumeric(c),
    }
}

/// The text without the leading characters of the class.
pub open spec fn strip_start(s: Seq<char>, class: CharClass) -> Seq<char>
    decreases s.len(),
{
    if s.len() > 0 && in_class(s[0], class) {
        strip_start(s.skip(1), class)
    } else {
        s
    }
}

/// The text without the trailing characters of the class.
pub open spec fn strip_end(s: Seq<char>, class: CharClass) -> Seq<char>
    decreases s.len(),
{
    if s.len() > 0 && in_class(s.last(), class) {
        strip_end(s.drop_last(), class)
    } else {
        s
    }
}

/// The text without the leading and the trailing characters of the class.
pub open spec fn strip(s: Seq<char>, class: CharClass) -> Seq<char> {
    strip_end(strip_start(s, class), class)
}

/// Where the stripped text begins in the text.
pub open spec fn strip_offset(s: Seq<char>, class: CharClass) -> int {
    s.len() - strip_start(s, class).len()
}

/// The text without white space at its ends.
pub open spec fn trimmed(s: Seq<char>) -> Seq<char> {
    strip(s, CharClass::Whitespace)
}

/// Removes the characters of a class from both ends of a text. Of an ASCII text
/// no letter or digit is removed, and what is left after stripping all others
/// begins and ends with one.
pub fn strip_class(s: &str, class: CharClass) -> (r: String)
    ensures
        r@ == strip(s@, class),
        is_ascii_text(s@) ==> forall|i: int|
            0 <= i < strip_offset(s@, class) || strip_offset(s@, class) + r@.len() <= i < s@.len()
                ==> !ascii_alphanumeric(#[trigger] s@[i]),
        is_ascii_text(s@) && class is NonAlphanumeric && r@.len() > 0 ==> ascii_alphanumeric(r@[0])
            && ascii_alphanumeric(r@.last()),
{
    let v = chars_of(s);
    let ascii = Ghost(is_ascii_text(s@));
    let mut from: usize = 0;
    proof {
        assert(v@.skip(0) =~= v@);
    }
    while from < v.len() && in_class_exec(v[from], class)
        invariant
            from <= v.len(),
            v@ == s@,
            ascii@ == is_ascii_text(s@),
            strip_start(s@, class) == strip_start(v@.skip(from as int), class),
            ascii@ ==> forall|i: int| 0 <= i < from ==> !ascii_alphanumeric(#[trigger] s@[i]),
        ensures
            from < v.len() ==> !in_class(v@[from as int], class),
            ascii@ && class is NonAlphanumeric && from < v.len() ==> ascii_alphanumeric(
                v@[from as int],
            ),
        decreases v.len() - from,
    {
        proof {
            assert(v@.skip(from as int).skip(1) =~= v@.skip(from + 1));
        }
        from = from + 1;
    }
    let mut to: usize = v.len();
    proof {
        assert(v@.subrange(from as int, to as int) =~= v@.skip(from as int));
        assert(strip_start(s@, class) == v@.skip(from as int));
    }
    while from < to && in_class_exec(v[to - 1], class)
        invariant
            from <= to <= v.len(),
            v@ == s@,
            ascii@ == is_ascii_text(s@),
            strip(s@, class) == strip_end(v@.subrange(from as int, to as int), class),
            ascii@ ==> forall|i: int| to <= i < s@.len() ==> !ascii_alphanumeric(#[trigger] s@[i]),
        ensures
            from < to ==> !in_class(v@[to - 1], class),
            ascii@ && class is NonAlphanumeric && from < to ==> ascii_alphanumeric(v@[to - 1]),
        decreases to - from,
    {
        proof {
            assert(v@.subrange(from as int, to as int).drop_last() =~= v@.subrange(from as int, to - 1));
        }
        to = to - 1;
    }
    string_of_range(&v, from, to)
}

/// The text without white space at its ends.
pub fn trim(s: &str) -> (r: String)
    ensures
        r@ == trimmed(s@),
        is_ascii_text(s@) ==> forall|i: int|
            0 <= i < strip_offset(s@, CharClass::Whitespace) || strip_offset(
                s@,
                CharClass::Whitespace,
            ) + r@.len() <= i < s@.len() ==> !ascii_alphanumeric(#[trigger] s@[i]),
{
    strip_class(s, CharClass::Whitespace)
}

/// Every character of the text is white space.
pub open spec fn is_blank(s: Seq<char>) -> bool {
    trimmed(s).len() == 0
}

// ---------------------------------------------------------------------------
// Matching keys
// ---------------------------------------------------------------------------
/// The key under which two spellings of a name are matched: white space
/// trimmed, lowercased, and stripped of what is neither letter nor digit at
/// either end.
pub open spec fn match_key(s: Seq<char>) -> Seq<char> {
    strip(lowercase_of(trimmed(s)), CharClass::NonAlphanumeric)
}

/// The text from its first to its last ASCII letter or digit.
pub open spec fn between_marks(s: Seq<char>) -> Seq<char>
    decreases s.len(),
{
    if s.len() > 0 && !ascii_alphanumeric(s[0]) {
        between_marks(s.skip(1))
    } else if s.len() > 0 && !ascii_alphanumeric(s.last()) {
        between_marks(s.drop_last())
    } else {
        s
    }
}

/// The matching key of an ASCII text: `A`–`Z` mapped to `a`–`z`, from the first
/// to the last letter or digit.
pub open spec fn ascii_key(s: Seq<char>) -> Seq<char> {
    between_marks(ascii_lower(s))
}

/// What stands in the text, begins and ends with a letter or a digit and has only
/// marks around it is what stands between the marks.
proof fn between_marks_is(s: Seq<char>, key: Seq<char>, at: int)
    requires
        occurs_at(s, key, at),
        forall|i: int|
            0 <= i < at || at + key.len() <= i < s.len() ==> !ascii_alphanumeric(#[trigger] s[i]),
        key.len() > 0 ==> ascii_alphanumeric(key[0]) && ascii_alphanumeric(key.last()),
    ensures
        between_marks(s) == key,
    decreases s.len(),
{
    let n = key.len();
    if n > 0 {
        assert(s.subrange(at, at + n)[0] == s[at]);
        assert(s.subrange(at, at + n)[n - 1] == s[at + n - 1]);
    }
    if s.len() == 0 {
        assert(key =~= s);
    } else if !ascii_alphanumeric(s[0]) {
        let t = s.skip(1);
        let k = if n == 0 {
            0
        } else {
            at - 1
        };
        assert forall|i: int| 0 <= i < k || k + n <= i < t.len() implies !ascii_alphanumeric(
            #[trigger] t[i],
        ) by {
            assert(!ascii_alphanumeric(s[i + 1]));
        }
        assert(t.subrange(k, k + n) =~= key);
        between_marks_is(t, key, k);
    } else if !ascii_alphanumeric(s.last()) {
        let t = s.drop_last();
        assert forall|i: int| 0 <= i < at || at + n <= i < t.len() implies !ascii_alphanumeric(
            #[trigger] t[i],
        ) by {
            assert(!ascii_alphanumeric(s[i]));
        }
        assert(t.subrange(at, at + n) =~= key);
        between_marks_is(t, key, at);
    } else {
        assert(at == 0 && n == s.len());
        assert(s.subrange(0, n as int) =~= s);
    }
}

/// Normalize a string for fuzzy matching: lowercase, trim, strip
/// leading/trailing non-alphanumeric characters (handles `*NSYNC` vs `NSYNC`,
/// etc.).
pub fn normalize_for_match(s: &str) -> (r: String)
    ensures
        r@ == match_key(s@),
        is_ascii_text(s@) ==> r@ == ascii_key(s@),
{
    let t = trim(s);
    let l = to_lowercase(t.as_str());
    let r = strip_class(l.as_str(), CharClass::NonAlphanumeric);
    proof {
        if is_ascii_text(s@) {
            let low = ascii_lower(s@);
            let o = strip_offset(s@, CharClass::Whitespace);
            let p = strip_offset(l@, CharClass::NonAlphanumeric);
            stripping_cuts_the_ends(s@, CharClass::Whitespace);
            assert forall|i: int| 0 <= i < t@.len() implies (#[trigger] t@[i] as u32) < 128 by {
                assert(t@[i] == s@[o + i]);
            }
            assert forall|i: int| 0 <= i < l@.len() implies (#[trigger] l@[i] as u32) < 128 && l@[i]
                == low[o + i] by {
                assert(t@[i] == s@[o + i]);
            }
            stripping_cuts_the_ends(l@, CharClass::NonAlphanumeric);
            assert forall|i: int|
                0 <= i < o + p || o + p + r@.len() <= i < low.len() implies !ascii_alphanumeric(
                #[trigger] low[i],
            ) by {
                if o <= i < o + l@.len() {
                    assert(low[i] == l@[i - o]);
                } else {
                    assert(!ascii_alphanumeric(s@[i]));
                }
            }
            assert(low.subrange(o + p, o + p + r@.len()) =~= r@) by {
                assert forall|i: int| 0 <= i < r@.len() implies low[o + p + i] == #[trigger] r@[i] by {
                    assert(l@.subrange(p, p + r@.len())[i] == l@[p + i]);
                }
            }
            between_marks_is(low, r@, o + p);
        }
    }
    r
}

pub(crate) proof fn between_marks_facts(s: Seq<char>) -> (at: int)
    ensures
        occurs_at(s, between_marks(s), at),
        forall|i: int|
            0 <= i < at || at + between_marks(s).len() <= i < s.len() ==> !ascii_alphanumeric(
                #[trigger] s[i],
            ),
        between_marks(s).len() > 0 ==> ascii_alphanumeric(between_marks(s)[0]) && ascii_alphanumeric(
            between_marks(s).last(),
        ),
    decreases s.len(),
{
    let key = between_marks(s);
    let n = key.len();
    if s.len() > 0 && !ascii_alphanumeric(s[0]) {
        let t = s.skip(1);
        let k = between_marks_facts(t);
        assert forall|i: int| 0 <= i < k + 1 || k + 1 + n <= i < s.len() implies !ascii_alphanumeric(
            #[trigger] s[i],
        ) by {
            if i > 0 {
                assert(!ascii_alphanumeric(t[i - 1]));
            }
        }
        assert(s.subrange(k + 1, k + 1 + n) =~= t.subrange(k, k + n));
        k + 1
    } else if s.len() > 0 && !ascii_alphanumeric(s.last()) {
        let t = s.drop_last();
        let k = between_marks_facts(t);
        assert forall|i: int| 0 <= i < k || k + n <= i < s.len() implies !ascii_alphanumeric(
            #[trigger] s[i],
        ) by {
            if i < t.len() {
                assert(!ascii_alphanumeric(t[i]));
            }
        }
        assert(s.subrange(k, k + n) =~= t.subrange(k, k + n));
        k
    } else {
        assert(s.subrange(0, n as int) =~= s);
        0
    }
}

/// The key of an ASCII text is ASCII, stands in the lowercased text, begins and
/// ends with a letter or a digit unless it is empty, and is its own key:
/// normalizing it again changes nothing.
pub proof fn normalizing_ascii_twice_is_normalizing_once(s: Seq<char>)
    requires
        is_ascii_text(s),
    ensures
        is_ascii_text(ascii_key(s)),
        has_substring(ascii_lower(s), ascii_key(s)),
        ascii_key(s).len() > 0 ==> ascii_alphanumeric(ascii_key(s)[0]) && ascii_alphanumeric(
            ascii_key(s).last(),
        ),
        ascii_key(ascii_key(s)) == ascii_key(s),
{
    let low = ascii_lower(s);
    let key = ascii_key(s);
    let at = between_marks_facts(low);
    assert forall|i: int| 0 <= i < key.len() implies (#[trigger] key[i] as u32) < 128 && ascii_fold(
        key[i],
    ) == key[i] by {
        assert(low.subrange(at, at + key.len())[i] == low[at + i]);
        assert(low[at + i] == ascii_fold(s[at + i]));
    }
    assert(ascii_lower(key) =~= key);
    assert(key.subrange(0, key.len() as int) =~= key);
    between_marks_is(key, key, 0);
}

/// Marks around an ASCII text do not change its key: `*NSYNC` is matched with
/// `NSYNC`.
pub proof fn marks_around_ascii_are_ignored(front: Seq<char>, s: Seq<char>, back: Seq<char>)
    requires
        forall|i: int| 0 <= i < front.len() ==> !ascii_alphanumeric(#[trigger] front[i]),
        forall|i: int| 0 <= i < back.len() ==> !ascii_alphanumeric(#[trigger] back[i]),
    ensures
        ascii_key(front + s + back) == ascii_key(s),
{
    let low = ascii_lower(s);
    let key = ascii_key(s);
    let at = between_marks_facts(low);
    let whole = front + s + back;
    let all = ascii_lower(whole);
    let k = front.len() + at;
    assert forall|i: int| 0 <= i < k || k + key.len() <= i < all.len() implies !ascii_alphanumeric(
        #[trigger] all[i],
    ) by {
        assert(all[i] == ascii_fold(whole[i]));
        if i < front.len() {
            assert(!ascii_alphanumeric(front[i]));
        } else if i < front.len() + s.len() {
            assert(all[i] == low[i - front.len()]);
        } else {
            assert(!ascii_alphanumeric(back[i - front.len() - s.len()]));
        }
    }
    assert forall|i: int| 0 <= i < key.len() implies all[k + i] == #[trigger] key[i] by {
        assert(low.subrange(at, at + key.len())[i] == low[at + i]);
        assert(all[k + i] == low[at + i]);
    }
    assert(all.subrange(k, k + key.len()) =~= key);
    between_marks_is(all, key, k);
}

proof fn strip_start_facts(s: Seq<char>, class: CharClass)
    ensures
        strip_start(s, class).len() <= s.len(),
        strip_start(s, class) == s.skip(s.len() - strip_start(s, class).len()),
        strip_start(s, class).len() > 0 ==> !in_class(strip_start(s, class)[0], class),
        forall|i: int|
            0 <= i < s.len() - strip_start(s, class).len() ==> in_class(#[trigger] s[i], class),
    decreases s.len(),
{
    if s.len() > 0 && in_class(s[0], class) {
        let t = s.skip(1);
        strip_start_facts(t, class);
        let r = strip_start(s, class);
        assert(s.skip(s.len() - r.len()) =~= t.skip(t.len() - r.len()));
        assert forall|i: int| 0 <= i < s.len() - r.len() implies in_class(#[trigger] s[i], class) by {
            if i > 0 {
                assert(in_class(t[i - 1], class));
            }
        }
    } else {
        assert(s.skip(0) =~= s);
    }
}

proof fn strip_end_facts(s: Seq<char>, class: CharClass)
    ensures
        strip_end(s, class).len() <= s.len(),
        strip_end(s, class) == s.take(strip_end(s, class).len() as int),
        strip_end(s, class).len() > 0 ==> !in_class(strip_end(s, class).last(), class),
        forall|i: int| strip_end(s, class).len() <= i < s.len() ==> in_class(#[trigger] s[i], class),
    decreases s.len(),
{
    if s.len() > 0 && in_class(s.last(), class) {
        let t = s.drop_last();
        strip_end_facts(t, class);
        let r = strip_end(s, class);
        assert(s.take(r.len() as int) =~= t.take(r.len() as int));
        assert forall|i: int| r.len() <= i < s.len() implies in_class(#[trigger] s[i], class) by {
            if i < t.len() {
                assert(in_class(t[i], class));
            }
        }
    } else {
        assert(s.take(s.len() as int) =~= s);
    }
}

/// Stripping cuts off the ends and nothing else: what is left stands in the
/// text as it was, all that is cut off is of the class, and neither end of what
/// is left is.
pub proof fn stripping_cuts_the_ends(s: Seq<char>, class: CharClass)
    ensures
        occurs_at(s, strip(s, class), strip_offset(s, class)),
        forall|i: int|
            0 <= i < strip_offset(s, class) || strip_offset(s, class) + strip(s, class).len() <= i
                < s.len() ==> in_class(#[trigger] s[i], class),
        strip(s, class).len() > 0 ==> !in_class(strip(s, class)[0], class) && !in_class(
            strip(s, class).last(),
            class,
        ),
{
    let a = strip_start(s, class);
    let r = strip(s, class);
    let k = strip_offset(s, class);
    strip_start_facts(s, class);
    strip_end_facts(a, class);
    assert(s.subrange(k, k + r.len()) =~= r);
    assert forall|i: int| 0 <= i < k || k + r.len() <= i < s.len() implies in_class(
        #[trigger] s[i],
        class,
    ) by {
        if i >= k {
            assert(a[i - k] == s[i]);
        }
    }
}

/// A text whose ends are not of the class is not changed by stripping.
pub proof fn stripping_keeps_bare_text(s: Seq<char>, class: CharClass)
    requires
        s.len() > 0 ==> !in_class(s[0], class) && !in_class(s.last(), class),
    ensures
        strip(s, class) == s,
{
}

/// Stripping a second time changes nothing.
pub proof fn stripping_twice_is_stripping_once(s: Seq<char>, class: CharClass)
    ensures
        strip(strip(s, class), class) == strip(s, class),
{
    stripping_cuts_the_ends(s, class);
    stripping_keeps_bare_text(strip(s, class), class);
}

/// A matching key is the trimmed, lowercased text with only characters cut off
/// its ends that are neither letters nor digits; it is empty, or begins and
/// ends with a letter or a digit.
pub proof fn keys_begin_and_end_alphanumeric(s: Seq<char>)
    ensures
        ({
            let whole = lowercase_of(trimmed(s));
            let key = match_key(s);
            let from = strip_offset(whole, CharClass::NonAlphanumeric);
            &&& occurs_at(whole, key, from)
            &&& forall|i: int|
                0 <= i < from || from + key.len() <= i < whole.len() ==> !alphanumeric_char(
                    #[trigger] whole[i],
                )
            &&& key.len() > 0 ==> alphanumeric_char(key[0]) && alphanumeric_char(key.last())
        }),
{
    let whole = lowercase_of(trimmed(s));
    stripping_cuts_the_ends(whole, CharClass::NonAlphanumeric);
    let key = match_key(s);
    let from = strip_offset(whole, CharClass::NonAlphanumeric);
    assert forall|i: int| 0 <= i < from || from + key.len() <= i < whole.len() implies !alphanumeric_char(
        #[trigger] whole[i],
    ) by {
        assert(in_class(whole[i], CharClass::NonAlphanumeric));
    }
}

/// Normalizing a matching key changes nothing, where the key is lowercase
/// already and its first and last character, a letter or a digit each, are not
/// white space.
pub proof fn normalizing_twice_is_normalizing_once(s: Seq<char>)
    requires
        lowercase_of(match_key(s)) == match_key(s),
        match_key(s).len() > 0 ==> !whitespace_char(match_key(s)[0]) && !whitespace_char(
            match_key(s).last(),
        ),
    ensures
        match_key(match_key(s)) == match_key(s),
{
    let key = match_key(s);
    stripping_keeps_bare_text(key, CharClass::Whitespace);
    stripping_twice_is_stripping_once(lowercase_of(trimmed(s)), CharClass::NonAlphanumeric);
}

proof fn strip_start_skips(p: Seq<char>, s: Seq<char>, class: CharClass)
    requires
        forall|i: int| 0 <= i < p.len() ==> in_class(#[trigger] p[i], class),
    ensures
        strip_start(p + s, class) == strip_start(s, class),
    decreases p.len(),
{
    if p.len() == 0 {
        assert(p + s =~= s);
    } else {
        let q = p.skip(1);
        assert forall|i: int| 0 <= i < q.len() implies in_class(#[trigger] q[i], class) by {
            assert(in_class(p[i + 1], class));
        }
        strip_start_skips(q, s, class);
        assert(in_class(p[0], class));
        assert((p + s)[0] == p[0]);
        assert((p + s).skip(1) =~= q + s);
    }
}

/// Two texts that differ, once trimmed and lowercased, only by marks in front
/// have the same key, such as `*NSYNC` and `NSYNC`.
pub proof fn marks_in_front_are_ignored(a: Seq<char>, b: Seq<char>, marks: Seq<char>)
    requires
        lowercase_of(trimmed(a)) == marks + lowercase_of(trimmed(b)),
        forall|i: int| 0 <= i < marks.len() ==> !alphanumeric_char(#[trigger] marks[i]),
    ensures
        match_key(a) == match_key(b),
{
    strip_start_skips(marks, lowercase_of(trimmed(b)), CharClass::NonAlphanumeric);
}

pub open spec fn is_ascii_digit(c: char) -> bool {
    '0' <= c && c <= '9'
}

/// A character that may stand between a track number and a title.
pub open spec fn is_number_separator(c: char) -> bool {
    c == ' ' || c == '.' || c == '-' || c == '_'
}

/// How many characters at the start of the text are ASCII digits.
pub open spec fn leading_digits(s: Seq<char>) -> nat
    decreases s.len(),
{
    if s.len() > 0 && is_ascii_digit(s[0]) {
        1 + leading_digits(s.skip(1))
    } else {
        0
    }
}

/// How many characters at the start of the text are separators.
pub open spec fn leading_separators(s: Seq<char>) -> nat
    decreases s.len(),
{
    if s.len() > 0 && is_number_separator(s[0]) {
        1 + leading_separators(s.skip(1))
    } else {
        0
    }
}

/// A title without its track-number prefix: digits, then separators. A text
/// that lacks either part, or that holds nothing behind them, is unchanged.
pub open spec fn without_track_number(s: Seq<char>) -> Seq<char> {
    let d = leading_digits(s);
    let p = leading_separators(s.skip(d as int));
    if d == 0 || p == 0 || d + p >= s.len() {
        s
    } else {
        s.skip((d + p) as int)
    }
}

/// Strips a leading track number (`"01 Airbag"` becomes `"Airbag"`).
pub fn strip_track_number(s: &str) -> (r: String)
    ensures
        r@ == without_track_number(s@),
{
    let v = chars_of(s);
    let mut d: usize = 0;
    proof {
        assert(v@.skip(0) =~= v@);
    }
    while d < v.len() && '0' <= v[d] && v[d] <= '9'
        invariant
            d <= v.len(),
            v@ == s@,
            leading_digits(s@) == d + leading_digits(v@.skip(d as int)),
        decreases v.len() - d,
    {
        proof {
            assert(v@.skip(d as int).skip(1) =~= v@.skip(d + 1));
        }
        d = d + 1;
    }
    let mut p: usize = d;
    while p < v.len() && (v[p] == ' ' || v[p] == '.' || v[p] == '-' || v[p] == '_')
        invariant
            d <= p <= v.len(),
            v@ == s@,
            leading_separators(s@.skip(d as int)) == (p - d) + leading_separators(v@.skip(p as int)),
        decreases v.len() - p,
    {
        proof {
            assert(v@.skip(p as int).skip(1) =~= v@.skip(p + 1));
        }
        p = p + 1;
    }
    if d == 0 || p == d || p >= v.len() {
        s.to_owned()
    } else {
        proof {
            assert(v@.subrange(p as int, v@.len() as int) =~= s@.skip(p as int));
        }
        string_of_range(&v, p, v.len())
    }
}

/// The key of a name without its track number.
pub open spec fn stripped_key(name: Seq<char>) -> Seq<char> {
    match_key(without_track_number(trimmed(name)))
}

/// The matching key of a track name whose track-number prefix is dropped.
pub fn normalize_without_number(name: &str) -> (r: String)
    ensures
        r@ == stripped_key(name@),
{
    let t = trim(name);
    let s = strip_track_number(t.as_str());
    normalize_for_match(s.as_str())
}

/// A text without its last character.
pub open spec fn shortened(s: Seq<char>) -> Seq<char> {
    if s.len() == 0 {
        s
    } else {
        s.drop_last()
    }
}

/// A text without its last character.
pub fn without_last_char(s: &str) -> (r: String)
    ensures
        r@ == shortened(s@),
{
    let v = chars_of(s);
    let n: usize = if v.len() == 0 {
        0
    } else {
        v.len() - 1
    };
    proof {
        assert(v@.subrange(0, n as int) =~= shortened(s@));
    }
    string_of_range(&v, 0, n)
}

} // verus!
