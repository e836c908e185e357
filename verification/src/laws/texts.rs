//! Texts: trimming, folding case, ordering, and cutting off track numbers.
use vstd::prelude::*;
use crate::device::{find_char, last_dot, track_parts, without_extension};
use crate::text::{
    alphanumeric_char, ascii_alphanumeric, ascii_fold, ascii_key, ascii_lower, between_marks_facts,
    has_substring, leading_digits, leading_separators, lowercase_of, match_key, occurs_at,
    same_ignoring_case, strip_offset, stripped_key, stripping_cuts_the_ends,
    stripping_keeps_bare_text, text_lt, text_order_is_total, trimmed, whitespace_char,
    without_track_number, CharClass,
};

verus! {

/// Trimming cuts white space off the ends of a text and nothing else.
pub proof fn trimming_cuts_white_space(s: Seq<char>)
    ensures
        exists|from: int|
            #![trigger occurs_at(s, trimmed(s), from)]
            0 <= from && from + trimmed(s).len() <= s.len() && s.subrange(
                from,
                from + trimmed(s).len(),
            ) == trimmed(s) && occurs_at(s, trimmed(s), from) && forall|i: int|
                0 <= i < from || from + trimmed(s).len() <= i < s.len() ==> whitespace_char(
                    #[trigger] s[i],
                ),
        trimmed(s).len() > 0 ==> !whitespace_char(trimmed(s)[0]) && !whitespace_char(
            trimmed(s).last(),
        ),
        s.len() > 0 && !whitespace_char(s[0]) && !whitespace_char(s.last()) ==> trimmed(s) == s,
{
    stripping_cuts_the_ends(s, CharClass::Whitespace);
    let from = strip_offset(s, CharClass::Whitespace);
    assert(occurs_at(s, trimmed(s), from));
    assert forall|i: int| 0 <= i < from || from + trimmed(s).len() <= i < s.len() implies whitespace_char(
        #[trigger] s[i],
    ) by {
        assert(crate::text::in_class(s[i], CharClass::Whitespace));
    }
    if s.len() > 0 && !whitespace_char(s[0]) && !whitespace_char(s.last()) {
        stripping_keeps_bare_text(s, CharClass::Whitespace);
    }
}

/// Folding the case of ASCII letters maps `A`–`Z` to the letter 32 places on
/// and leaves every other character alone.
pub proof fn folding_maps_capitals(s: Seq<char>)
    ensures
        ascii_lower(s).len() == s.len(),
        forall|i: int|
            0 <= i < s.len() ==> (if 65 <= s[i] as int && s[i] as int <= 90 {
                #[trigger] ascii_lower(s)[i] as int == s[i] as int + 32
            } else {
                ascii_lower(s)[i] == s[i]
            }),
{
    assert forall|i: int| 0 <= i < s.len() implies (if 65 <= s[i] as int && s[i] as int <= 90 {
        #[trigger] ascii_lower(s)[i] as int == s[i] as int + 32
    } else {
        ascii_lower(s)[i] == s[i]
    }) by {
        assert(ascii_lower(s)[i] == ascii_fold(s[i]));
    }
}

/// Two characters are one letter, in whatever case, or the very same.
pub open spec fn same_letter(a: char, b: char) -> bool {
    ||| a == b
    ||| 65 <= a as int && a as int <= 90 && b as int == a as int + 32
    ||| 65 <= b as int && b as int <= 90 && a as int == b as int + 32
}

/// Two texts agree whatever the case of their ASCII letters exactly where they
/// are as long and agree letter by letter.
pub proof fn ignoring_case_compares_letters(a: Seq<char>, b: Seq<char>)
    ensures
        same_ignoring_case(a, b) <==> a.len() == b.len() && forall|i: int|
            0 <= i < a.len() ==> same_letter(#[trigger] a[i], b[i]),
{
    folding_maps_capitals(a);
    folding_maps_capitals(b);
    if same_ignoring_case(a, b) {
        assert forall|i: int| 0 <= i < a.len() implies same_letter(#[trigger] a[i], b[i]) by {
            assert(ascii_lower(a)[i] == ascii_lower(b)[i]);
            assert(ascii_lower(a)[i] == ascii_fold(a[i]) && ascii_lower(b)[i] == ascii_fold(b[i]));
        }
    }
    if a.len() == b.len() && forall|i: int| 0 <= i < a.len() ==> same_letter(#[trigger] a[i], b[i]) {
        assert forall|i: int| 0 <= i < a.len() implies ascii_lower(a)[i] == ascii_lower(b)[i] by {
            assert(same_letter(a[i], b[i]));
            assert(ascii_lower(a)[i] == ascii_fold(a[i]) && ascii_lower(b)[i] == ascii_fold(b[i]));
        }
        assert(ascii_lower(a) =~= ascii_lower(b));
    }
}

/// One text stands before another where, behind what they have in common, it
/// ends first or goes on with the lesser character.
pub proof fn texts_are_ordered_by_the_first_difference(a: Seq<char>, b: Seq<char>, k: int)
    requires
        0 <= k <= a.len(),
        k <= b.len(),
        forall|i: int| 0 <= i < k ==> a[i] == b[i],
        k < a.len() && k < b.len() ==> a[k] != b[k],
    ensures
        text_lt(a, b) <==> k < b.len() && (k == a.len() || a[k] < b[k]),
    decreases k,
{
    if k > 0 {
        let x = a.skip(1);
        let y = b.skip(1);
        assert forall|i: int| 0 <= i < k - 1 implies x[i] == y[i] by {
            assert(x[i] == a[i + 1] && y[i] == b[i + 1]);
        }
        assert(a[0] == b[0]);
        texts_are_ordered_by_the_first_difference(x, y, k - 1);
    }
}

/// A digit of a track number.
pub open spec fn digit(c: char) -> bool {
    '0' <= c && c <= '9'
}

/// What may stand between a track number and a title.
pub open spec fn separator(c: char) -> bool {
    c == ' ' || c == '.' || c == '-' || c == '_'
}

/// The text is `d` digits, `p` separators, and a title that begins with neither
/// a further separator nor nothing.
pub open spec fn numbered(s: Seq<char>, d: int, p: int) -> bool {
    &&& 0 < d && 0 < p && d + p < s.len()
    &&& forall|i: int| 0 <= i < d ==> digit(#[trigger] s[i])
    &&& forall|i: int| d <= i < d + p ==> separator(#[trigger] s[i])
    &&& !separator(s[d + p])
}

proof fn digits_counted(s: Seq<char>)
    ensures
        leading_digits(s) <= s.len(),
        forall|i: int| 0 <= i < leading_digits(s) ==> digit(#[trigger] s[i]),
        leading_digits(s) < s.len() ==> !digit(s[leading_digits(s) as int]),
    decreases s.len(),
{
    if s.len() > 0 && digit(s[0]) {
        let t = s.skip(1);
        digits_counted(t);
        assert forall|i: int| 0 <= i < leading_digits(s) implies digit(#[trigger] s[i]) by {
            if i > 0 {
                assert(digit(t[i - 1]));
            }
        }
        if leading_digits(s) < s.len() {
            assert(t[leading_digits(t) as int] == s[leading_digits(s) as int]);
        }
    }
}

proof fn separators_counted(s: Seq<char>)
    ensures
        leading_separators(s) <= s.len(),
        forall|i: int| 0 <= i < leading_separators(s) ==> separator(#[trigger] s[i]),
        leading_separators(s) < s.len() ==> !separator(s[leading_separators(s) as int]),
    decreases s.len(),
{
    if s.len() > 0 && separator(s[0]) {
        let t = s.skip(1);
        separators_counted(t);
        assert forall|i: int| 0 <= i < leading_separators(s) implies separator(#[trigger] s[i]) by {
            if i > 0 {
                assert(separator(t[i - 1]));
            }
        }
        if leading_separators(s) < s.len() {
            assert(t[leading_separators(t) as int] == s[leading_separators(s) as int]);
        }
    }
}

/// A numbered title loses its digits and separators and keeps all behind them;
/// any other text is left as it is.
pub proof fn track_numbers_are_cut_off(s: Seq<char>)
    ensures
        forall|d: int, p: int| #[trigger] numbered(s, d, p) ==> without_track_number(s) == s.skip(d + p),
        (forall|d: int, p: int| !#[trigger] numbered(s, d, p)) ==> without_track_number(s) == s,
{
    let n = leading_digits(s) as int;
    digits_counted(s);
    let rest = s.skip(n);
    separators_counted(rest);
    let q = leading_separators(rest) as int;
    assert forall|d: int, p: int| #[trigger] numbered(s, d, p) implies without_track_number(s) == s.skip(
        d + p,
    ) by {
        if n < d {
            assert(digit(s[n]));
        }
        if d < n {
            assert(digit(s[d]));
            assert(separator(s[d]));
        }
        assert(n == d);
        if q < p {
            assert(separator(s[d + q]));
            assert(rest[q] == s[d + q]);
        }
        if p < q {
            assert(separator(rest[p]));
            assert(rest[p] == s[d + p]);
        }
        assert(q == p);
    }
    if without_track_number(s) != s {
        assert(numbered(s, n, q)) by {
            assert forall|i: int| n <= i < n + q implies separator(#[trigger] s[i]) by {
                assert(separator(rest[i - n]));
            }
            assert(rest[q] == s[n + q]);
        }
    }
}

/// The key of a numbered title is that of the title behind the number.
pub proof fn numbers_do_not_count_in_stripped_keys(s: Seq<char>, d: int, p: int)
    requires
        numbered(s, d, p),
        !whitespace_char(s[0]),
        !whitespace_char(s.last()),
    ensures
        stripped_key(s) == match_key(s.skip(d + p)),
{
    trimming_cuts_white_space(s);
    track_numbers_are_cut_off(s);
}

/// The key of a text is what stands in its trimmed, lowercased form between the
/// first and the last letter or digit.
pub proof fn keys_keep_all_between_the_ends(s: Seq<char>)
    ensures
        exists|at: int|
            #![trigger occurs_at(lowercase_of(trimmed(s)), match_key(s), at)]
            occurs_at(lowercase_of(trimmed(s)), match_key(s), at) && 0 <= at && at + match_key(
                s,
            ).len() <= lowercase_of(trimmed(s)).len() && lowercase_of(trimmed(s)).subrange(
                at,
                at + match_key(s).len(),
            ) == match_key(s) && forall|i: int|
                0 <= i < at || at + match_key(s).len() <= i < lowercase_of(trimmed(s)).len()
                    ==> !alphanumeric_char(#[trigger] lowercase_of(trimmed(s))[i]),
{
    crate::text::keys_begin_and_end_alphanumeric(s);
    let at = strip_offset(lowercase_of(trimmed(s)), CharClass::NonAlphanumeric);
    assert(occurs_at(lowercase_of(trimmed(s)), match_key(s), at));
}

/// The key of an ASCII text keeps everything from its first to its last letter
/// or digit.
pub proof fn ascii_keys_keep_all_between_the_ends(s: Seq<char>)
    ensures
        exists|at: int|
            #![trigger occurs_at(ascii_lower(s), ascii_key(s), at)]
            occurs_at(ascii_lower(s), ascii_key(s), at) && 0 <= at && at + ascii_key(s).len()
                <= s.len() && forall|i: int|
                0 <= i < at || at + ascii_key(s).len() <= i < s.len() ==> !ascii_alphanumeric(
                    #[trigger] ascii_lower(s)[i],
                ),
        forall|c: char|
            ascii_alphanumeric(c) <==> 48 <= c as int && c as int <= 57 || 65 <= c as int && c as int
                <= 90 || 97 <= c as int && c as int <= 122,
{
    let at = between_marks_facts(ascii_lower(s));
    assert(occurs_at(ascii_lower(s), ascii_key(s), at));
}

/// The characters of one text stand in the other in a row, from a place on.
pub open spec fn in_a_row(hay: Seq<char>, needle: Seq<char>, i: int) -> bool {
    0 <= i && i + needle.len() <= hay.len() && forall|k: int|
        0 <= k < needle.len() ==> hay[i + k] == #[trigger] needle[k]
}

/// A text contains another exactly where the characters of the other stand in it
/// in a row.
pub proof fn containing_is_standing_in_a_row(hay: Seq<char>, needle: Seq<char>)
    ensures
        has_substring(hay, needle) <==> exists|i: int| in_a_row(hay, needle, i),
{
    if has_substring(hay, needle) {
        let i = choose|i: int| occurs_at(hay, needle, i);
        assert forall|k: int| 0 <= k < needle.len() implies hay[i + k] == #[trigger] needle[k] by {
            assert(hay.subrange(i, i + needle.len())[k] == hay[i + k]);
        }
        assert(in_a_row(hay, needle, i));
    }
    if exists|i: int| in_a_row(hay, needle, i) {
        let i = choose|i: int| in_a_row(hay, needle, i);
        assert(hay.subrange(i, i + needle.len()) =~= needle);
        assert(occurs_at(hay, needle, i));
    }
}

proof fn first_slash(s: Seq<char>, i: int)
    requires
        0 <= i < s.len(),
        s[i] == '/',
        forall|k: int| 0 <= k < i ==> s[k] != '/',
    ensures
        find_char(s, '/') == i,
    decreases s.len(),
{
    if i > 0 {
        let t = s.skip(1);
        assert(t[i - 1] == '/');
        assert forall|k: int| 0 <= k < i - 1 implies t[k] != '/' by {
            assert(s[k + 1] != '/');
        }
        first_slash(t, i - 1);
    }
}

proof fn no_slash(s: Seq<char>)
    requires
        forall|k: int| 0 <= k < s.len() ==> s[k] != '/',
    ensures
        find_char(s, '/') == s.len(),
    decreases s.len(),
{
    if s.len() > 0 {
        let t = s.skip(1);
        assert forall|k: int| 0 <= k < t.len() implies t[k] != '/' by {
            assert(s[k + 1] != '/');
        }
        no_slash(t);
    }
}

/// A path of artist, album and file is read as artist, album and the title that
/// the file is named after.
pub proof fn paths_spell_artist_album_and_title(artist: Seq<char>, album: Seq<char>, file: Seq<char>)
    requires
        !artist.contains('/'),
        !album.contains('/'),
    ensures
        track_parts(artist.push('/') + album.push('/') + file) == (
            artist,
            album,
            without_extension(file),
        ),
{
    let name = artist.push('/') + album.push('/') + file;
    let i = artist.len() as int;
    assert forall|k: int| 0 <= k < i implies name[k] != '/' by {
        assert(artist.contains(artist[k]));
    }
    first_slash(name, i);
    let rest = name.skip(i + 1);
    assert(rest =~= album.push('/') + file);
    let j = album.len() as int;
    assert forall|k: int| 0 <= k < j implies rest[k] != '/' by {
        assert(album.contains(album[k]));
    }
    first_slash(rest, j);
    assert(name.take(i) =~= artist);
    assert(rest.take(j) =~= album);
    assert(rest.skip(j + 1) =~= file);
}

/// A path of artist and file has an unknown album, and a file alone an unknown
/// artist too.
pub proof fn short_paths_fall_back(artist: Seq<char>, file: Seq<char>)
    requires
        !artist.contains('/'),
        !file.contains('/'),
    ensures
        track_parts(artist.push('/') + file) == (
            artist,
            "Unknown Album"@,
            without_extension(file),
        ),
        track_parts(file) == ("Unknown Artist"@, "Unknown Album"@, without_extension(file)),
{
    let name = artist.push('/') + file;
    let i = artist.len() as int;
    assert forall|k: int| 0 <= k < i implies name[k] != '/' by {
        assert(artist.contains(artist[k]));
    }
    first_slash(name, i);
    assert(name.skip(i + 1) =~= file);
    assert(name.take(i) =~= artist);
    assert forall|k: int| 0 <= k < file.len() implies file[k] != '/' by {
        assert(file.contains(file[k]));
    }
    no_slash(file);
}

proof fn dot_found(s: Seq<char>, i: int)
    requires
        0 <= i < s.len(),
        s[i] == '.',
        forall|k: int| i < k < s.len() ==> s[k] != '.',
    ensures
        last_dot(s) == i,
    decreases s.len(),
{
    if i < s.len() - 1 {
        assert(s.last() != '.');
        dot_found(s.drop_last(), i);
    }
}

proof fn dot_missing(s: Seq<char>)
    requires
        !s.contains('.'),
    ensures
        last_dot(s) == -1,
    decreases s.len(),
{
    if s.len() > 0 {
        assert(s.contains(s.last()));
        let d = s.drop_last();
        if d.contains('.') {
            let k = d.index_of('.');
            assert(s[k] == '.');
        }
        dot_missing(d);
    }
}

/// An extension is what follows the last dot, and is dropped with it; a file
/// without a dot keeps its name.
pub proof fn extensions_are_dropped(stem: Seq<char>, extension: Seq<char>)
    requires
        !extension.contains('.'),
    ensures
        without_extension(stem.push('.') + extension) == stem,
        without_extension(extension) == extension,
{
    let file = stem.push('.') + extension;
    assert forall|k: int| stem.len() < k < file.len() implies file[k] != '.' by {
        assert(extension.contains(extension[k - stem.len() - 1]));
    }
    dot_found(file, stem.len() as int);
    assert(file.take(stem.len() as int) =~= stem);
    dot_missing(extension);
}

/// Of two different texts one stands before the other, and never both ways.
pub proof fn different_texts_are_ordered(a: Seq<char>, b: Seq<char>)
    requires
        a != b,
    ensures
        text_lt(a, b) != text_lt(b, a),
{
    text_order_is_total(a, b);
}

} // verus!
