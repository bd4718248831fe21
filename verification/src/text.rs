//! Plain-text helpers shared by the parser and the renderer: splitting
//! into lines, whitespace tokenization, substring search, left-justified
//! padding and decimal formatting, each against a sequence-level model.

use vstd::prelude::*;

verus! {

/// A field separator inside one line of tool output: space, tab, or a
/// carriage return left over from CRLF line endings.
pub open spec fn is_space_char(c: char) -> bool {
    c == ' ' || c == '\t' || c == '\r'
}

/// Length of the leading run of characters before the first newline.
pub open spec fn line_len(s: Seq<char>) -> nat
    decreases s.len(),
{
    if s.len() == 0 || s[0] == '\n' {
        0
    } else {
        1 + line_len(s.drop_first())
    }
}

/// `line_len` is the index of the first newline, or the whole length
/// when there is none.
proof fn lemma_line_len_is_first_newline(s: Seq<char>, c: int)
    requires
        0 <= c <= s.len(),
        forall|k: int| 0 <= k < c ==> s[k] != '\n',
        c == s.len() || s[c] == '\n',
    ensures
        line_len(s) == c,
    decreases c,
{
    if c == 0 {
        if s.len() != 0 {
            assert(s[0] == '\n');
        }
    } else {
        assert(s[0] != '\n');
        let t = s.drop_first();
        assert(forall|k: int| 0 <= k < c - 1 ==> t[k] == s[k + 1] && t[k] != '\n');
        if c - 1 < t.len() {
            assert(t[c - 1] == s[c]);
        }
        lemma_line_len_is_first_newline(t, c - 1);
    }
}

/// The lines of a text, split on newline characters; a trailing newline
/// produces no empty final line, matching how the lines of tool output
/// are usually counted.
pub open spec fn split_lines(s: Seq<char>) -> Seq<Seq<char>>
    decreases s.len(),
{
    if s.len() == 0 {
        Seq::empty()
    } else {
        let l = line_len(s);
        if l < s.len() {
            seq![s.take(l as int)] + split_lines(s.skip(l as int + 1))
        } else {
            seq![s]
        }
    }
}

/// Finds the first newline at or after `from`.
fn find_newline(s: &str, from: usize) -> (j: usize)
    requires
        from <= s@.len(),
    ensures
        from <= j <= s@.len(),
        forall|k: int| from <= k < j ==> s@[k] != '\n',
        j < s@.len() ==> s@[j as int] == '\n',
{
    let n = s.unicode_len();
    let mut j = from;
    while j < n && s.get_char(j) != '\n'
        invariant
            from <= j <= n,
            n == s@.len(),
            forall|k: int| from <= k < j ==> s@[k] != '\n',
        decreases n - j,
    {
        j = j + 1;
    }
    j
}

/// Splits a text into its lines.
pub fn split_lines_exec(s: &str) -> (r: Vec<String>)
    ensures
        r@.map_values(|t: String| t@) == split_lines(s@),
{
    let n = s.unicode_len();
    let mut out: Vec<String> = Vec::new();
    let mut i: usize = 0;
    proof {
        assert(s@.skip(0) =~= s@);
        assert(out@.map_values(|t: String| t@) + split_lines(s@) =~= split_lines(s@));
    }
    while i < n
        invariant
            i <= n,
            n == s@.len(),
            split_lines(s@) =~= out@.map_values(|t: String| t@) + split_lines(s@.skip(i as int)),
        decreases n - i,
    {
        let ghost prev = out@.map_values(|t: String| t@);
        let ghost rest = s@.skip(i as int);
        let j = find_newline(s, i);
        let line = s.substring_char(i, j).to_owned();
        let next: usize = if j < n {
            j + 1
        } else {
            n
        };
        proof {
            assert(forall|k: int| 0 <= k < j - i ==> rest[k] == s@[k + i] && rest[k] != '\n');
            if j - i < rest.len() {
                assert(rest[j - i] == s@[j as int]);
            }
            lemma_line_len_is_first_newline(rest, j - i);
            assert(rest.take(j - i) =~= s@.subrange(i as int, j as int));
            if j < n {
                assert(rest.skip(j - i + 1) =~= s@.skip(next as int));
            } else {
                assert(rest =~= s@.subrange(i as int, j as int));
                assert(s@.skip(next as int) =~= Seq::<char>::empty());
            }
            assert(split_lines(rest) =~= seq![line@] + split_lines(s@.skip(next as int)));
        }
        out.push(line);
        i = next;
        proof {
            assert(out@.map_values(|t: String| t@) =~= prev.push(line@));
            assert(prev.push(line@) + split_lines(s@.skip(i as int)) =~= prev + (seq![line@]
                + split_lines(s@.skip(i as int))));
        }
    }
    proof {
        assert(s@.skip(n as int) =~= Seq::<char>::empty());
        assert(out@.map_values(|t: String| t@) + split_lines(Seq::<char>::empty()) =~= out@.map_values(
            |t: String| t@,
        ));
    }
    out
}

/// Length of the leading run of non-separator characters.
pub open spec fn token_len(s: Seq<char>) -> nat
    decreases s.len(),
{
    if s.len() == 0 || is_space_char(s[0]) {
        0
    } else {
        1 + token_len(s.drop_first())
    }
}

proof fn lemma_token_len_le(s: Seq<char>)
    ensures
        token_len(s) <= s.len(),
    decreases s.len(),
{
    if s.len() != 0 && !is_space_char(s[0]) {
        lemma_token_len_le(s.drop_first());
    }
}

/// `token_len` is the index of the first separator, or the whole length
/// when there is none.
proof fn lemma_token_len_is_first_space(s: Seq<char>, c: int)
    requires
        0 <= c <= s.len(),
        forall|k: int| 0 <= k < c ==> !is_space_char(s[k]),
        c == s.len() || is_space_char(s[c]),
    ensures
        token_len(s) == c,
    decreases c,
{
    if c == 0 {
        if s.len() != 0 {
            assert(is_space_char(s[0]));
        }
    } else {
        assert(!is_space_char(s[0]));
        let t = s.drop_first();
        assert(forall|k: int| 0 <= k < c - 1 ==> t[k] == s[k + 1] && !is_space_char(t[k]));
        if c - 1 < t.len() {
            assert(t[c - 1] == s[c]);
        }
        lemma_token_len_is_first_space(t, c - 1);
    }
}

/// The whitespace-delimited fields of one line, in order, each non-empty.
pub open spec fn tokens_of(s: Seq<char>) -> Seq<Seq<char>>
    decreases s.len(),
    via tokens_of_decreases
{
    if s.len() == 0 {
        Seq::empty()
    } else if is_space_char(s[0]) {
        tokens_of(s.drop_first())
    } else {
        seq![s.take(token_len(s) as int)] + tokens_of(s.skip(token_len(s) as int))
    }
}

#[via_fn]
proof fn tokens_of_decreases(s: Seq<char>) {
    lemma_token_len_le(s);
}

/// Finds the first separator at or after `from`.
fn find_space(s: &str, from: usize) -> (j: usize)
    requires
        from <= s@.len(),
    ensures
        from <= j <= s@.len(),
        forall|k: int| from <= k < j ==> !is_space_char(s@[k]),
        j < s@.len() ==> is_space_char(s@[j as int]),
{
    let n = s.unicode_len();
    let mut j = from;
    while j < n && !is_space(s.get_char(j))
        invariant
            from <= j <= n,
            n == s@.len(),
            forall|k: int| from <= k < j ==> !is_space_char(s@[k]),
        decreases n - j,
    {
        j = j + 1;
    }
    j
}

/// Tests a character for the separator set of `is_space_char`.
fn is_space(c: char) -> (b: bool)
    ensures
        b == is_space_char(c),
{
    c == ' ' || c == '\t' || c == '\r'
}

/// Splits one line into its whitespace-delimited fields.
pub fn tokenize(s: &str) -> (r: Vec<String>)
    ensures
        r@.map_values(|t: String| t@) == tokens_of(s@),
{
    let n = s.unicode_len();
    let mut out: Vec<String> = Vec::new();
    let mut i: usize = 0;
    proof {
        assert(s@.skip(0) =~= s@);
        assert(out@.map_values(|t: String| t@) + tokens_of(s@) =~= tokens_of(s@));
    }
    while i < n
        invariant
            i <= n,
            n == s@.len(),
            tokens_of(s@) =~= out@.map_values(|t: String| t@) + tokens_of(s@.skip(i as int)),
        decreases n - i,
    {
        let ghost prev = out@.map_values(|t: String| t@);
        let ghost rest = s@.skip(i as int);
        if is_space(s.get_char(i)) {
            proof {
                assert(rest[0] == s@[i as int]);
                assert(rest.drop_first() =~= s@.skip(i as int + 1));
            }
            i = i + 1;
        } else {
            let j = find_space(s, i);
            let tok = s.substring_char(i, j).to_owned();
            proof {
                assert(rest[0] == s@[i as int]);
                assert(forall|k: int|
                    0 <= k < j - i ==> rest[k] == s@[k + i] && !is_space_char(rest[k]));
                if j - i < rest.len() {
                    assert(rest[j - i] == s@[j as int]);
                }
                lemma_token_len_is_first_space(rest, j - i);
                assert(rest.take(j - i) =~= s@.subrange(i as int, j as int));
                assert(rest.skip(j - i) =~= s@.skip(j as int));
                assert(tokens_of(rest) =~= seq![tok@] + tokens_of(s@.skip(j as int)));
            }
            out.push(tok);
            i = j;
            proof {
                assert(out@.map_values(|t: String| t@) =~= prev.push(tok@));
                assert(prev.push(tok@) + tokens_of(s@.skip(i as int)) =~= prev + (seq![tok@]
                    + tokens_of(s@.skip(i as int))));
            }
        }
    }
    proof {
        assert(s@.skip(n as int) =~= Seq::<char>::empty());
        assert(out@.map_values(|t: String| t@) + tokens_of(Seq::<char>::empty()) =~= out@.map_values(
            |t: String| t@,
        ));
    }
    out
}

/// `needle` occurs in `hay` starting at offset `k`.
pub open spec fn matches_at(hay: Seq<char>, needle: Seq<char>, k: int) -> bool {
    0 <= k && k + needle.len() <= hay.len() && hay.subrange(k, k + needle.len()) == needle
}

/// `needle` occurs somewhere in `hay`.
pub open spec fn has_substring(hay: Seq<char>, needle: Seq<char>) -> bool {
    exists|k: int| matches_at(hay, needle, k)
}

/// Compares `needle` against `hay` at offset `k`.
fn matches_at_exec(hay: &str, needle: &str, k: usize) -> (b: bool)
    requires
        k + needle@.len() <= hay@.len(),
    ensures
        b == matches_at(hay@, needle@, k as int),
{
    let n = hay.unicode_len();
    let m = needle.unicode_len();
    let mut j: usize = 0;
    while j < m
        invariant
            j <= m,
            n == hay@.len(),
            m == needle@.len(),
            k + m <= n,
            forall|t: int| 0 <= t < j ==> hay@[k + t] == needle@[t],
        decreases m - j,
    {
        if hay.get_char(k + j) != needle.get_char(j) {
            proof {
                assert(hay@.subrange(k as int, k + m) != needle@) by {
                    assert(hay@.subrange(k as int, k + m)[j as int] == hay@[k + j]);
                }
            }
            return false;
        }
        j = j + 1;
    }
    proof {
        assert(hay@.subrange(k as int, k + m) =~= needle@);
    }
    true
}

/// Reports whether `needle` occurs anywhere in `hay`.
pub fn str_contains(hay: &str, needle: &str) -> (b: bool)
    ensures
        b == has_substring(hay@, needle@),
{
    let n = hay.unicode_len();
    let m = needle.unicode_len();
    if m > n {
        proof {
            assert(forall|k: int| !matches_at(hay@, needle@, k));
        }
        return false;
    }
    if m == 0 {
        proof {
            assert(hay@.subrange(0, 0) =~= needle@);
            assert(matches_at(hay@, needle@, 0));
        }
        return true;
    }
    let mut k: usize = 0;
    while k <= n - m
        invariant
            1 <= m <= n,
            n == hay@.len(),
            m == needle@.len(),
            k <= n - m + 1,
            forall|t: int| 0 <= t < k ==> !matches_at(hay@, needle@, t),
        decreases n - m + 1 - k,
    {
        if matches_at_exec(hay, needle, k) {
            return true;
        }
        k = k + 1;
    }
    proof {
        assert(forall|t: int| matches_at(hay@, needle@, t) ==> 0 <= t <= n - m);
    }
    false
}

/// `suffix` ends `s`.
pub open spec fn has_suffix_spec(s: Seq<char>, suffix: Seq<char>) -> bool {
    suffix.len() <= s.len() && s.subrange(s.len() - suffix.len(), s.len() as int) == suffix
}

/// Reports whether `s` ends with `suffix`.
pub fn has_suffix(s: &str, suffix: &str) -> (b: bool)
    ensures
        b == has_suffix_spec(s@, suffix@),
{
    let n = s.unicode_len();
    let m = suffix.unicode_len();
    if m > n {
        return false;
    }
    matches_at_exec(s, suffix, n - m)
}

/// The part of `path` after its last backslash: the file name of a
/// backslash-separated path, or the whole of it when none occurs.
pub open spec fn base_name_spec(path: Seq<char>) -> Seq<char>
    decreases path.len(),
{
    if path.len() == 0 {
        path
    } else if path.last() == '\\' {
        Seq::empty()
    } else {
        base_name_spec(path.drop_last()).push(path.last())
    }
}

proof fn lemma_base_name_no_backslash(path: Seq<char>, c: int)
    requires
        0 <= c <= path.len(),
        forall|k: int| c <= k < path.len() ==> path[k] != '\\',
        c == 0 || path[c - 1] == '\\',
    ensures
        base_name_spec(path) =~= path.skip(c),
    decreases path.len() - c,
{
    if c == path.len() {
        if c > 0 {
            assert(path.last() == '\\');
        }
        assert(path.skip(c) =~= Seq::<char>::empty());
    } else {
        assert(path.last() != '\\');
        let t = path.drop_last();
        assert(forall|k: int| c <= k < t.len() ==> t[k] == path[k] && t[k] != '\\');
        if c > 0 {
            assert(t[c - 1] == path[c - 1]);
        }
        lemma_base_name_no_backslash(t, c);
        assert(t.skip(c).push(path.last()) =~= path.skip(c));
    }
}

/// Returns the final backslash-separated component of `path`, the way a
/// display name is derived from an executable's image path.
pub fn base_name(path: &str) -> (r: String)
    ensures
        r@ == base_name_spec(path@),
{
    let n = path.unicode_len();
    let mut c = n;
    while c > 0 && path.get_char(c - 1) != '\\'
        invariant
            c <= n,
            n == path@.len(),
            forall|k: int| c <= k < n ==> path@[k] != '\\',
        decreases c,
    {
        c = c - 1;
    }
    let r = path.substring_char(c, n).to_owned();
    proof {
        lemma_base_name_no_backslash(path@, c as int);
        assert(path@.skip(c as int) =~= path@.subrange(c as int, n as int));
    }
    r
}

/// `n` spaces.
pub open spec fn spaces(n: nat) -> Seq<char> {
    Seq::new(n, |i: int| ' ')
}

/// `s` left-justified in a field of `width` characters; a longer value
/// is kept whole rather than truncated.
pub open spec fn padded(s: Seq<char>, width: nat) -> Seq<char> {
    if s.len() >= width {
        s
    } else {
        s + spaces((width - s.len()) as nat)
    }
}

/// Left-justifies `s` in a field of `width` characters.
pub fn pad_right(s: &str, width: usize) -> (r: String)
    ensures
        r@ == padded(s@, width as nat),
{
    let mut r = s.to_owned();
    let mut have = s.unicode_len();
    proof {
        reveal_strlit(" ");
        assert(r@ =~= s@ + spaces(0));
    }
    while have < width
        invariant
            have == r@.len(),
            s@.len() <= have,
            have <= width || have == s@.len(),
            r@ =~= s@ + spaces((have - s@.len()) as nat),
        decreases width - have,
    {
        r.append(" ");
        have = have + 1;
        proof {
            reveal_strlit(" ");
            assert(" "@ =~= seq![' ']);
            assert(s@ + spaces((have - s@.len()) as nat) =~= (s@ + spaces(
                (have - 1 - s@.len()) as nat,
            )) + " "@);
        }
    }
    proof {
        if s@.len() >= width {
            assert(r@ =~= s@);
        }
        assert(r@ =~= padded(s@, width as nat));
    }
    r
}

/// `n` copies of the character `c`.
pub open spec fn repeated(c: char, n: nat) -> Seq<char> {
    Seq::new(n, |i: int| c)
}

/// The decimal digit character for a value below ten.
pub open spec fn dec_digit(d: int) -> char {
    if d == 0 {
        '0'
    } else if d == 1 {
        '1'
    } else if d == 2 {
        '2'
    } else if d == 3 {
        '3'
    } else if d == 4 {
        '4'
    } else if d == 5 {
        '5'
    } else if d == 6 {
        '6'
    } else if d == 7 {
        '7'
    } else if d == 8 {
        '8'
    } else {
        '9'
    }
}

/// The decimal representation of `n`, most significant digit first,
/// without leading zeros (a lone zero for zero itself).
pub open spec fn dec_rep(n: nat) -> Seq<char>
    decreases n,
{
    if n < 10 {
        seq![dec_digit(n as int)]
    } else {
        dec_rep(n / 10) + seq![dec_digit((n % 10) as int)]
    }
}

/// The one-character string for a decimal digit.
fn digit_str(d: u64) -> (r: &'static str)
    requires
        d < 10,
    ensures
        r@ == seq![dec_digit(d as int)],
{
    proof {
        reveal_strlit("0");
        reveal_strlit("1");
        reveal_strlit("2");
        reveal_strlit("3");
        reveal_strlit("4");
        reveal_strlit("5");
        reveal_strlit("6");
        reveal_strlit("7");
        reveal_strlit("8");
        reveal_strlit("9");
    }
    let r = if d == 0 {
        "0"
    } else if d == 1 {
        "1"
    } else if d == 2 {
        "2"
    } else if d == 3 {
        "3"
    } else if d == 4 {
        "4"
    } else if d == 5 {
        "5"
    } else if d == 6 {
        "6"
    } else if d == 7 {
        "7"
    } else if d == 8 {
        "8"
    } else {
        "9"
    };
    proof {
        assert(r@ =~= seq![dec_digit(d as int)]);
    }
    r
}

/// Formats `n` in decimal.
pub fn u64_to_string(n: u64) -> (r: String)
    ensures
        r@ == dec_rep(n as nat),
    decreases n,
{
    if n < 10 {
        digit_str(n).to_owned()
    } else {
        let mut r = u64_to_string(n / 10);
        r.append(digit_str(n % 10));
        proof {
            assert(dec_rep((n / 10) as nat) + seq![dec_digit((n % 10) as int)] =~= dec_rep(
                n as nat,
            ));
        }
        r
    }
}

/// Compares two strings character by character.
pub fn str_eq(a: &str, b: &str) -> (r: bool)
    ensures
        r == (a@ == b@),
{
    let n = a.unicode_len();
    let m = b.unicode_len();
    if n != m {
        return false;
    }
    let mut i: usize = 0;
    while i < n
        invariant
            i <= n,
            n == a@.len(),
            n == b@.len(),
            forall|k: int| 0 <= k < i ==> a@[k] == b@[k],
        decreases n - i,
    {
        if a.get_char(i) != b.get_char(i) {
            return false;
        }
        i = i + 1;
    }
    proof {
        assert(a@ =~= b@);
    }
    true
}

/// ASCII lower-casing of one character: upper-case letters move down to
/// their lower-case forms, everything else is unchanged.
pub open spec fn ascii_lower(c: char) -> char {
    if 'A' <= c <= 'Z' {
        ((c as u8) + 0x20) as char
    } else {
        c
    }
}

/// The ASCII-lower-cased image of a sequence.
pub open spec fn ascii_lower_seq(s: Seq<char>) -> Seq<char> {
    s.map_values(|c: char| ascii_lower(c))
}

/// Lower-cases one ASCII character.
fn ascii_lower_exec(c: char) -> (r: char)
    ensures
        r == ascii_lower(c),
{
    if 'A' <= c && c <= 'Z' {
        (c as u8 + 0x20) as char
    } else {
        c
    }
}

/// Compares two strings for equality up to ASCII case.
pub fn eq_ignore_ascii_case_exec(a: &str, b: &str) -> (r: bool)
    ensures
        r == (ascii_lower_seq(a@) == ascii_lower_seq(b@)),
{
    let n = a.unicode_len();
    let m = b.unicode_len();
    if n != m {
        proof {
            assert(ascii_lower_seq(a@).len() == n);
            assert(ascii_lower_seq(b@).len() == m);
        }
        return false;
    }
    let mut i: usize = 0;
    while i < n
        invariant
            i <= n,
            n == a@.len(),
            n == b@.len(),
            forall|k: int| 0 <= k < i ==> ascii_lower(a@[k]) == ascii_lower(b@[k]),
        decreases n - i,
    {
        if ascii_lower_exec(a.get_char(i)) != ascii_lower_exec(b.get_char(i)) {
            proof {
                assert(ascii_lower_seq(a@)[i as int] == ascii_lower(a@[i as int]));
                assert(ascii_lower_seq(b@)[i as int] == ascii_lower(b@[i as int]));
            }
            return false;
        }
        i = i + 1;
    }
    proof {
        assert(ascii_lower_seq(a@) =~= ascii_lower_seq(b@));
    }
    true
}

} // verus!
