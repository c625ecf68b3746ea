//! Verified text helpers: whitespace trimming, the case-insensitive
//! public-flag words, filename sanitization for the download header,
//! decimal rendering for storage paths, and bearer-header parsing.

use vstd::prelude::*;

verus! {

/// The whitespace characters stripped from both ends of small text
/// fields (the public flag, usernames) before they are interpreted.
pub open spec fn is_flag_space(c: char) -> bool {
    c == ' ' || c == '\t' || c == '\n' || c == '\r'
}

/// `s` with leading and trailing whitespace removed.
pub open spec fn trim_spec(s: Seq<char>) -> Seq<char>
    decreases s.len(),
{
    if s.len() > 0 && is_flag_space(s[0]) {
        trim_spec(s.drop_first())
    } else if s.len() > 0 && is_flag_space(s.last()) {
        trim_spec(s.drop_last())
    } else {
        s
    }
}

/// ASCII lowercase folding of a single character.
pub open spec fn lower_char(c: char) -> char {
    if 65 <= c as u32 && c as u32 <= 90 {
        ((c as u32 + 32) as u32) as char
    } else {
        c
    }
}

/// Case-insensitive (ASCII) equality of two character sequences.
pub open spec fn eq_ignore_ascii_case(a: Seq<char>, b: Seq<char>) -> bool {
    a.len() == b.len() && (forall|i: int| 0 <= i < a.len() ==> lower_char(a[i]) == lower_char(b[i]))
}

/// Whether a multipart text field marks an upload as public: one of
/// "1", "true", "yes", "on", ignoring case and surrounding whitespace.
pub open spec fn is_truthy_flag(s: Seq<char>) -> bool {
    ||| eq_ignore_ascii_case(trim_spec(s), "1"@)
    ||| eq_ignore_ascii_case(trim_spec(s), "true"@)
    ||| eq_ignore_ascii_case(trim_spec(s), "yes"@)
    ||| eq_ignore_ascii_case(trim_spec(s), "on"@)
}

proof fn lemma_trim_all_space(s: Seq<char>)
    requires
        forall|i: int| 0 <= i < s.len() ==> is_flag_space(s[i]),
    ensures
        trim_spec(s).len() == 0,
    decreases s.len(),
{
    if s.len() > 0 {
        assert(forall|i: int|
            0 <= i < s.drop_first().len() ==> is_flag_space(#[trigger] s.drop_first()[i]));
        lemma_trim_all_space(s.drop_first());
    }
}

proof fn lemma_trim_has_nonspace(s: Seq<char>, i: int)
    requires
        0 <= i < s.len(),
        !is_flag_space(s[i]),
    ensures
        trim_spec(s).len() > 0,
    decreases s.len(),
{
    if is_flag_space(s[0]) {
        assert(s.drop_first()[i - 1] == s[i]);
        lemma_trim_has_nonspace(s.drop_first(), i - 1);
    } else if is_flag_space(s.last()) {
        assert(i != s.len() - 1);
        assert(s.drop_last()[i] == s[i]);
        lemma_trim_has_nonspace(s.drop_last(), i);
    }
}

proof fn lemma_trim_window(s: Seq<char>, lo: int, hi: int)
    requires
        0 <= lo < hi <= s.len(),
        forall|i: int| 0 <= i < lo ==> is_flag_space(s[i]),
        forall|i: int| hi <= i < s.len() ==> is_flag_space(s[i]),
        !is_flag_space(s[lo]),
        !is_flag_space(s[hi - 1]),
    ensures
        trim_spec(s) == s.subrange(lo, hi),
    decreases s.len(),
{
    if lo > 0 {
        let t = s.drop_first();
        assert(forall|i: int| 0 <= i < lo - 1 ==> is_flag_space(#[trigger] t[i]));
        assert(forall|i: int| hi - 1 <= i < t.len() ==> is_flag_space(#[trigger] t[i]));
        assert(t[lo - 1] == s[lo]);
        assert(t[hi - 2] == s[hi - 1]);
        lemma_trim_window(t, lo - 1, hi - 1);
        assert(t.subrange(lo - 1, hi - 1) =~= s.subrange(lo, hi));
    } else if hi < s.len() {
        assert(is_flag_space(s.last()));
        let t = s.drop_last();
        assert(forall|i: int| hi <= i < t.len() ==> is_flag_space(#[trigger] t[i]));
        assert(t[lo] == s[lo]);
        assert(t[hi - 1] == s[hi - 1]);
        lemma_trim_window(t, lo, hi);
        assert(t.subrange(lo, hi) =~= s.subrange(lo, hi));
    } else {
        assert(s.subrange(0, s.len() as int) =~= s);
    }
}

fn is_space_char(c: char) -> (r: bool)
    ensures
        r == is_flag_space(c),
{
    c == ' ' || c == '\t' || c == '\n' || c == '\r'
}

/// Whether `s` holds nothing but whitespace, as a trimmed-empty test.
pub fn is_blank(s: &str) -> (r: bool)
    ensures
        r == (trim_spec(s@).len() == 0),
{
    let n: usize = s.unicode_len();
    let mut i: usize = 0;
    while i < n
        invariant
            i <= n,
            n == s@.len(),
            forall|j: int| 0 <= j < i ==> is_flag_space(s@[j]),
        decreases n - i,
    {
        let c = s.get_char(i);
        if !is_space_char(c) {
            proof {
                lemma_trim_has_nonspace(s@, i as int);
            }
            return false;
        }
        i = i + 1;
    }
    proof {
        lemma_trim_all_space(s@);
    }
    true
}

/// Reads a multipart text field as the public/private marker:
/// true exactly for "1", "true", "yes" or "on", in any case and with
/// surrounding whitespace ignored.
pub fn parse_public_flag(text: &str) -> (b: bool)
    ensures
        b == is_truthy_flag(text@),
{
    proof {
        reveal_strlit("1");
        reveal_strlit("true");
        reveal_strlit("yes");
        reveal_strlit("on");
    }
    let n: usize = text.unicode_len();
    let mut lo: usize = 0;
    while lo < n && is_space_char(text.get_char(lo))
        invariant
            lo <= n,
            n == text@.len(),
            forall|j: int| 0 <= j < lo ==> is_flag_space(text@[j]),
        decreases n - lo,
    {
        lo = lo + 1;
    }
    if lo == n {
        proof {
            lemma_trim_all_space(text@);
        }
        return false;
    }
    let mut hi: usize = n;
    while hi > lo + 1 && is_space_char(text.get_char(hi - 1))
        invariant
            lo < hi <= n,
            n == text@.len(),
            forall|j: int| 0 <= j < lo ==> is_flag_space(text@[j]),
            !is_flag_space(text@[lo as int]),
            forall|j: int| hi <= j < n ==> is_flag_space(text@[j]),
        decreases hi,
    {
        hi = hi - 1;
    }
    if is_space_char(text.get_char(hi - 1)) {
        // Only possible when the window shrank to the single char at lo,
        // which is not whitespace; unreachable, but kept total.
        proof {
            assert(hi == lo + 1);
            assert(text@[hi - 1] == text@[lo as int]);
            assert(false);
        }
    }
    proof {
        lemma_trim_window(text@, lo as int, hi as int);
    }
    let ghost w = text@.subrange(lo as int, hi as int);
    let len: usize = hi - lo;
    if len == 1 {
        let c0 = text.get_char(lo);
        let r = c0 == '1';
        proof {
            assert(w[0] == text@[lo as int]);
            if r {
                assert(eq_ignore_ascii_case(w, "1"@));
            } else {
                assert(!eq_ignore_ascii_case(w, "1"@));
            }
        }
        r
    } else if len == 2 {
        let c0 = text.get_char(lo);
        let c1 = text.get_char(lo + 1);
        let r = (c0 == 'o' || c0 == 'O') && (c1 == 'n' || c1 == 'N');
        proof {
            assert(w[0] == text@[lo as int]);
            assert(w[1] == text@[lo as int + 1]);
        }
        r
    } else if len == 3 {
        let c0 = text.get_char(lo);
        let c1 = text.get_char(lo + 1);
        let c2 = text.get_char(lo + 2);
        let r = (c0 == 'y' || c0 == 'Y') && (c1 == 'e' || c1 == 'E') && (c2 == 's' || c2 == 'S');
        proof {
            assert(w[0] == text@[lo as int]);
            assert(w[1] == text@[lo as int + 1]);
            assert(w[2] == text@[lo as int + 2]);
        }
        r
    } else if len == 4 {
        let c0 = text.get_char(lo);
        let c1 = text.get_char(lo + 1);
        let c2 = text.get_char(lo + 2);
        let c3 = text.get_char(lo + 3);
        let r = (c0 == 't' || c0 == 'T') && (c1 == 'r' || c1 == 'R') && (c2 == 'u' || c2 == 'U')
            && (c3 == 'e' || c3 == 'E');
        proof {
            assert(w[0] == text@[lo as int]);
            assert(w[1] == text@[lo as int + 1]);
            assert(w[2] == text@[lo as int + 2]);
            assert(w[3] == text@[lo as int + 3]);
        }
        r
    } else {
        false
    }
}

/// Whether `s` ends with `suffix`, over character sequences.
pub open spec fn ends_with_spec(s: Seq<char>, suffix: Seq<char>) -> bool {
    suffix.len() <= s.len() && s.subrange(s.len() - suffix.len(), s.len() as int) == suffix
}

pub fn str_ends_with(s: &str, suffix: &str) -> (r: bool)
    ensures
        r == ends_with_spec(s@, suffix@),
{
    let n: usize = s.unicode_len();
    let m: usize = suffix.unicode_len();
    if m > n {
        return false;
    }
    let mut j: usize = 0;
    while j < m
        invariant
            j <= m <= n,
            n == s@.len(),
            m == suffix@.len(),
            forall|k: int| 0 <= k < j ==> s@[n - m + k] == suffix@[k],
        decreases m - j,
    {
        let a = s.get_char(n - m + j);
        let b = suffix.get_char(j);
        if a != b {
            proof {
                let sub = s@.subrange(s@.len() - suffix@.len(), s@.len() as int);
                assert(sub[j as int] == s@[n - m + j]);
            }
            return false;
        }
        j = j + 1;
    }
    proof {
        let sub = s@.subrange(s@.len() - suffix@.len(), s@.len() as int);
        assert(sub =~= suffix@);
    }
    true
}

/// The part of a filename before its first '.', or all of it when
/// no '.' occurs.
pub open spec fn before_dot(s: Seq<char>) -> Seq<char>
    decreases s.len(),
{
    if s.len() == 0 {
        s
    } else if s[0] == '.' {
        Seq::empty()
    } else {
        seq![s[0]] + before_dot(s.drop_first())
    }
}

proof fn lemma_before_dot_window(s: Seq<char>, i: int)
    requires
        0 <= i <= s.len(),
        forall|j: int| 0 <= j < i ==> s[j] != '.',
        i == s.len() || s[i] == '.',
    ensures
        before_dot(s) == s.subrange(0, i),
    decreases s.len(),
{
    if s.len() == 0 {
        assert(s.subrange(0, 0) =~= s);
    } else if s[0] == '.' {
        assert(i == 0);
        assert(s.subrange(0, 0) =~= Seq::<char>::empty());
    } else {
        let t = s.drop_first();
        assert(i >= 1);
        assert(forall|j: int| 0 <= j < i - 1 ==> #[trigger] t[j] == s[j + 1]);
        assert(i - 1 == t.len() || t[i - 1] == '.');
        lemma_before_dot_window(t, i - 1);
        assert(seq![s[0]] + t.subrange(0, i - 1) =~= s.subrange(0, i));
    }
}

/// The filename up to (not including) its first '.'.
pub fn prefix_before_dot(s: &str) -> (r: &str)
    ensures
        r@ == before_dot(s@),
{
    let n: usize = s.unicode_len();
    let mut i: usize = 0;
    while i < n && s.get_char(i) != '.'
        invariant
            i <= n,
            n == s@.len(),
            forall|j: int| 0 <= j < i ==> s@[j] != '.',
        decreases n - i,
    {
        i = i + 1;
    }
    proof {
        lemma_before_dot_window(s@, i as int);
    }
    s.substring_char(0, i)
}

/// '"' replaced by '_', so the name can sit inside a quoted
/// Content-Disposition parameter.
pub open spec fn sanitize_chars(s: Seq<char>) -> Seq<char> {
    s.map_values(|c: char| if c == '"' { '_' } else { c })
}

pub fn sanitize_filename(s: &str) -> (r: String)
    ensures
        r@ == sanitize_chars(s@),
{
    let n: usize = s.unicode_len();
    let mut r = String::new();
    let mut i: usize = 0;
    let mut start: usize = 0;
    while i < n
        invariant
            start <= i <= n,
            n == s@.len(),
            r@ == sanitize_chars(s@.subrange(0, start as int)),
            forall|j: int| start <= j < i ==> s@[j] != '"',
        decreases n - i,
    {
        let c = s.get_char(i);
        if c == '"' {
            let piece = s.substring_char(start, i);
            r.append(piece);
            r.append("_");
            proof {
                lemma_sanitize_parts(s@, start as int, i as int, r@);
            }
            start = i + 1;
        }
        i = i + 1;
    }
    let piece = s.substring_char(start, n);
    r.append(piece);
    proof {
        lemma_sanitize_tail(s@, start as int, r@);
    }
    r
}

proof fn lemma_sanitize_index(s: Seq<char>, i: int)
    requires
        0 <= i < s.len(),
    ensures
        sanitize_chars(s)[i] == (if s[i] == '"' { '_' } else { s[i] }),
{
}

proof fn lemma_sanitize_parts(s: Seq<char>, start: int, i: int, r: Seq<char>)
    requires
        0 <= start <= i < s.len(),
        s[i] == '"',
        forall|j: int| start <= j < i ==> s[j] != '"',
        r == sanitize_chars(s.subrange(0, start)) + s.subrange(start, i) + "_"@,
    ensures
        r == sanitize_chars(s.subrange(0, i + 1)),
{
    reveal_strlit("_");
    let a = sanitize_chars(s.subrange(0, i + 1));
    assert forall|k: int| 0 <= k < a.len() implies a[k] == r[k] by {
        lemma_sanitize_index(s.subrange(0, i + 1), k);
        if k < start {
            lemma_sanitize_index(s.subrange(0, start), k);
        }
    }
    assert(a =~= r);
}

proof fn lemma_sanitize_tail(s: Seq<char>, start: int, r: Seq<char>)
    requires
        0 <= start <= s.len(),
        forall|j: int| start <= j < s.len() ==> s[j] != '"',
        r == sanitize_chars(s.subrange(0, start)) + s.subrange(start, s.len() as int),
    ensures
        r == sanitize_chars(s),
{
    let a = sanitize_chars(s);
    assert forall|k: int| 0 <= k < a.len() implies a[k] == r[k] by {
        lemma_sanitize_index(s, k);
        if k < start {
            lemma_sanitize_index(s.subrange(0, start), k);
        }
    }
    assert(a =~= r);
}

/// The Content-Disposition header value for a download: an attachment
/// carrying the original filename, quotes neutralized.
pub fn content_disposition(filename: &str) -> (r: String)
    ensures
        r@ == "attachment; filename=\""@ + sanitize_chars(filename@) + "\""@,
{
    let mut r = String::from_str("attachment; filename=\"");
    let safe = sanitize_filename(filename);
    r.append(safe.as_str());
    r.append("\"");
    r
}

/// The decimal rendering of `n`, most significant digit first.
pub open spec fn dec_digits(n: nat) -> Seq<char>
    decreases n,
{
    if n < 10 {
        seq![digit_char(n)]
    } else {
        dec_digits(n / 10) + seq![digit_char(n % 10)]
    }
}

pub open spec fn digit_char(d: nat) -> char {
    if d == 0 {
        '0'
    } else if d == 1 {
        '1'
    } else if d == 2 {
        '2'
    } else if d == 3 {
        '3'
    } else if d == 4 {
        '4'
    } else if d == 5 {
        '5'
    } else if d == 6 {
        '6'
    } else if d == 7 {
        '7'
    } else if d == 8 {
        '8'
    } else {
        '9'
    }
}

fn digit_str(d: u64) -> (r: &'static str)
    requires
        d < 10,
    ensures
        r@ == seq![digit_char(d as nat)],
{
    proof {
        reveal_strlit("0");
        reveal_strlit("1");
        reveal_strlit("2");
        reveal_strlit("3");
        reveal_strlit("4");
        reveal_strlit("5");
        reveal_strlit("6");
        reveal_strlit("7");
        reveal_strlit("8");
        reveal_strlit("9");
    }
    if d == 0 {
        "0"
    } else if d == 1 {
        "1"
    } else if d == 2 {
        "2"
    } else if d == 3 {
        "3"
    } else if d == 4 {
        "4"
    } else if d == 5 {
        "5"
    } else if d == 6 {
        "6"
    } else if d == 7 {
        "7"
    } else if d == 8 {
        "8"
    } else {
        "9"
    }
}

/// Renders `n` in decimal.
pub fn u64_to_string(n: u64) -> (s: String)
    ensures
        s@ == dec_digits(n as nat),
    decreases n,
{
    if n < 10 {
        String::from_str(digit_str(n))
    } else {
        let mut s = u64_to_string(n / 10);
        s.append(digit_str(n % 10));
        s
    }
}

/// The final on-disk location of a committed upload: a name derived
/// deterministically from the assigned file id, under the uploads
/// directory.
pub fn final_upload_path(file_id: u64) -> (p: String)
    ensures
        p@ == "data/uploads/"@ + dec_digits(file_id as nat) + ".bin"@,
{
    let mut p = String::from_str("data/uploads/");
    let digits = u64_to_string(file_id);
    p.append(digits.as_str());
    p.append(".bin");
    p
}

/// Whether an Authorization header value carries a bearer token,
/// and the token it carries.
pub open spec fn bearer_prefix_spec(header: Seq<char>) -> bool {
    header.len() >= 7 && header.subrange(0, 7) == "Bearer "@
}

/// Strips the "Bearer " prefix from an Authorization header value.
pub fn bearer_token(header: &str) -> (r: Option<&str>)
    ensures
        r is Some <==> bearer_prefix_spec(header@),
        r matches Some(t) ==> t@ == header@.skip(7),
{
    proof {
        reveal_strlit("Bearer ");
    }
    let n: usize = header.unicode_len();
    if n < 7 {
        proof {
            assert(!bearer_prefix_spec(header@));
        }
        return None;
    }
    let ok = header.get_char(0) == 'B' && header.get_char(1) == 'e' && header.get_char(2) == 'a'
        && header.get_char(3) == 'r' && header.get_char(4) == 'e' && header.get_char(5) == 'r'
        && header.get_char(6) == ' ';
    if ok {
        proof {
            assert(header@.subrange(0, 7) =~= "Bearer "@);
        }
        Some(header.substring_char(7, n))
    } else {
        proof {
            let sub = header@.subrange(0, 7);
            assert(sub[0] == header@[0] && sub[1] == header@[1] && sub[2] == header@[2]
                && sub[3] == header@[3] && sub[4] == header@[4] && sub[5] == header@[5]
                && sub[6] == header@[6]);
            assert(!bearer_prefix_spec(header@));
        }
        None
    }
}

} // verus!
