//! String building blocks shared by the rest of the library.

use vstd::prelude::*;

verus! {

/// The character of a decimal digit.
pub open spec fn digit_char(d: nat) -> char {
    if d == 0 {
        '0'
    } else if d == 1 {
        '1'
    } else if d == 2 {
        '2'
    } else if d == 3 {
        '3'
    } else if d == 4 {
        '4'
    } else if d == 5 {
        '5'
    } else if d == 6 {
        '6'
    } else if d == 7 {
        '7'
    } else if d == 8 {
        '8'
    } else {
        '9'
    }
}

/// The decimal notation of `n`, without sign or leading zeros.
pub open spec fn decimal(n: nat) -> Seq<char>
    decreases n,
{
    if n < 10 {
        seq![digit_char(n)]
    } else {
        decimal(n / 10).push(digit_char(n % 10))
    }
}

/// Relies on `String::push`: the character is appended at the end.
#[verifier::external_body]
pub(crate) fn push_char(s: &mut String, c: char)
    ensures
        final(s)@ == old(s)@.push(c),
{
    s.push(c)
}

fn digit_of(d: u64) -> (c: char)
    requires
        d < 10,
    ensures
        c == digit_char(d as nat),
{
    if d == 0 {
        '0'
    } else if d == 1 {
        '1'
    } else if d == 2 {
        '2'
    } else if d == 3 {
        '3'
    } else if d == 4 {
        '4'
    } else if d == 5 {
        '5'
    } else if d == 6 {
        '6'
    } else if d == 7 {
        '7'
    } else if d == 8 {
        '8'
    } else {
        '9'
    }
}

/// Writes `n` in decimal.
pub fn decimal_string(n: u64) -> (r: String)
    ensures
        r@ == decimal(n as nat),
    decreases n,
{
    if n < 10 {
        let mut s = String::new();
        push_char(&mut s, digit_of(n));
        s
    } else {
        let mut s = decimal_string(n / 10);
        push_char(&mut s, digit_of(n % 10));
        s
    }
}

/// Appends a literal to a string.
pub fn concat2(a: &str, b: &str) -> (r: String)
    ensures
        r@ == a@ + b@,
{
    let mut s = String::from_str(a);
    s.append(b);
    s
}

/// Appends two literals to a string.
pub fn concat3(a: &str, b: &str, c: &str) -> (r: String)
    ensures
        r@ == a@ + b@ + c@,
{
    let mut s = String::from_str(a);
    s.append(b);
    s.append(c);
    s
}

/// Whether `s` begins with `p`.
pub open spec fn has_prefix(s: Seq<char>, p: Seq<char>) -> bool {
    p.len() <= s.len() && s.subrange(0, p.len() as int) == p
}

/// Whether `s` begins with `p`, character by character.
pub fn starts_with(s: &str, p: &str) -> (r: bool)
    ensures
        r == has_prefix(s@, p@),
{
    let n = s.unicode_len();
    let m = p.unicode_len();
    if m > n {
        return false;
    }
    let mut i: usize = 0;
    while i < m
        invariant
            m <= n,
            n == s@.len(),
            m == p@.len(),
            i <= m,
            forall|j: int| 0 <= j < i ==> s@[j] == p@[j],
        decreases m - i,
    {
        if s.get_char(i) != p.get_char(i) {
            assert(s@.subrange(0, m as int)[i as int] != p@[i as int]);
            return false;
        }
        i = i + 1;
    }
    assert(s@.subrange(0, m as int) =~= p@);
    true
}

/// The characters of `s` from `from` on, as a new string.
pub fn tail_from(s: &str, from: usize) -> (r: String)
    requires
        from <= s@.len(),
    ensures
        r@ == s@.subrange(from as int, s@.len() as int),
{
    let n = s.unicode_len();
    String::from_str(s.substring_char(from, n))
}


/// What `char::is_alphanumeric` says of a character (Unicode's alphabetic and
/// numeric classes).
pub uninterp spec fn alphanumeric(c: char) -> bool;

/// Relies on `char::is_alphanumeric`: whether `c` is a Unicode letter or number.
#[verifier::external_body]
pub(crate) fn is_alnum(c: char) -> (r: bool)
    ensures
        r == alphanumeric(c),
{
    c.is_alphanumeric()
}

/// A character kept in a file name: letters, digits, `-` and `_` stay, any
/// other character becomes `_`.
pub open spec fn safe_char(c: char) -> char {
    if alphanumeric(c) || c == '-' || c == '_' {
        c
    } else {
        '_'
    }
}

/// `s` without the copies of `c` at its start.
pub open spec fn drop_leading(s: Seq<char>, c: char) -> Seq<char>
    decreases s.len(),
{
    if s.len() > 0 && s[0] == c {
        drop_leading(s.drop_first(), c)
    } else {
        s
    }
}

/// `s` without the copies of `c` at its end.
pub open spec fn drop_trailing(s: Seq<char>, c: char) -> Seq<char>
    decreases s.len(),
{
    if s.len() > 0 && s.last() == c {
        drop_trailing(s.drop_last(), c)
    } else {
        s
    }
}

/// The longest name a sanitized part keeps, in characters.
pub const NAME_LIMIT: usize = 50;

/// A name made safe for a file system: each character mapped by `safe_char`,
/// cut to `NAME_LIMIT` characters, then stripped of `_` at both ends.
pub open spec fn sanitized(name: Seq<char>) -> Seq<char> {
    let cut = if name.len() > NAME_LIMIT {
        name.subrange(0, NAME_LIMIT as int)
    } else {
        name
    };
    drop_trailing(drop_leading(cut.map_values(|c: char| safe_char(c)), '_'), '_')
}

proof fn lemma_drop_leading(s: Seq<char>, c: char, i: int)
    requires
        0 <= i <= s.len(),
        forall|k: int| 0 <= k < i ==> s[k] == c,
        i == s.len() || s[i] != c,
    ensures
        drop_leading(s, c) == s.subrange(i, s.len() as int),
    decreases i,
{
    if i == 0 {
        assert(s.subrange(0, s.len() as int) =~= s);
    } else {
        let t = s.drop_first();
        assert forall|k: int| 0 <= k < i - 1 implies t[k] == c by {
            assert(t[k] == s[k + 1]);
        }
        lemma_drop_leading(t, c, i - 1);
        assert(t.subrange(i - 1, t.len() as int) =~= s.subrange(i, s.len() as int));
    }
}

proof fn lemma_drop_trailing(s: Seq<char>, c: char, j: int)
    requires
        0 <= j <= s.len(),
        forall|k: int| j <= k < s.len() ==> s[k] == c,
        j == 0 || s[j - 1] != c,
    ensures
        drop_trailing(s, c) == s.subrange(0, j),
    decreases s.len() - j,
{
    if j == s.len() {
        assert(s.subrange(0, j) =~= s);
    } else {
        let t = s.drop_last();
        lemma_drop_trailing(t, c, j);
        assert(t.subrange(0, j) =~= s.subrange(0, j));
    }
}

/// Makes a name safe for use in a file or folder name: letters, digits, `-`
/// and `_` are kept, every other character becomes `_`; the result keeps at
/// most the first fifty characters, without `_` at either end.
pub fn sanitize_name(name: &str) -> (r: String)
    ensures
        r@ == sanitized(name@),
{
    let n = name.unicode_len();
    let lim = if n > NAME_LIMIT {
        NAME_LIMIT
    } else {
        n
    };
    let ghost cut = if name@.len() > NAME_LIMIT {
        name@.subrange(0, NAME_LIMIT as int)
    } else {
        name@
    };
    let ghost mapped = cut.map_values(|c: char| safe_char(c));
    assert(cut.len() == lim);
    let mut m: Vec<char> = Vec::new();
    let mut k: usize = 0;
    while k < lim
        invariant
            lim <= n,
            n == name@.len(),
            cut.len() == lim,
            mapped == cut.map_values(|c: char| safe_char(c)),
            k <= lim,
            forall|q: int| 0 <= q < lim ==> cut[q] == name@[q],
            m@ == mapped.subrange(0, k as int),
        decreases lim - k,
    {
        let c = name.get_char(k);
        let d = if is_alnum(c) || c == '-' || c == '_' {
            c
        } else {
            '_'
        };
        m.push(d);
        assert(m@ =~= mapped.subrange(0, k + 1));
        k = k + 1;
    }
    assert(m@ =~= mapped);
    let mut i: usize = 0;
    while i < lim && m[i] == '_'
        invariant
            m@.len() == lim,
            i <= lim,
            forall|q: int| 0 <= q < i ==> m@[q] == '_',
        decreases lim - i,
    {
        i = i + 1;
    }
    proof {
        lemma_drop_leading(m@, '_', i as int);
    }
    let ghost lead = m@.subrange(i as int, lim as int);
    let mut j: usize = lim;
    while j > i && m[j - 1] == '_'
        invariant
            m@.len() == lim,
            i <= j <= lim,
            lead == m@.subrange(i as int, lim as int),
            forall|q: int| j <= q < lim ==> m@[q] == '_',
        decreases j,
    {
        j = j - 1;
    }
    proof {
        assert forall|q: int| (j - i) <= q < lead.len() implies lead[q] == '_' by {
            assert(lead[q] == m@[q + i]);
        }
        if j > i {
            assert(lead[j - i - 1] == m@[j - 1]);
        }
        lemma_drop_trailing(lead, '_', j - i);
    }
    let mut r = String::new();
    let mut p: usize = i;
    while p < j
        invariant
            m@.len() == lim,
            i <= p <= j <= lim,
            r@ == m@.subrange(i as int, p as int),
        decreases j - p,
    {
        push_char(&mut r, m[p]);
        assert(r@ =~= m@.subrange(i as int, p + 1));
        p = p + 1;
    }
    assert(lead.subrange(0, j - i) =~= m@.subrange(i as int, j as int));
    r
}


/// Whether `s` ends with `p`.
pub open spec fn has_suffix(s: Seq<char>, p: Seq<char>) -> bool {
    p.len() <= s.len() && s.subrange(s.len() - p.len(), s.len() as int) == p
}

/// Whether `s` ends with `p`, character by character.
pub fn ends_with(s: &str, p: &str) -> (r: bool)
    ensures
        r == has_suffix(s@, p@),
{
    let n = s.unicode_len();
    let m = p.unicode_len();
    if m > n {
        return false;
    }
    let off = n - m;
    let mut i: usize = 0;
    while i < m
        invariant
            m <= n,
            off == n - m,
            n == s@.len(),
            m == p@.len(),
            i <= m,
            forall|j: int| 0 <= j < i ==> s@[off + j] == p@[j],
        decreases m - i,
    {
        if s.get_char(off + i) != p.get_char(i) {
            assert(s@.subrange(off as int, n as int)[i as int] != p@[i as int]);
            return false;
        }
        i = i + 1;
    }
    assert(s@.subrange(off as int, n as int) =~= p@);
    true
}

/// What `str::to_lowercase` makes of a text: each character replaced by its
/// Unicode lowercase mapping.
pub uninterp spec fn lower_of(s: Seq<char>) -> Seq<char>;

/// Relies on `str::to_lowercase`: the Unicode lowercase form of a text,
/// which depends on the text alone.
#[verifier::external_body]
pub(crate) fn lowercase(s: &str) -> (r: String)
    ensures
        r@ == lower_of(s@),
{
    s.to_lowercase()
}


/// `s` with each `a` written as `ra` and each `b` as `rb`.
pub open spec fn escape_with(s: Seq<char>, a: char, ra: Seq<char>, b: char, rb: Seq<char>) -> Seq<char>
    decreases s.len(),
{
    if s.len() == 0 {
        s
    } else {
        let c = s.last();
        escape_with(s.drop_last(), a, ra, b, rb) + (if c == a {
            ra
        } else if c == b {
            rb
        } else {
            seq![c]
        })
    }
}

/// Writes each `a` of `s` as `ra` and each `b` as `rb`.
pub fn escape_text(s: &str, a: char, ra: &str, b: char, rb: &str) -> (r: String)
    ensures
        r@ == escape_with(s@, a, ra@, b, rb@),
{
    let n = s.unicode_len();
    let mut r = String::new();
    let mut i: usize = 0;
    while i < n
        invariant
            n == s@.len(),
            i <= n,
            r@ == escape_with(s@.subrange(0, i as int), a, ra@, b, rb@),
        decreases n - i,
    {
        let c = s.get_char(i);
        assert(s@.subrange(0, i + 1).drop_last() =~= s@.subrange(0, i as int));
        if c == a {
            r.append(ra);
        } else if c == b {
            r.append(rb);
        } else {
            push_char(&mut r, c);
        }
        i = i + 1;
    }
    assert(s@.subrange(0, n as int) =~= s@);
    r
}

} // verus!
