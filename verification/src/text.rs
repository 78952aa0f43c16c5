//! String helpers with exact specifications over `Seq<char>`.

use vstd::prelude::*;
use vstd::string::*;

verus! {

/// The characters for which `char::is_whitespace` is true: Unicode's
/// `White_Space` property, as the standard library documents it.
pub open spec fn is_ws(c: char) -> bool {
    let n = c as u32;
    ||| (0x09 <= n && n <= 0x0d)
    ||| n == 0x20
    ||| n == 0x85
    ||| n == 0xa0
    ||| n == 0x1680
    ||| (0x2000 <= n && n <= 0x200a)
    ||| n == 0x2028
    ||| n == 0x2029
    ||| n == 0x202f
    ||| n == 0x205f
    ||| n == 0x3000
}

/// Whether `c` is a Unicode whitespace character.
pub fn is_whitespace_char(c: char) -> (r: bool)
    ensures
        r == is_ws(c),
{
    let n = c as u32;
    (0x09 <= n && n <= 0x0d) || n == 0x20 || n == 0x85 || n == 0xa0 || n == 0x1680 || (0x2000
        <= n && n <= 0x200a) || n == 0x2028 || n == 0x2029 || n == 0x202f || n == 0x205f || n
        == 0x3000
}

/// `s` without its leading whitespace.
pub open spec fn trim_start(s: Seq<char>) -> Seq<char>
    decreases s.len(),
{
    if s.len() > 0 && is_ws(s[0]) {
        trim_start(s.drop_first())
    } else {
        s
    }
}

/// `s` without its trailing whitespace.
pub open spec fn trim_end(s: Seq<char>) -> Seq<char>
    decreases s.len(),
{
    if s.len() > 0 && is_ws(s.last()) {
        trim_end(s.drop_last())
    } else {
        s
    }
}

/// `s` without leading and trailing whitespace, as `str::trim` gives it.
pub open spec fn trim_ws(s: Seq<char>) -> Seq<char> {
    trim_end(trim_start(s))
}

/// ASCII lowercase of one character; other characters are unchanged.
pub open spec fn lower_char(c: char) -> char {
    if 'A' <= c && c <= 'Z' {
        ((c as u8) + 32) as char
    } else {
        c
    }
}

/// ASCII lowercase of a string, as `str::to_ascii_lowercase` gives it.
pub open spec fn lower_seq(s: Seq<char>) -> Seq<char> {
    Seq::new(s.len(), |i: int| lower_char(s[i]))
}

/// Whether `pat` occurs in `s` starting at index `i`.
pub open spec fn occurs_at(s: Seq<char>, pat: Seq<char>, i: int) -> bool {
    0 <= i && i + pat.len() <= s.len() && s.subrange(i, i + pat.len()) == pat
}

/// Whether `pat` occurs anywhere in `s`.
pub open spec fn contains_seq(s: Seq<char>, pat: Seq<char>) -> bool {
    exists|i: int| occurs_at(s, pat, i)
}

/// Whether `s` begins with `prefix`.
pub open spec fn starts_with_seq<T>(s: Seq<T>, prefix: Seq<T>) -> bool {
    prefix.len() <= s.len() && s.take(prefix.len() as int) == prefix
}

/// Appends one character to a string (`String::push`).
#[verifier::external_body]
pub(crate) fn push_char(s: &mut String, c: char)
    ensures
        final(s)@ == old(s)@.push(c),
{
    s.push(c);
}

/// Whether two string slices hold the same characters.
pub fn str_eq(a: &str, b: &str) -> (r: bool)
    ensures
        r == (a@ == b@),
{
    let x = a.to_owned();
    let y = b.to_owned();
    x == y
}

/// The characters of `s` from `from` to `to`, as an owned string.
pub fn substring(s: &str, from: usize, to: usize) -> (r: String)
    requires
        from <= to <= s@.len(),
    ensures
        r@ == s@.subrange(from as int, to as int),
{
    s.substring_char(from, to).to_owned()
}

proof fn lemma_trim_start_step(s: Seq<char>, i: int)
    requires
        0 <= i < s.len(),
        is_ws(s[i]),
    ensures
        trim_start(s.skip(i)) == trim_start(s.skip(i + 1)),
{
    assert(s.skip(i).drop_first() =~= s.skip(i + 1));
}

proof fn lemma_trim_end_step(s: Seq<char>, j: int)
    requires
        0 < j <= s.len(),
        is_ws(s[j - 1]),
    ensures
        trim_end(s.take(j)) == trim_end(s.take(j - 1)),
{
    assert(s.take(j).drop_last() =~= s.take(j - 1));
}

/// `s` with leading and trailing Unicode whitespace removed (`str::trim`).
pub fn trim(s: &str) -> (r: String)
    ensures
        r@ == trim_ws(s@),
{
    let n = s.unicode_len();
    let mut i: usize = 0;
    proof {
        assert(s@.skip(0) =~= s@);
    }
    while i < n && is_whitespace_char(s.get_char(i))
        invariant
            n == s@.len(),
            i <= n,
            trim_start(s@) == trim_start(s@.skip(i as int)),
        decreases n - i,
    {
        proof {
            lemma_trim_start_step(s@, i as int);
        }
        i = i + 1;
    }
    let ghost rest = s@.skip(i as int);
    assert(trim_start(rest) == rest);
    let mut j: usize = n;
    proof {
        assert(rest.take((n - i) as int) =~= rest);
    }
    while j > i && is_whitespace_char(s.get_char(j - 1))
        invariant
            n == s@.len(),
            i <= j <= n,
            rest == s@.skip(i as int),
            trim_end(rest) == trim_end(rest.take(j - i)),
        decreases j,
    {
        proof {
            lemma_trim_end_step(rest, (j - i) as int);
        }
        j = j - 1;
    }
    proof {
        assert(rest.take(j - i) =~= s@.subrange(i as int, j as int));
    }
    substring(s, i, j)
}

/// ASCII lowercase of `s` (`str::to_ascii_lowercase`).
pub fn ascii_lowercase(s: &str) -> (r: String)
    ensures
        r@ == lower_seq(s@),
{
    let n = s.unicode_len();
    let mut out = String::new();
    let mut i: usize = 0;
    while i < n
        invariant
            n == s@.len(),
            i <= n,
            out@ =~= lower_seq(s@).take(i as int),
        decreases n - i,
    {
        let c = s.get_char(i);
        let l = if 'A' <= c && c <= 'Z' {
            ((c as u8) + 32) as char
        } else {
            c
        };
        push_char(&mut out, l);
        i = i + 1;
    }
    out
}


/// The ASCII digit for `d` (`d < 10`).
pub open spec fn digit_char(d: nat) -> char {
    ((d + 48) as u8) as char
}

/// The decimal representation of `n`, without leading zeros.
pub open spec fn decimal(n: nat) -> Seq<char>
    decreases n,
{
    if n < 10 {
        seq![digit_char(n)]
    } else {
        decimal(n / 10).push(digit_char(n % 10))
    }
}

/// The decimal representation of `n` (`u128::to_string`).
pub fn decimal_string(n: u128) -> (r: String)
    ensures
        r@ == decimal(n as nat),
    decreases n,
{
    let d = ((n % 10) as u8 + 48) as char;
    if n < 10 {
        let mut s = String::new();
        push_char(&mut s, d);
        s
    } else {
        let mut s = decimal_string(n / 10);
        push_char(&mut s, d);
        s
    }
}

/// The index of the first `c` in `s`, or `s.len()` when there is none.
pub open spec fn first_index(s: Seq<char>, c: char) -> nat
    decreases s.len(),
{
    if s.len() == 0 {
        0
    } else if s[0] == c {
        0
    } else {
        1 + first_index(s.drop_first(), c)
    }
}

proof fn lemma_first_index_bound(s: Seq<char>, c: char)
    ensures
        first_index(s, c) <= s.len(),
        first_index(s, c) < s.len() ==> s[first_index(s, c) as int] == c,
        forall|i: int| 0 <= i < first_index(s, c) ==> s[i] != c,
    decreases s.len(),
{
    if s.len() > 0 && s[0] != c {
        lemma_first_index_bound(s.drop_first(), c);
        assert forall|i: int| 0 <= i < first_index(s, c) implies s[i] != c by {
            if i > 0 {
                assert(s[i] == s.drop_first()[i - 1]);
            }
        }
    }
}

/// The index (in characters) of the first `c` in `s`, or the length of `s`.
pub fn index_of_char(s: &str, c: char) -> (r: usize)
    ensures
        r == first_index(s@, c),
        r <= s@.len(),
{
    let n = s.unicode_len();
    let mut i: usize = 0;
    proof {
        assert(s@.skip(0) =~= s@);
    }
    while i < n && s.get_char(i) != c
        invariant
            n == s@.len(),
            i <= n,
            first_index(s@, c) == i + first_index(s@.skip(i as int), c),
        decreases n - i,
    {
        proof {
            assert(s@.skip(i as int).drop_first() =~= s@.skip(i + 1));
        }
        i = i + 1;
    }
    proof {
        lemma_first_index_bound(s@, c);
    }
    i
}

/// `s` without the trailing run of `c` (`str::trim_end_matches` with one character).
pub open spec fn strip_trailing(s: Seq<char>, c: char) -> Seq<char>
    decreases s.len(),
{
    if s.len() > 0 && s.last() == c {
        strip_trailing(s.drop_last(), c)
    } else {
        s
    }
}

/// `s` with every trailing `c` removed.
pub fn trim_end_char(s: &str, c: char) -> (r: String)
    ensures
        r@ == strip_trailing(s@, c),
{
    let n = s.unicode_len();
    let mut j: usize = n;
    proof {
        assert(s@.take(n as int) =~= s@);
    }
    while j > 0 && s.get_char(j - 1) == c
        invariant
            n == s@.len(),
            j <= n,
            strip_trailing(s@, c) == strip_trailing(s@.take(j as int), c),
        decreases j,
    {
        proof {
            assert(s@.take(j as int).drop_last() =~= s@.take(j - 1));
        }
        j = j - 1;
    }
    substring(s, 0, j)
}

/// Whether `s` begins with `prefix` (`str::starts_with`).
pub fn starts_with_str(s: &str, prefix: &str) -> (r: bool)
    ensures
        r == starts_with_seq(s@, prefix@),
{
    let n = s.unicode_len();
    let m = prefix.unicode_len();
    if m > n {
        return false;
    }
    let mut i: usize = 0;
    while i < m
        invariant
            n == s@.len(),
            m == prefix@.len(),
            m <= n,
            i <= m,
            forall|k: int| 0 <= k < i ==> s@[k] == prefix@[k],
        decreases m - i,
    {
        if s.get_char(i) != prefix.get_char(i) {
            assert(s@.take(m as int)[i as int] != prefix@[i as int]);
            return false;
        }
        i = i + 1;
    }
    assert(s@.take(m as int) =~= prefix@);
    true
}

/// `a` followed by `b`, as a new string.
pub fn concat2(a: &str, b: &str) -> (r: String)
    ensures
        r@ == a@ + b@,
{
    String::from_str(a).concat(b)
}

/// `a`, `b` and `c` in sequence, as a new string.
pub fn concat3(a: &str, b: &str, c: &str) -> (r: String)
    ensures
        r@ == a@ + b@ + c@,
{
    String::from_str(a).concat(b).concat(c)
}

/// Whether `c` is an ASCII hexadecimal digit (`u8::is_ascii_hexdigit`).
pub open spec fn is_hex(c: char) -> bool {
    ('0' <= c && c <= '9') || ('a' <= c && c <= 'f') || ('A' <= c && c <= 'F')
}

/// Whether every character of `s` is an ASCII hexadecimal digit.
pub fn all_hex(s: &str) -> (r: bool)
    ensures
        r == (forall|i: int| 0 <= i < s@.len() ==> is_hex(#[trigger] s@[i])),
{
    let n = s.unicode_len();
    let mut i: usize = 0;
    while i < n
        invariant
            n == s@.len(),
            i <= n,
            forall|k: int| 0 <= k < i ==> is_hex(#[trigger] s@[k]),
        decreases n - i,
    {
        let c = s.get_char(i);
        if !(('0' <= c && c <= '9') || ('a' <= c && c <= 'f') || ('A' <= c && c <= 'F')) {
            return false;
        }
        i = i + 1;
    }
    true
}


/// Whether `pat` occurs in `s` starting at character `i`.
pub fn matches_at(s: &str, pat: &str, i: usize) -> (r: bool)
    requires
        i + pat@.len() <= s@.len(),
    ensures
        r == occurs_at(s@, pat@, i as int),
{
    let m = pat.unicode_len();
    let n = s.unicode_len();
    let mut k: usize = 0;
    while k < m
        invariant
            m == pat@.len(),
            n == s@.len(),
            i + m <= s@.len(),
            k <= m,
            forall|j: int| 0 <= j < k ==> s@[i + j] == pat@[j],
        decreases m - k,
    {
        if s.get_char(i + k) != pat.get_char(k) {
            assert(s@.subrange(i as int, i + m)[k as int] != pat@[k as int]);
            return false;
        }
        k = k + 1;
    }
    assert(s@.subrange(i as int, i + m) =~= pat@);
    true
}

/// Whether `pat` occurs in `s` (`str::contains`).
pub fn contains_str(s: &str, pat: &str) -> (r: bool)
    ensures
        r == contains_seq(s@, pat@),
{
    let n = s.unicode_len();
    let m = pat.unicode_len();
    if m > n {
        assert forall|i: int| !occurs_at(s@, pat@, i) by {}
        return false;
    }
    let mut i: usize = 0;
    let mut found = false;
    while !found && i <= n - m
        invariant
            n == s@.len(),
            m == pat@.len(),
            m <= n,
            i <= n - m,
            found ==> occurs_at(s@, pat@, i as int),
            forall|j: int| 0 <= j < i ==> !occurs_at(s@, pat@, j),
        decreases n - m - i + if found { 0int } else { 1int },
    {
        if matches_at(s, pat, i) {
            found = true;
        } else if i == n - m {
            assert forall|j: int| !occurs_at(s@, pat@, j) by {
                if 0 <= j < i {
                }
            }
            return false;
        } else {
            i = i + 1;
        }
    }
    if found {
        return true;
    }
    assert forall|j: int| !occurs_at(s@, pat@, j) by {
        if 0 <= j < i {
        }
    }
    false
}

/// The first `k` characters of `s`, or all of it when it is shorter.
pub fn take_chars(s: &str, k: usize) -> (r: String)
    ensures
        r@ == s@.take(if k <= s@.len() { k as int } else { s@.len() as int }),
{
    let n = s.unicode_len();
    let end = if k <= n { k } else { n };
    substring(s, 0, end)
}

/// Whether `a` comes before `b` in the order of `str`'s `Ord`: by character
/// codes, a proper prefix first.
pub open spec fn text_less(a: Seq<char>, b: Seq<char>) -> bool
    decreases a.len(),
{
    if a.len() == 0 {
        b.len() > 0
    } else if b.len() == 0 {
        false
    } else if a[0] != b[0] {
        a[0] < b[0]
    } else {
        text_less(a.drop_first(), b.drop_first())
    }
}

/// No text comes before itself.
pub proof fn lemma_text_less_irreflexive(a: Seq<char>)
    ensures
        !text_less(a, a),
    decreases a.len(),
{
    if a.len() > 0 {
        lemma_text_less_irreflexive(a.drop_first());
    }
}

/// Of two different texts, one comes first, and not both.
pub proof fn lemma_text_less_total(a: Seq<char>, b: Seq<char>)
    ensures
        a != b ==> (text_less(a, b) || text_less(b, a)),
        !(text_less(a, b) && text_less(b, a)),
    decreases a.len(),
{
    if a.len() > 0 && b.len() > 0 && a[0] == b[0] {
        lemma_text_less_total(a.drop_first(), b.drop_first());
        if a.drop_first() =~= b.drop_first() {
            assert forall|i: int| 0 <= i < a.len() implies a[i] == b[i] by {
                if i > 0 {
                    assert(a[i] == a.drop_first()[i - 1]);
                    assert(b[i] == b.drop_first()[i - 1]);
                }
            }
            assert(a =~= b);
        }
    } else if a.len() == 0 && b.len() == 0 {
        assert(a =~= b);
    }
}

/// The order of texts is transitive.
pub proof fn lemma_text_less_transitive(a: Seq<char>, b: Seq<char>, c: Seq<char>)
    requires
        text_less(a, b),
        text_less(b, c),
    ensures
        text_less(a, c),
    decreases a.len(),
{
    if a.len() > 0 && b.len() > 0 && c.len() > 0 && a[0] == b[0] && b[0] == c[0] {
        lemma_text_less_transitive(a.drop_first(), b.drop_first(), c.drop_first());
    }
}

/// Whether `a` comes before `b` (`<` on `str`).
pub fn str_less(a: &str, b: &str) -> (r: bool)
    ensures
        r == text_less(a@, b@),
{
    let n = a.unicode_len();
    let m = b.unicode_len();
    let mut i: usize = 0;
    proof {
        assert(a@.skip(0) =~= a@);
        assert(b@.skip(0) =~= b@);
    }
    while i < n && i < m
        invariant
            n == a@.len(),
            m == b@.len(),
            i <= n,
            i <= m,
            text_less(a@, b@) == text_less(a@.skip(i as int), b@.skip(i as int)),
        decreases n - i,
    {
        let x = a.get_char(i);
        let y = b.get_char(i);
        if x != y {
            proof {
                assert(a@.skip(i as int)[0] == x);
                assert(b@.skip(i as int)[0] == y);
            }
            return x < y;
        }
        proof {
            assert(a@.skip(i as int).drop_first() =~= a@.skip(i + 1));
            assert(b@.skip(i as int).drop_first() =~= b@.skip(i + 1));
        }
        i = i + 1;
    }
    i == n && i < m
}

/// A line without one trailing carriage return.
pub open spec fn strip_cr(line: Seq<char>) -> Seq<char> {
    if line.len() > 0 && line.last() == '\r' {
        line.drop_last()
    } else {
        line
    }
}

/// The lines ended so far in `s`, and the line still open.
pub open spec fn scan_lines(s: Seq<char>) -> (Seq<Seq<char>>, Seq<char>)
    decreases s.len(),
{
    if s.len() == 0 {
        (Seq::empty(), Seq::empty())
    } else {
        let (done, open) = scan_lines(s.drop_last());
        if s.last() == '\n' {
            (done.push(strip_cr(open)), Seq::empty())
        } else {
            (done, open.push(s.last()))
        }
    }
}

/// The lines of a text, as `str::lines` gives them: split at `\n`, each
/// without a `\r` before its `\n`, and no empty line after a final `\n`.
pub open spec fn lines_of(s: Seq<char>) -> Seq<Seq<char>> {
    let (done, open) = scan_lines(s);
    if open.len() > 0 {
        done.push(open)
    } else {
        done
    }
}

/// The texts of a sequence of strings.
pub open spec fn string_texts(v: Seq<String>) -> Seq<Seq<char>> {
    v.map_values(|x: String| x@)
}

fn without_cr(line: String) -> (r: String)
    ensures
        r@ == strip_cr(line@),
{
    let n = line.as_str().unicode_len();
    if n > 0 && line.as_str().get_char(n - 1) == '\r' {
        substring(line.as_str(), 0, n - 1)
    } else {
        line
    }
}

/// The lines of a text (`str::lines`).
pub fn text_lines(s: &str) -> (r: Vec<String>)
    ensures
        string_texts(r@) == lines_of(s@),
{
    let n = s.unicode_len();
    let mut done: Vec<String> = Vec::new();
    let mut open = String::new();
    let mut i: usize = 0;
    proof {
        assert(s@.take(0) =~= Seq::<char>::empty());
        assert(string_texts(done@) =~= Seq::<Seq<char>>::empty());
    }
    while i < n
        invariant
            n == s@.len(),
            i <= n,
            string_texts(done@) == scan_lines(s@.take(i as int)).0,
            open@ == scan_lines(s@.take(i as int)).1,
        decreases n - i,
    {
        let c = s.get_char(i);
        proof {
            assert(s@.take(i + 1).drop_last() =~= s@.take(i as int));
            assert(s@.take(i + 1).last() == c);
        }
        if c == '\n' {
            let line = without_cr(open);
            let ghost before = done@;
            done.push(line);
            proof {
                assert(string_texts(done@) =~= string_texts(before).push(line@));
            }
            open = String::new();
        } else {
            push_char(&mut open, c);
        }
        i = i + 1;
    }
    proof {
        assert(s@.take(n as int) =~= s@);
    }
    if open.as_str().unicode_len() > 0 {
        let ghost before = done@;
        let ghost last = open@;
        done.push(open);
        proof {
            assert(string_texts(done@) =~= string_texts(before).push(last));
        }
    }
    done
}

/// Texts joined by `sep`.
pub open spec fn join_with(parts: Seq<Seq<char>>, sep: Seq<char>) -> Seq<char>
    decreases parts.len(),
{
    if parts.len() == 0 {
        Seq::empty()
    } else if parts.len() == 1 {
        parts[0]
    } else {
        join_with(parts.drop_last(), sep) + sep + parts.last()
    }
}

/// Joins strings with `sep` between them (`[String]::join`).
pub fn join_strings(parts: &Vec<String>, sep: &str) -> (r: String)
    ensures
        r@ == join_with(string_texts(parts@), sep@),
{
    let n = parts.len();
    if n == 0 {
        return String::new();
    }
    let mut out = parts[0].clone();
    let mut i: usize = 1;
    proof {
        assert(string_texts(parts@.take(1)) =~= seq![parts@[0]@]);
    }
    while i < n
        invariant
            n == parts@.len(),
            1 <= i <= n,
            out@ == join_with(string_texts(parts@.take(i as int)), sep@),
        decreases n - i,
    {
        let step = concat2(out.as_str(), sep);
        out = concat2(step.as_str(), parts[i].as_str());
        proof {
            assert(string_texts(parts@.take(i + 1)).drop_last() =~= string_texts(
                parts@.take(i as int),
            ));
        }
        i = i + 1;
    }
    proof {
        assert(parts@.take(n as int) =~= parts@);
    }
    out
}

} // verus!
