//! Strings as sequences of characters.

use vstd::prelude::*;
use vstd::string::*;

verus! {

/// `String::push` appends one character.
pub assume_specification[ std::string::String::push ](s: &mut std::string::String, ch: char)
    ensures
        final(s)@ == old(s)@.push(ch),
;

/// Whether `c` has the Unicode `White_Space` property.
pub open spec fn is_space(c: char) -> bool {
    ||| 0x09 <= c as u32 <= 0x0d
    ||| c as u32 == 0x20
    ||| c as u32 == 0x85
    ||| c as u32 == 0xa0
    ||| c as u32 == 0x1680
    ||| 0x2000 <= c as u32 <= 0x200a
    ||| c as u32 == 0x2028
    ||| c as u32 == 0x2029
    ||| c as u32 == 0x202f
    ||| c as u32 == 0x205f
    ||| c as u32 == 0x3000
}

/// `char::is_whitespace` tests for the Unicode `White_Space` property, whose
/// members are listed in [`is_space`].
pub assume_specification[ char::is_whitespace ](c: char) -> (r: bool)
    ensures
        r == is_space(c),
;

/// The characters of `s`.
pub fn str_chars(s: &str) -> (chars: Vec<char>)
    ensures
        chars@ == s@,
{
    let mut chars: Vec<char> = Vec::new();
    for c in it: s.chars()
        invariant
            it.seq() == s@,
            chars@ == s@.take(it.index()),
    {
        chars.push(c);
    }
    chars
}

/// The string made of `chars[from..to]`.
pub fn chars_string(chars: &Vec<char>, from: usize, to: usize) -> (s: String)
    requires
        from <= to <= chars@.len(),
    ensures
        s@ == chars@.subrange(from as int, to as int),
{
    let mut s = String::new();
    let mut i: usize = from;
    while i < to
        invariant
            from <= i <= to <= chars@.len(),
            s@ == chars@.subrange(from as int, i as int),
        decreases to - i,
    {
        s.push(chars[i]);
        i = i + 1;
    }
    s
}

/// Whether two strings hold the same characters.
pub fn str_eq(a: &str, b: &str) -> (r: bool)
    ensures
        r == (a@ == b@),
{
    let x = str_chars(a);
    let y = str_chars(b);
    if x.len() != y.len() {
        return false;
    }
    let mut i: usize = 0;
    while i < x.len()
        invariant
            x@ == a@,
            y@ == b@,
            x@.len() == y@.len(),
            i <= x@.len(),
            a@.take(i as int) == b@.take(i as int),
        decreases x.len() - i,
    {
        if x[i] != y[i] {
            return false;
        }
        assert(a@.take(i + 1) == a@.take(i as int).push(a@[i as int]));
        assert(b@.take(i + 1) == b@.take(i as int).push(b@[i as int]));
        i = i + 1;
    }
    assert(a@.take(i as int) == a@);
    assert(b@.take(i as int) == b@);
    true
}

/// The number of characters of `s`.
pub fn char_count(s: &str) -> (n: usize)
    ensures
        n == s@.len(),
{
    s.unicode_len()
}

/// The digit for `d`, which is below ten.
pub open spec fn digit(d: nat) -> char {
    (0x30 + d) as char
}

/// `n` in decimal.
pub open spec fn decimal(n: nat) -> Seq<char>
    decreases n,
{
    if n < 10 {
        seq![digit(n)]
    } else {
        decimal(n / 10).push(digit(n % 10))
    }
}

fn digit_char(d: u64) -> (c: char)
    requires
        d < 10,
    ensures
        c == digit(d as nat),
{
    (0x30u8 + d as u8) as char
}

/// `n` in decimal.
pub fn decimal_string(n: u64) -> (s: String)
    ensures
        s@ == decimal(n as nat),
    decreases n,
{
    let mut s: String;
    if n < 10 {
        s = String::new();
    } else {
        s = decimal_string(n / 10);
    }
    let ghost before = s@;
    s.push(digit_char(n % 10));
    assert(s@ =~= decimal(n as nat));
    s
}

/// The number of decimal digits of `n`.
pub fn decimal_len(n: u64) -> (len: usize)
    ensures
        len == decimal(n as nat).len(),
        1 <= len <= 20,
{
    let mut rest: u64 = n;
    let mut len: usize = 1;
    proof {
        decimal_len_bound(n as nat, 20);
    }
    while rest >= 10
        invariant
            1 <= len,
            decimal(n as nat).len() == len - 1 + decimal(rest as nat).len(),
            decimal(n as nat).len() <= 20,
        decreases rest,
    {
        proof {
            decimal_len_bound((rest / 10) as nat, 20);
        }
        rest = rest / 10;
        len = len + 1;
    }
    len
}

proof fn decimal_len_bound(n: nat, k: nat)
    requires
        k == 20,
        n <= u64::MAX,
    ensures
        1 <= decimal(n).len() <= k,
{
    reveal_with_fuel(decimal, 21);
}

/// Whether `s` starts with `prefix`.
pub open spec fn starts_with(s: Seq<char>, prefix: Seq<char>) -> bool {
    prefix.len() <= s.len() && s.subrange(0, prefix.len() as int) == prefix
}

/// The position of the first character of `s` at or behind `from` that is no
/// white space, or the end.
pub open spec fn after_space(s: Seq<char>, from: int) -> int
    decreases s.len() - from,
{
    if 0 <= from < s.len() && is_space(s[from]) {
        after_space(s, from + 1)
    } else {
        from
    }
}

/// `s` without the white space at its start.
pub open spec fn trimmed_start(s: Seq<char>) -> Seq<char> {
    s.subrange(after_space(s, 0), s.len() as int)
}

/// Whether `s` holds nothing but white space.
pub open spec fn all_space(s: Seq<char>) -> bool {
    forall|i: int| 0 <= i < s.len() ==> is_space(#[trigger] s[i])
}

/// The position behind the white space that `chars` starts with.
pub fn space_len(chars: &Vec<char>) -> (n: usize)
    ensures
        n == after_space(chars@, 0),
        n <= chars@.len(),
{
    let mut i: usize = 0;
    while i < chars.len() && chars[i].is_whitespace()
        invariant
            i <= chars@.len(),
            after_space(chars@, i as int) == after_space(chars@, 0),
        decreases chars.len() - i,
    {
        i = i + 1;
    }
    i
}

/// Whether `chars[from..]` starts with `prefix`.
pub fn starts_with_at(chars: &Vec<char>, from: usize, prefix: &Vec<char>) -> (r: bool)
    requires
        from <= chars@.len(),
    ensures
        r == starts_with(chars@.subrange(from as int, chars@.len() as int), prefix@),
{
    let ghost rest = chars@.subrange(from as int, chars@.len() as int);
    let total = chars.len();
    if total - from < prefix.len() {
        return false;
    }
    let mut i: usize = 0;
    while i < prefix.len()
        invariant
            i <= prefix@.len(),
            total == chars@.len(),
            from + prefix@.len() <= chars@.len(),
            rest == chars@.subrange(from as int, chars@.len() as int),
            rest.subrange(0, i as int) == prefix@.subrange(0, i as int),
        decreases prefix.len() - i,
    {
        if chars[from + i] != prefix[i] {
            assert(rest[i as int] != prefix@[i as int]);
            assert(rest.subrange(0, prefix@.len() as int)[i as int] == rest[i as int]);
            return false;
        }
        assert(rest.subrange(0, i + 1) =~= rest.subrange(0, i as int).push(rest[i as int]));
        assert(prefix@.subrange(0, i + 1) =~= prefix@.subrange(0, i as int).push(
            prefix@[i as int],
        ));
        i = i + 1;
    }
    assert(prefix@.subrange(0, i as int) =~= prefix@);
    true
}

/// Whether `s` starts with `prefix`.
pub fn str_starts_with(s: &str, prefix: &str) -> (r: bool)
    ensures
        r == starts_with(s@, prefix@),
{
    let chars = str_chars(s);
    let p = str_chars(prefix);
    assert(chars@.subrange(0, chars@.len() as int) =~= s@);
    starts_with_at(&chars, 0, &p)
}

/// Whether a string holds the character `c`.
pub fn str_contains_char(s: &str, c: char) -> (r: bool)
    ensures
        r == s@.contains(c),
{
    let chars = str_chars(s);
    let mut i: usize = 0;
    while i < chars.len()
        invariant
            i <= chars@.len(),
            chars@ == s@,
            forall|j: int| 0 <= j < i ==> s@[j] != c,
        decreases chars.len() - i,
    {
        if chars[i] == c {
            assert(s@[i as int] == c);
            return true;
        }
        i = i + 1;
    }
    false
}

/// The string that holds the one character `c`.
pub fn char_string(c: char) -> (s: String)
    ensures
        s@ == seq![c],
{
    let mut s = String::new();
    s.push(c);
    assert(s@ =~= seq![c]);
    s
}

/// `a` followed by `b`.
pub fn concat2(a: &str, b: &str) -> (s: String)
    ensures
        s@ == a@ + b@,
{
    let mut s = a.to_owned();
    s.append(b);
    s
}

/// `a` followed by `b` and `c`.
pub fn concat3(a: &str, b: &str, c: &str) -> (s: String)
    ensures
        s@ == a@ + b@ + c@,
{
    let mut s = a.to_owned();
    s.append(b);
    s.append(c);
    s
}

/// `a` without its last character.
pub fn without_last(a: &str) -> (s: String)
    ensures
        s@ == if a@.len() > 0 {
            a@.drop_last()
        } else {
            a@
        },
{
    let chars = str_chars(a);
    if chars.len() == 0 {
        let s = String::new();
        assert(s@ =~= a@);
        return s;
    }
    let s = chars_string(&chars, 0, chars.len() - 1);
    assert(s@ =~= a@.drop_last());
    s
}

/// The same strings once more.
pub fn copy_strings(v: &Vec<String>) -> (r: Vec<String>)
    ensures
        r@ == v@,
{
    let mut r: Vec<String> = Vec::new();
    let mut i: usize = 0;
    while i < v.len()
        invariant
            i <= v@.len(),
            r@ == v@.take(i as int),
        decreases v.len() - i,
    {
        r.push(v[i].clone());
        i = i + 1;
    }
    assert(r@ =~= v@);
    r
}

/// What strings hold.
pub open spec fn views(v: Seq<String>) -> Seq<Seq<char>> {
    v.map_values(|s: String| s@)
}

/// Texts one behind the other.
pub open spec fn run_together(parts: Seq<Seq<char>>) -> Seq<char>
    decreases parts.len(),
{
    if parts.len() == 0 {
        seq![]
    } else {
        run_together(parts.drop_last()) + parts.last()
    }
}

/// Texts one behind the other, with `sep` between them.
pub open spec fn joined(parts: Seq<Seq<char>>, sep: Seq<char>) -> Seq<char>
    decreases parts.len(),
{
    if parts.len() == 0 {
        seq![]
    } else if parts.len() == 1 {
        parts[0]
    } else {
        joined(parts.drop_last(), sep) + sep + parts.last()
    }
}

/// Strings one behind the other, with `sep` between them.
pub fn join_lines(parts: &Vec<String>, sep: &str) -> (r: String)
    ensures
        r@ == joined(views(parts@), sep@),
{
    let mut r = String::new();
    let mut i: usize = 0;
    assert(views(parts@).take(0) =~= seq![]);
    while i < parts.len()
        invariant
            i <= parts@.len(),
            r@ == joined(views(parts@).take(i as int), sep@),
        decreases parts.len() - i,
    {
        let ghost before = views(parts@).take(i as int);
        let ghost after = views(parts@).take(i + 1);
        if i > 0 {
            r.append(sep);
        }
        r.append(parts[i].as_str());
        proof {
            assert(after.drop_last() =~= before);
            assert(after.last() == parts@[i as int]@);
            assert(r@ =~= joined(after, sep@));
        }
        i = i + 1;
    }
    assert(views(parts@).take(i as int) =~= views(parts@));
    r
}

/// Whether `s` ends with a line feed.
pub open spec fn ends_in_newline(s: Seq<char>) -> bool {
    s.len() > 0 && s.last() == '\n'
}

/// Whether `s` ends with a line feed.
pub fn ends_with_newline(s: &str) -> (r: bool)
    ensures
        r == ends_in_newline(s@),
{
    let n = s.unicode_len();
    n > 0 && s.get_char(n - 1) == '\n'
}

/// `s` without the line feeds at its end.
pub open spec fn without_newlines(s: Seq<char>) -> Seq<char>
    decreases s.len(),
{
    if ends_in_newline(s) {
        without_newlines(s.drop_last())
    } else {
        s
    }
}

/// `s` without the line feeds at its end.
pub fn trim_newlines(s: &str) -> (r: String)
    ensures
        r@ == without_newlines(s@),
{
    let chars = str_chars(s);
    let mut n: usize = chars.len();
    assert(s@.take(n as int) =~= s@);
    while n > 0 && chars[n - 1] == '\n'
        invariant
            n <= chars@.len(),
            chars@ == s@,
            without_newlines(s@) == without_newlines(s@.take(n as int)),
        decreases n,
    {
        assert(s@.take(n as int).drop_last() =~= s@.take(n - 1));
        n = n - 1;
    }
    let r = chars_string(&chars, 0, n);
    assert(r@ =~= s@.take(n as int));
    r
}

/// `line` without the carriage return at its end, if there is one.
pub open spec fn without_cr(line: Seq<char>) -> Seq<char> {
    if line.len() > 0 && line.last() == '\r' {
        line.drop_last()
    } else {
        line
    }
}

/// The lines that `s` ends with a line feed, without what ends them: a line
/// feed, or a carriage return and a line feed.
pub open spec fn ended_lines(s: Seq<char>, start: int, pos: int) -> Seq<Seq<char>>
    decreases s.len() - pos,
{
    if pos >= s.len() {
        if start < s.len() {
            seq![s.subrange(start, s.len() as int)]
        } else {
            seq![]
        }
    } else if s[pos] == '\n' {
        seq![without_cr(s.subrange(start, pos))] + ended_lines(s, pos + 1, pos + 1)
    } else {
        ended_lines(s, start, pos + 1)
    }
}

/// The lines of `s`, without what ends them. What follows the last line feed is
/// a line too, unless it is empty.
pub open spec fn lines_of(s: Seq<char>) -> Seq<Seq<char>> {
    ended_lines(s, 0, 0)
}

/// The lines of `s`, without what ends them.
pub fn split_lines(s: &str) -> (r: Vec<String>)
    ensures
        views(r@) == lines_of(s@),
{
    let chars = str_chars(s);
    let mut r: Vec<String> = Vec::new();
    let mut start: usize = 0;
    let mut pos: usize = 0;
    assert(views(r@) + ended_lines(s@, 0, 0) =~= lines_of(s@));
    while pos < chars.len()
        invariant
            start <= pos <= chars@.len(),
            chars@ == s@,
            views(r@) + ended_lines(s@, start as int, pos as int) == lines_of(s@),
        decreases chars.len() - pos,
    {
        if chars[pos] == '\n' {
            let end: usize = if pos > start && chars[pos - 1] == '\r' {
                pos - 1
            } else {
                pos
            };
            let line = chars_string(&chars, start, end);
            proof {
                let whole = s@.subrange(start as int, pos as int);
                if pos > start {
                    assert(whole.last() == s@[pos - 1]);
                }
                assert(line@ =~= without_cr(whole));
            }
            let ghost before = r@;
            r.push(line);
            assert(views(r@) + ended_lines(s@, pos + 1, pos + 1) =~= views(before) + ended_lines(
                s@,
                start as int,
                pos as int,
            ));
            start = pos + 1;
        }
        pos = pos + 1;
    }
    if start < chars.len() {
        let line = chars_string(&chars, start, chars.len());
        let ghost before = r@;
        r.push(line);
        assert(views(r@) =~= views(before) + seq![line@]);
    } else {
        assert(views(r@) =~= views(r@) + Seq::<Seq<char>>::empty());
    }
    r
}

/// `s` with every newline written as a backslash and an n.
pub open spec fn escaped_newlines(s: Seq<char>) -> Seq<char>
    decreases s.len(),
{
    if s.len() == 0 {
        seq![]
    } else if s.last() == '\n' {
        escaped_newlines(s.drop_last()) + seq!['\\', 'n']
    } else {
        escaped_newlines(s.drop_last()).push(s.last())
    }
}

/// `s` with every newline written as a backslash and an n.
pub fn escape_newlines(s: &str) -> (r: String)
    ensures
        r@ == escaped_newlines(s@),
{
    let chars = str_chars(s);
    let mut r = String::new();
    let mut i: usize = 0;
    assert(s@.take(0) =~= seq![]);
    while i < chars.len()
        invariant
            i <= chars@.len(),
            chars@ == s@,
            r@ == escaped_newlines(s@.take(i as int)),
        decreases chars.len() - i,
    {
        assert(s@.take(i + 1).drop_last() =~= s@.take(i as int));
        let ghost before = r@;
        if chars[i] == '\n' {
            r.push('\\');
            r.push('n');
            assert(r@ =~= before + seq!['\\', 'n']);
        } else {
            r.push(chars[i]);
        }
        i = i + 1;
    }
    assert(s@.take(i as int) =~= s@);
    r
}

// --- Sizes in bytes ---

/// How many bytes a character takes in UTF-8.
pub open spec fn char_width(c: char) -> nat {
    if (c as u32) < 0x80 {
        1
    } else if (c as u32) < 0x800 {
        2
    } else if (c as u32) < 0x1_0000 {
        3
    } else {
        4
    }
}

/// How many bytes characters take in UTF-8.
pub open spec fn utf8_len(s: Seq<char>) -> nat
    decreases s.len(),
{
    if s.len() == 0 {
        0
    } else {
        utf8_len(s.drop_last()) + char_width(s.last())
    }
}

proof fn utf8_len_front(s: Seq<char>)
    requires
        s.len() > 0,
    ensures
        utf8_len(s) == char_width(s[0]) + utf8_len(s.drop_first()),
    decreases s.len(),
{
    if s.len() > 1 {
        utf8_len_front(s.drop_last());
        assert(s.drop_last().drop_first() =~= s.drop_first().drop_last());
    } else {
        assert(s.drop_last() =~= s.drop_first());
    }
}

proof fn utf8_len_is_encoded(s: Seq<char>)
    ensures
        utf8_len(s) == vstd::utf8::encode_utf8(s).len(),
    decreases s.len(),
{
    if s.len() > 0 {
        utf8_len_front(s);
        utf8_len_is_encoded(s.drop_first());
        let c = s[0];
        vstd::utf8::char_is_scalar(c);
        assert(vstd::utf8::encode_scalar(s[0] as u32).len() == char_width(s[0]));
    }
}

/// A part of a text at its start takes no more bytes than the text.
pub proof fn utf8_len_prefix(s: Seq<char>, k: int)
    requires
        0 <= k <= s.len(),
    ensures
        k <= utf8_len(s.take(k)) <= utf8_len(s),
    decreases s.len(),
{
    if k == s.len() {
        assert(s.take(k) =~= s);
        if k > 0 {
            utf8_len_prefix(s.drop_last(), k - 1);
            assert(s.drop_last().take(k - 1) =~= s.drop_last());
        }
    } else {
        utf8_len_prefix(s.drop_last(), k);
        assert(s.drop_last().take(k) =~= s.take(k));
    }
}

/// Two texts one after the other take the bytes of both.
pub proof fn utf8_len_sum(a: Seq<char>, b: Seq<char>)
    ensures
        utf8_len(a + b) == utf8_len(a) + utf8_len(b),
    decreases b.len(),
{
    if b.len() == 0 {
        assert(a + b =~= a);
    } else {
        utf8_len_sum(a, b.drop_last());
        assert((a + b).drop_last() =~= a + b.drop_last());
    }
}

/// How many bytes a text takes.
pub fn byte_len(s: &str) -> (n: usize)
    ensures
        n == utf8_len(s@),
{
    proof {
        utf8_len_is_encoded(s@);
    }
    s.as_bytes().len()
}

pub fn char_byte_len(c: char) -> (n: usize)
    ensures
        n == char_width(c),
{
    let code = c as u32;
    if code < 0x80 {
        1
    } else if code < 0x800 {
        2
    } else if code < 0x1_0000 {
        3
    } else {
        4
    }
}

// --- Letter case ---

/// What `str::to_lowercase` makes of a text.
pub uninterp spec fn lowercase(s: Seq<char>) -> Seq<char>;

/// `str::to_lowercase` gives the text in lower case by the Unicode rules, which
/// depends on the text alone.
#[verifier::external_body]
pub(crate) fn to_lowercase(s: &str) -> (r: String)
    ensures
        r@ == lowercase(s@),
{
    s.to_lowercase()
}

/// What `char::to_lowercase` makes of a character.
pub uninterp spec fn char_lowercase(c: char) -> Seq<char>;

/// `char::to_lowercase` gives the lower case of a character, one character or
/// more, which depends on the character alone.
#[verifier::external_body]
pub(crate) fn char_to_lowercase(c: char) -> (r: String)
    ensures
        r@ == char_lowercase(c),
{
    c.to_lowercase().to_string()
}

/// What a character is in upper case.
pub uninterp spec fn char_uppercase(c: char) -> Seq<char>;

/// `char::to_uppercase` gives the characters of the upper case, which depend on
/// the character alone.
#[verifier::external_body]
pub(crate) fn char_to_uppercase(c: char) -> (r: String)
    ensures
        r@ == char_uppercase(c),
{
    c.to_uppercase().collect()
}

// --- Quotes and signs ---

/// What a text looks like in quotes, as `Debug` writes it.
pub uninterp spec fn quoted(s: Seq<char>) -> Seq<char>;

/// `Debug` of `str` writes a text in quotes, with escapes for what does not
/// print, which depends on the text alone.
#[verifier::external_body]
pub(crate) fn quote(s: &str) -> (r: String)
    ensures
        r@ == quoted(s@),
{
    format!("{:?}", s)
}

/// A number with its sign.
pub open spec fn signed(n: i64) -> Seq<char> {
    if n < 0 {
        "-"@ + decimal((-n) as nat)
    } else {
        decimal(n as nat)
    }
}

pub fn signed_string(n: i64) -> (r: String)
    ensures
        r@ == signed(n),
{
    if n < 0 {
        let magnitude = (-(n as i128)) as u64;
        concat2("-", decimal_string(magnitude).as_str())
    } else {
        decimal_string(n as u64)
    }
}

// --- Parts of texts ---

/// Whether `s` holds `part` at `i`.
pub open spec fn found_at(s: Seq<char>, part: Seq<char>, i: int) -> bool {
    &&& 0 <= i
    &&& i + part.len() <= s.len()
    &&& s.subrange(i, i + part.len()) == part
}

/// Whether `s` holds `part` somewhere.
pub open spec fn holds(s: Seq<char>, part: Seq<char>) -> bool {
    exists|i: int| #[trigger] found_at(s, part, i)
}

/// Whether `chars` holds `part` at `i`.
pub fn is_found_at(chars: &Vec<char>, part: &Vec<char>, i: usize) -> (r: bool)
    requires
        i <= chars@.len(),
    ensures
        r == found_at(chars@, part@, i as int),
{
    if part.len() > chars.len() - i {
        return false;
    }
    let total = chars.len();
    let mut k: usize = 0;
    while k < part.len()
        invariant
            k <= part@.len(),
            i + part@.len() <= total == chars@.len(),
            forall|j: int| 0 <= j < k ==> chars@[i + j] == part@[j],
        decreases part.len() - k,
    {
        if chars[i + k] != part[k] {
            assert(chars@.subrange(i as int, i + part@.len())[k as int] == chars@[i + k]);
            return false;
        }
        k = k + 1;
    }
    assert(chars@.subrange(i as int, i + part@.len()) =~= part@);
    true
}

/// Whether `s` holds `part` somewhere.
pub fn str_contains(s: &str, part: &str) -> (r: bool)
    ensures
        r == holds(s@, part@),
{
    let chars = str_chars(s);
    let wanted = str_chars(part);
    let mut i: usize = 0;
    while i < chars.len()
        invariant
            i <= chars@.len(),
            chars@ == s@,
            wanted@ == part@,
            forall|k: int| 0 <= k < i ==> !#[trigger] found_at(s@, part@, k),
        decreases chars.len() - i,
    {
        if is_found_at(&chars, &wanted, i) {
            return true;
        }
        i = i + 1;
    }
    let last = is_found_at(&chars, &wanted, i);
    assert forall|k: int| #[trigger] found_at(s@, part@, k) implies k <= i by {}
    last
}

} // verus!
