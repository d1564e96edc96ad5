//! String helpers shared by the rest of the library: the few `str` methods of
//! std that the logic leans on, and decimal numbers as text.

use vstd::multiset::Multiset;
use vstd::prelude::*;
use vstd::std_specs::iter::IteratorSpec;

verus! {

/// What `str::to_lowercase` returns for a string with these characters.
pub uninterp spec fn lowercase(s: Seq<char>) -> Seq<char>;

/// Whether a character is white space as Unicode defines it (the property
/// `White_Space`): the controls from tab to carriage return, the space, the
/// next-line control, the no-break space, the ogham space mark, the spaces
/// from en quad to hair space, the line and paragraph separators, the narrow
/// no-break space, the medium mathematical space and the ideographic space.
pub open spec fn is_white_space(c: char) -> bool {
    let n = c as u32;
    (0x09 <= n <= 0x0D) || n == 0x20 || n == 0x85 || n == 0xA0 || n == 0x1680 || (0x2000 <= n
        <= 0x200A) || n == 0x2028 || n == 0x2029 || n == 0x202F || n == 0x205F || n == 0x3000
}

/// A text without the white space at its start.
pub open spec fn trimmed_start(s: Seq<char>) -> Seq<char>
    decreases s.len(),
{
    if s.len() > 0 && is_white_space(s[0]) {
        trimmed_start(s.drop_first())
    } else {
        s
    }
}

/// A text without the white space at its end.
pub open spec fn trimmed_end(s: Seq<char>) -> Seq<char>
    decreases s.len(),
{
    if s.len() > 0 && is_white_space(s[s.len() - 1]) {
        trimmed_end(s.drop_last())
    } else {
        s
    }
}

/// A text without the white space at its start and at its end.
pub open spec fn trimmed(s: Seq<char>) -> Seq<char> {
    trimmed_end(trimmed_start(s))
}

/// The characters of an optional string.
pub open spec fn text_of(s: Option<String>) -> Option<Seq<char>> {
    match s {
        Some(t) => Some(t@),
        None => None,
    }
}

/// The characters of `s`, in order.
pub fn chars_of(s: &str) -> (r: Vec<char>)
    ensures
        r@ == s@,
{
    broadcast use vstd::string::group_string_axioms;

    let mut it = s.chars();
    let mut out: Vec<char> = Vec::new();
    assert(it.remaining() == s@);
    loop
        invariant
            it.obeys_prophetic_iter_laws(),
            out@ + it.remaining() == s@,
            it.decrease() is Some,
        decreases it.decrease()->0,
    {
        let ghost before = it;
        let next = it.next();
        match next {
            Some(c) => {
                let ghost head = out@;
                out.push(c);
                assert(out@ + it.remaining() =~= head + before.remaining());
            },
            None => {
                assert(out@ + it.remaining() =~= out@);
                return out;
            },
        }
    }
}

/// The string made of `v`'s characters, in order. Calls `String::from_iter`
/// on the slice.
#[verifier::external_body]
pub(crate) fn string_of(v: &[char]) -> (r: String)
    ensures
        r@ == v@,
{
    String::from_iter(v.iter())
}

/// Whether two strings hold the same characters.
pub fn str_eq(a: &str, b: &str) -> (r: bool)
    ensures
        r == (a@ == b@),
{
    let x = a.to_owned();
    let y = b.to_owned();
    x == y
}

/// `str::to_lowercase`: the Unicode lowercase form of `s`, named by
/// [`lowercase`].
#[verifier::external_body]
pub(crate) fn to_lowercase(s: &str) -> (r: String)
    ensures
        r@ == lowercase(s@),
{
    s.to_lowercase()
}

/// `str::trim`: `s` without leading and trailing white space, which std
/// defines by the Unicode property `White_Space`; [`trimmed`] spells it
/// out.
#[verifier::external_body]
pub(crate) fn trim(s: &str) -> (r: &str)
    ensures
        r@ == trimmed(s@),
{
    s.trim()
}

/// The index of the last `c` in `s`, or -1 where it has none.
pub open spec fn last_index(s: Seq<char>, c: char) -> int
    decreases s.len(),
{
    if s.len() == 0 {
        -1
    } else if s.last() == c {
        s.len() - 1
    } else {
        last_index(s.drop_last(), c)
    }
}

/// [`last_index`] is an index of `c`, and no `c` follows it.
pub proof fn lemma_last_index(s: Seq<char>, c: char)
    ensures
        -1 <= last_index(s, c) < s.len(),
        last_index(s, c) >= 0 ==> s[last_index(s, c)] == c,
        forall|i: int| last_index(s, c) < i < s.len() ==> s[i] != c,
    decreases s.len(),
{
    if s.len() > 0 && s.last() != c {
        lemma_last_index(s.drop_last(), c);
        assert forall|i: int| last_index(s, c) < i < s.len() implies s[i] != c by {
            if i < s.len() - 1 {
                assert(s.drop_last()[i] == s[i]);
            }
        }
    }
}

/// Finds the last `c` of `v`: its index, or `v.len()` where there is none.
pub fn find_last(v: &[char], c: char) -> (r: usize)
    ensures
        r <= v@.len(),
        r < v@.len() ==> last_index(v@, c) == r,
        r == v@.len() ==> last_index(v@, c) == -1,
{
    let mut i: usize = v.len();
    assert(v@.subrange(0, i as int) == v@);
    while i > 0
        invariant
            i <= v@.len(),
            last_index(v@, c) == last_index(v@.subrange(0, i as int), c),
        decreases i,
    {
        let ghost head = v@.subrange(0, i as int);
        if v[i - 1] == c {
            assert(head.last() == c);
            return i - 1;
        }
        assert(head.drop_last() == v@.subrange(0, i - 1));
        i = i - 1;
    }
    assert(v@.subrange(0, 0).len() == 0);
    v.len()
}

/// The final component of a path: what follows its last slash.
pub open spec fn final_component(path: Seq<char>) -> Seq<char> {
    path.subrange(last_index(path, '/') + 1, path.len() as int)
}

/// The file name of a path: its final component, unless that is empty or
/// one of `.` and `..`.
pub open spec fn path_file_name(path: Seq<char>) -> Option<Seq<char>> {
    let name = final_component(path);
    if name.len() == 0 || name == seq!['.'] || name == seq!['.', '.'] {
        None
    } else {
        Some(name)
    }
}

/// The extension of a path: what follows the last dot of its file name.
/// A name without a dot, or with its only dot in front, has none.
pub open spec fn path_extension(path: Seq<char>) -> Option<Seq<char>> {
    match path_file_name(path) {
        Some(name) => if last_index(name, '.') <= 0 {
            None
        } else {
            Some(name.subrange(last_index(name, '.') + 1, name.len() as int))
        },
        None => None,
    }
}

/// The file name of a path.
pub fn file_name(path: &str) -> (r: Option<String>)
    ensures
        r is Some == path_file_name(path@) is Some,
        r matches Some(n) ==> path_file_name(path@) == Some(n@),
{
    let v = chars_of(path);
    let slash = find_last(v.as_slice(), '/');
    let from: usize = if slash < v.len() {
        slash + 1
    } else {
        0
    };
    let name = vstd::slice::slice_subrange(v.as_slice(), from, v.len());
    let n = name.len();
    if n == 0 || (n == 1 && name[0] == '.') || (n == 2 && name[0] == '.' && name[1] == '.') {
        proof {
            if n == 1 {
                assert(name@ =~= seq!['.']);
            }
            if n == 2 {
                assert(name@ =~= seq!['.', '.']);
            }
        }
        None
    } else {
        proof {
            assert(name@ != seq!['.']) by {
                if name@ == seq!['.'] {
                    assert(name@.len() == 1 && name@[0] == '.');
                }
            }
            assert(name@ != seq!['.', '.']) by {
                if name@ == seq!['.', '.'] {
                    assert(name@.len() == 2 && name@[0] == '.' && name@[1] == '.');
                }
            }
        }
        Some(string_of(name))
    }
}

/// The extension of a path.
pub fn extension(path: &str) -> (r: Option<String>)
    ensures
        r is Some == path_extension(path@) is Some,
        r matches Some(e) ==> path_extension(path@) == Some(e@),
{
    let name = match file_name(path) {
        Some(n) => n,
        None => {
            return None;
        },
    };
    let v = chars_of(name.as_str());
    let dot = find_last(v.as_slice(), '.');
    if dot == v.len() || dot == 0 {
        None
    } else {
        Some(string_of(vstd::slice::slice_subrange(v.as_slice(), dot + 1, v.len())))
    }
}

/// A file below a directory: the directory, a slash, the name.
pub open spec fn joined_path(dir: Seq<char>, name: Seq<char>) -> Seq<char> {
    dir + seq!['/'] + name
}

/// The path of a file below a directory.
pub fn join_path(dir: &str, name: &str) -> (r: String)
    ensures
        r@ == joined_path(dir@, name@),
{
    let mut out = String::from_str(dir);
    out.append("/");
    out.append(name);
    proof {
        reveal_strlit("/");
        assert("/"@ == seq!['/']);
    }
    out
}

/// The decimal digit `d` as a character.
pub open spec fn digit_char(d: nat) -> char
    recommends
        d < 10,
{
    if d == 0 {
        '0'
    } else if d == 1 {
        '1'
    } else if d == 2 {
        '2'
    } else if d == 3 {
        '3'
    } else if d == 4 {
        '4'
    } else if d == 5 {
        '5'
    } else if d == 6 {
        '6'
    } else if d == 7 {
        '7'
    } else if d == 8 {
        '8'
    } else {
        '9'
    }
}

/// Whether `c` is one of `'0'..='9'`.
pub open spec fn is_digit(c: char) -> bool {
    '0' <= c && c <= '9'
}

/// The value of the decimal digit `c`.
pub open spec fn digit_value(c: char) -> nat
    recommends
        is_digit(c),
{
    (c as u32 - '0' as u32) as nat
}

/// `n` written in decimal, without sign or leading zeros.
pub open spec fn decimal(n: nat) -> Seq<char>
    decreases n,
{
    if n < 10 {
        seq![digit_char(n)]
    } else {
        decimal(n / 10).push(digit_char(n % 10))
    }
}

/// Whether every character of `s` is a decimal digit.
pub open spec fn all_digits(s: Seq<char>) -> bool {
    forall|i: int| 0 <= i < s.len() ==> is_digit(#[trigger] s[i])
}

/// The number that the digits of `s` spell; 0 for the empty sequence.
pub open spec fn digits_value(s: Seq<char>) -> nat
    decreases s.len(),
{
    if s.len() == 0 {
        0
    } else {
        digits_value(s.drop_last()) * 10 + digit_value(s.last())
    }
}

/// The unsigned decimal number that `s` spells, as `u64::from_str` reads it:
/// an optional `+`, then one or more digits, the value at most `u64::MAX`.
pub open spec fn parsed_u64(s: Seq<char>) -> Option<u64> {
    let body = if s.len() > 0 && s[0] == '+' {
        s.subrange(1, s.len() as int)
    } else {
        s
    };
    if body.len() > 0 && all_digits(body) && digits_value(body) <= u64::MAX {
        Some(digits_value(body) as u64)
    } else {
        None
    }
}

/// A longer digit string never spells a smaller number than its prefix.
pub proof fn lemma_digits_value_prefix(s: Seq<char>, k: int)
    requires
        0 <= k <= s.len(),
    ensures
        digits_value(s.subrange(0, k)) <= digits_value(s),
    decreases s.len(),
{
    if k == s.len() {
        assert(s.subrange(0, k) == s);
    } else {
        lemma_digits_value_prefix(s.drop_last(), k);
        assert(s.drop_last().subrange(0, k) == s.subrange(0, k));
    }
}

fn digit_of(d: u8) -> (c: char)
    requires
        d < 10,
    ensures
        c == digit_char(d as nat),
{
    if d == 0 {
        '0'
    } else if d == 1 {
        '1'
    } else if d == 2 {
        '2'
    } else if d == 3 {
        '3'
    } else if d == 4 {
        '4'
    } else if d == 5 {
        '5'
    } else if d == 6 {
        '6'
    } else if d == 7 {
        '7'
    } else if d == 8 {
        '8'
    } else {
        '9'
    }
}

/// The decimal digits of `n` as characters.
pub fn decimal_chars(n: u128) -> (r: Vec<char>)
    ensures
        r@ == decimal(n as nat),
{
    let mut rev: Vec<char> = Vec::new();
    let mut m: u128 = n;
    while m >= 10
        invariant
            decimal(n as nat) == decimal(m as nat) + rev@.reverse(),
        decreases m,
    {
        let d: u8 = (m % 10) as u8;
        let ghost before = rev@;
        rev.push(digit_of(d));
        proof {
            assert(rev@.reverse() == seq![digit_char((m % 10) as nat)] + before.reverse());
            assert(decimal(m as nat) == decimal((m / 10) as nat).push(digit_char((m % 10) as nat)));
            assert(decimal(m as nat) + before.reverse() == decimal((m / 10) as nat) + rev@.reverse());
        }
        m = m / 10;
    }
    let ghost before = rev@;
    rev.push(digit_of(m as u8));
    proof {
        assert(rev@.reverse() == seq![digit_char(m as nat)] + before.reverse());
        assert(decimal(m as nat) == seq![digit_char(m as nat)]);
    }
    let mut out: Vec<char> = Vec::new();
    let mut i: usize = rev.len();
    while i > 0
        invariant
            i <= rev.len(),
            out@ == rev@.reverse().subrange(0, rev.len() - i),
        decreases i,
    {
        i = i - 1;
        out.push(rev[i]);
        assert(out@ == rev@.reverse().subrange(0, rev.len() - i));
    }
    assert(out@ == rev@.reverse());
    out
}

/// `n` in decimal, as a `String`.
pub fn decimal_string(n: u64) -> (r: String)
    ensures
        r@ == decimal(n as nat),
{
    let v = decimal_chars(n as u128);
    string_of(v.as_slice())
}

/// Reads an unsigned decimal number: `Some` exactly for an optional `+`
/// followed by digits whose value fits in 64 bits.
pub fn parse_u64(s: &str) -> (r: Option<u64>)
    ensures
        r == parsed_u64(s@),
{
    let v = chars_of(s);
    let start: usize = if v.len() > 0 && v[0] == '+' {
        1
    } else {
        0
    };
    let ghost body = v@.subrange(start as int, v.len() as int);
    if start == v.len() {
        return None;
    }
    let mut acc: u64 = 0;
    let mut i: usize = start;
    while i < v.len()
        invariant
            start <= i <= v.len(),
            v@ == s@,
            start < v.len(),
            start == (if v@.len() > 0 && v@[0] == '+' { 1int } else { 0int }),
            body == v@.subrange(start as int, v.len() as int),
            all_digits(body.subrange(0, i - start)),
            acc == digits_value(body.subrange(0, i - start)),
        decreases v.len() - i,
    {
        let c = v[i];
        let ghost pre = body.subrange(0, i - start);
        let ghost next = body.subrange(0, i + 1 - start);
        proof {
            assert(next.drop_last() == pre);
            assert(next.last() == c);
            assert(body[i - start] == c);
        }
        if !(c >= '0' && c <= '9') {
            assert(!is_digit(body[i - start]));
            return None;
        }
        let d: u64 = (c as u32 - '0' as u32) as u64;
        let grown = match acc.checked_mul(10) {
            Some(t) => t.checked_add(d),
            None => None,
        };
        match grown {
            Some(g) => {
                acc = g;
            },
            None => {
                proof {
                    assert(digits_value(next) == acc * 10 + d);
                    assert(digits_value(next) > u64::MAX);
                    lemma_digits_value_prefix(body, i + 1 - start);
                    if start == 0 {
                        assert(body == s@);
                    }
                }
                return None;
            },
        }
        i = i + 1;
    }
    proof {
        assert(body.subrange(0, i - start) == body);
        if start == 0 {
            assert(body == s@);
        }
    }
    Some(acc)
}

/// `num / den` rounded to the nearest whole number, a tie going to the even
/// neighbour.
pub open spec fn div_half_even(num: nat, den: nat) -> nat
    recommends
        den > 0,
{
    let q = num / den;
    let r = num % den;
    if 2 * r > den || (2 * r == den && q % 2 == 1) {
        q + 1
    } else {
        q
    }
}

/// A count of hundredths with two decimals: `1234` reads `12.34`.
pub open spec fn fixed2(h: nat) -> Seq<char> {
    decimal(h / 100) + seq!['.', digit_char((h % 100) / 10), digit_char(h % 10)]
}

/// [`div_half_even`] on machine integers.
pub fn rounded_div(num: u128, den: u128) -> (r: u128)
    requires
        den > 0,
        den <= u64::MAX,
    ensures
        r == div_half_even(num as nat, den as nat),
{
    let q: u128 = num / den;
    let rem: u128 = num % den;
    if 2 * rem > den || (2 * rem == den && q % 2 == 1) {
        assert(q < num || num == 0) by (nonlinear_arith)
            requires
                q == num / den,
                rem == num % den,
                2 * rem >= den,
                den > 0,
        ;
        q + 1
    } else {
        q
    }
}

/// The characters of [`fixed2`].
pub fn fixed2_chars(h: u128) -> (r: Vec<char>)
    ensures
        r@ == fixed2(h as nat),
{
    let mut out = decimal_chars(h / 100);
    let frac: u128 = h % 100;
    out.push('.');
    out.push(digit_of((frac / 10) as u8));
    out.push(digit_of((frac % 10) as u8));
    proof {
        assert(frac % 10 == h % 10);
        assert(out@ == fixed2(h as nat));
    }
    out
}

/// A share as a percentage with two decimals, rounded half to even: `part`
/// of `whole`, and `0.00` where `whole` is 0.
pub open spec fn percentage_text(part: nat, whole: nat) -> Seq<char> {
    if whole == 0 {
        seq!['0', '.', '0', '0']
    } else {
        fixed2(div_half_even(part * 10000, whole))
    }
}

/// [`percentage_text`] for counts of files: `done` and `failed` out of
/// `total`.
pub fn percentage_string(done: u64, failed: u64, total: u64) -> (r: String)
    ensures
        r@ == percentage_text((done + failed) as nat, total as nat),
{
    if total == 0 {
        let zero: Vec<char> = vec!['0', '.', '0', '0'];
        assert(zero@ == seq!['0', '.', '0', '0']);
        return string_of(zero.as_slice());
    }
    let part: u128 = done as u128 + failed as u128;
    let h = rounded_div(part * 10000, total as u128);
    let v = fixed2_chars(h);
    string_of(v.as_slice())
}

/// The index of the first `c` in `s`; the length of `s` where it has none.
pub open spec fn first_index<T>(s: Seq<T>, c: T) -> int
    decreases s.len(),
{
    if s.len() == 0 {
        0
    } else if s[0] == c {
        0
    } else {
        1 + first_index(s.subrange(1, s.len() as int), c)
    }
}

/// [`first_index`] is the least index of `c`.
pub proof fn lemma_first_index<T>(s: Seq<T>, c: T)
    ensures
        0 <= first_index(s, c) <= s.len(),
        first_index(s, c) < s.len() ==> s[first_index(s, c)] == c,
        forall|i: int| 0 <= i < first_index(s, c) ==> s[i] != c,
    decreases s.len(),
{
    if s.len() > 0 && s[0] != c {
        let rest = s.subrange(1, s.len() as int);
        lemma_first_index(rest, c);
        assert forall|i: int| 0 <= i < first_index(s, c) implies s[i] != c by {
            if i > 0 {
                assert(rest[i - 1] == s[i]);
            }
        }
    }
}

/// Any index that holds the first `c`, with none before it, is
/// [`first_index`].
pub proof fn lemma_first_index_is<T>(s: Seq<T>, c: T, k: int)
    requires
        0 <= k <= s.len(),
        k < s.len() ==> s[k] == c,
        forall|i: int| 0 <= i < k ==> s[i] != c,
    ensures
        first_index(s, c) == k,
{
    lemma_first_index(s, c);
    let f = first_index(s, c);
    if f < k {
        assert(s[f] != c);
    }
}

/// Finds the first `c` in `v`: its index, or `v.len()`.
pub fn find_char(v: &[char], c: char) -> (r: usize)
    ensures
        r == first_index(v@, c),
        r <= v@.len(),
{
    let mut i: usize = 0;
    while i < v.len()
        invariant
            i <= v@.len(),
            forall|j: int| 0 <= j < i ==> v@[j] != c,
        decreases v.len() - i,
    {
        if v[i] == c {
            proof {
                lemma_first_index_is(v@, c, i as int);
            }
            return i;
        }
        i = i + 1;
    }
    proof {
        lemma_first_index_is(v@, c, i as int);
    }
    i
}

/// Whether `s` begins with `prefix`.
pub open spec fn starts_with(s: Seq<char>, prefix: Seq<char>) -> bool {
    s.len() >= prefix.len() && s.subrange(0, prefix.len() as int) == prefix
}

/// Whether `v` begins with the characters of `prefix`.
pub fn has_prefix(v: &[char], prefix: &str) -> (r: bool)
    ensures
        r == starts_with(v@, prefix@),
{
    let p = chars_of(prefix);
    if v.len() < p.len() {
        return false;
    }
    let mut i: usize = 0;
    while i < p.len()
        invariant
            i <= p@.len() <= v@.len(),
            p@ == prefix@,
            forall|j: int| 0 <= j < i ==> v@[j] == p@[j],
        decreases p.len() - i,
    {
        if v[i] != p[i] {
            assert(v@.subrange(0, p@.len() as int)[i as int] != p@[i as int]);
            return false;
        }
        i = i + 1;
    }
    assert(v@.subrange(0, p@.len() as int) =~= p@);
    true
}

/// Whether `a` comes before `b`, or equals it, in the lexicographic order
/// of their characters.
pub open spec fn lex_le(a: Seq<char>, b: Seq<char>) -> bool
    decreases a.len(),
{
    if a.len() == 0 {
        true
    } else if b.len() == 0 {
        false
    } else if a[0] != b[0] {
        a[0] < b[0]
    } else {
        lex_le(a.subrange(1, a.len() as int), b.subrange(1, b.len() as int))
    }
}

/// Of two texts one comes before the other, or they are equal.
pub proof fn lemma_lex_total(a: Seq<char>, b: Seq<char>)
    ensures
        lex_le(a, b) || lex_le(b, a),
    decreases a.len(),
{
    if a.len() > 0 && b.len() > 0 && a[0] == b[0] {
        lemma_lex_total(a.subrange(1, a.len() as int), b.subrange(1, b.len() as int));
    }
}

/// The lexicographic order is transitive.
pub proof fn lemma_lex_transitive(a: Seq<char>, b: Seq<char>, c: Seq<char>)
    requires
        lex_le(a, b),
        lex_le(b, c),
    ensures
        lex_le(a, c),
    decreases a.len(),
{
    if a.len() > 0 && b.len() > 0 && c.len() > 0 && a[0] == b[0] && b[0] == c[0] {
        lemma_lex_transitive(
            a.subrange(1, a.len() as int),
            b.subrange(1, b.len() as int),
            c.subrange(1, c.len() as int),
        );
    }
}

/// Two texts that come before each other are equal.
pub proof fn lemma_lex_antisymmetric(a: Seq<char>, b: Seq<char>)
    requires
        lex_le(a, b),
        lex_le(b, a),
    ensures
        a == b,
    decreases a.len(),
{
    if a.len() > 0 && b.len() > 0 {
        let ta = a.subrange(1, a.len() as int);
        let tb = b.subrange(1, b.len() as int);
        lemma_lex_antisymmetric(ta, tb);
        assert(a =~= seq![a[0]] + ta);
        assert(b =~= seq![b[0]] + tb);
    } else {
        assert(a =~= b);
    }
}

/// [`lex_le`] on strings.
pub fn text_le(a: &str, b: &str) -> (r: bool)
    ensures
        r == lex_le(a@, b@),
{
    broadcast use vstd::string::group_string_axioms;

    let mut x = a.chars();
    let mut y = b.chars();
    assert(x.remaining() == a@ && y.remaining() == b@);
    loop
        invariant
            x.obeys_prophetic_iter_laws(),
            y.obeys_prophetic_iter_laws(),
            x.decrease() is Some,
            lex_le(a@, b@) == lex_le(x.remaining(), y.remaining()),
        decreases x.decrease()->0,
    {
        let ghost xs = x.remaining();
        let ghost ys = y.remaining();
        let c = match x.next() {
            Some(c) => c,
            None => {
                return true;
            },
        };
        let d = match y.next() {
            Some(d) => d,
            None => {
                return false;
            },
        };
        assert(x.remaining() == xs.subrange(1, xs.len() as int));
        assert(y.remaining() == ys.subrange(1, ys.len() as int));
        if c != d {
            return c < d;
        }
    }
}

/// A whole number in decimal, with a minus sign where it is negative.
pub open spec fn signed_decimal(n: int) -> Seq<char> {
    if n < 0 {
        seq!['-'] + decimal((-n) as nat)
    } else {
        decimal(n as nat)
    }
}

/// [`signed_decimal`] as a string.
pub fn signed_decimal_string(n: i64) -> (r: String)
    ensures
        r@ == signed_decimal(n as int),
{
    if n < 0 {
        let magnitude: u64 = ((-(n + 1)) as u64) + 1;
        let mut out = String::from_str("-");
        out.append(decimal_string(magnitude).as_str());
        proof {
            reveal_strlit("-");
            assert("-"@ == seq!['-']);
        }
        out
    } else {
        decimal_string(n as u64)
    }
}

/// The characters of each string of a list.
pub open spec fn texts(v: Seq<String>) -> Seq<Seq<char>> {
    v.map_values(|s: String| s@)
}

/// Whether the texts stand in lexicographic order.
pub open spec fn is_sorted(v: Seq<Seq<char>>) -> bool {
    forall|i: int, j: int| 0 <= i < j < v.len() ==> lex_le(#[trigger] v[i], #[trigger] v[j])
}

/// Whether the texts stand in reverse lexicographic order.
pub open spec fn is_descending(v: Seq<Seq<char>>) -> bool {
    forall|i: int, j: int| 0 <= i < j < v.len() ==> lex_le(#[trigger] v[j], #[trigger] v[i])
}

/// Whether no text of `low` comes after a text of `high`.
pub open spec fn all_le(low: Seq<Seq<char>>, high: Seq<Seq<char>>) -> bool {
    forall|i: int, k: int|
        0 <= i < low.len() && 0 <= k < high.len() ==> lex_le(#[trigger] low[i], #[trigger] high[k])
}

/// Taking the last text of a list away takes it out of the list's
/// multiset.
proof fn lemma_drop_last_multiset(v: Seq<String>)
    requires
        v.len() > 0,
    ensures
        texts(v.drop_last()).to_multiset() == texts(v).to_multiset().remove(v.last()@),
        texts(v).to_multiset().count(v.last()@) > 0,
        texts(v.drop_last()) == texts(v).drop_last(),
{
    broadcast use vstd::seq_lib::group_to_multiset_ensures;

    let t = texts(v);
    assert(t.remove(t.len() - 1) =~= texts(v.drop_last()));
    assert(t.drop_last() =~= texts(v.drop_last()));
    vstd::seq_lib::to_multiset_remove(t, t.len() - 1);
    assert(t[t.len() - 1] == v.last()@);
    assert(t.contains(v.last()@));
}

/// Merges two sorted lists into one: the result is sorted and holds what
/// the two held.
pub fn merge_sorted(a: Vec<String>, b: Vec<String>) -> (r: Vec<String>)
    requires
        is_sorted(texts(a@)),
        is_sorted(texts(b@)),
    ensures
        is_sorted(texts(r@)),
        texts(r@).to_multiset() == texts(a@).to_multiset().add(texts(b@).to_multiset()),
        r@.len() == a@.len() + b@.len(),
{
    broadcast use vstd::multiset::group_multiset_axioms;

    let mut a = a;
    let mut b = b;
    let ghost total = texts(a@).to_multiset().add(texts(b@).to_multiset());
    let ghost count = a@.len() + b@.len();
    let mut rev: Vec<String> = Vec::new();
    assert(texts(rev@).to_multiset() =~= Multiset::<Seq<char>>::empty()) by {
        broadcast use vstd::seq_lib::group_to_multiset_ensures;

        assert(texts(rev@).len() == 0);
    }
    assert(texts(rev@).to_multiset().add(texts(a@).to_multiset()).add(texts(b@).to_multiset())
        =~= total);
    while a.len() > 0 || b.len() > 0
        invariant
            is_sorted(texts(a@)),
            is_sorted(texts(b@)),
            is_descending(texts(rev@)),
            all_le(texts(a@), texts(rev@)),
            all_le(texts(b@), texts(rev@)),
            texts(rev@).to_multiset().add(texts(a@).to_multiset()).add(texts(b@).to_multiset())
                == total,
            rev@.len() + a@.len() + b@.len() == count,
        decreases a@.len() + b@.len(),
    {
        let from_a = if b.len() == 0 {
            true
        } else if a.len() == 0 {
            false
        } else {
            text_le(b[b.len() - 1].as_str(), a[a.len() - 1].as_str())
        };
        let ghost a0 = a@;
        let ghost b0 = b@;
        let ghost rev0 = rev@;
        if from_a {
            let x = a.pop().unwrap();
            proof {
                lemma_drop_last_multiset(a0);
                assert(a@ == a0.drop_last());
                assert forall|k: int| 0 <= k < b0.len() implies lex_le(texts(b0)[k], x@) by {
                    let last = b0.len() - 1;
                    assert(x@ == texts(a0)[a0.len() - 1]);
                    assert(lex_le(texts(b0)[last], x@));
                    if k < last {
                        assert(lex_le(texts(b0)[k], texts(b0)[last]));
                    } else {
                        lemma_lex_total(texts(b0)[last], texts(b0)[last]);
                    }
                    lemma_lex_transitive(texts(b0)[k], texts(b0)[last], x@);
                }
                assert forall|i: int| 0 <= i < a@.len() implies lex_le(texts(a@)[i], x@) by {
                    assert(lex_le(texts(a0)[i], texts(a0)[a0.len() - 1]));
                }
                assert forall|k: int| 0 <= k < rev0.len() implies lex_le(x@, texts(rev0)[k]) by {
                    assert(lex_le(texts(a0)[a0.len() - 1], texts(rev0)[k]));
                }
            }
            rev.push(x);
            proof {
                assert(texts(rev@) =~= texts(rev0).push(x@));
                vstd::seq_lib::to_multiset_build(texts(rev0), x@);
                assert(texts(rev@).to_multiset().add(texts(a@).to_multiset()).add(
                    texts(b@).to_multiset(),
                ) =~= total);
                assert(is_sorted(texts(a@))) by {
                    assert forall|i: int, j: int| 0 <= i < j < texts(a@).len() implies lex_le(
                        #[trigger] texts(a@)[i],
                        #[trigger] texts(a@)[j],
                    ) by {
                        assert(lex_le(texts(a0)[i], texts(a0)[j]));
                    }
                }
            }
        } else {
            let x = b.pop().unwrap();
            proof {
                lemma_drop_last_multiset(b0);
                assert(b@ == b0.drop_last());
                assert forall|k: int| 0 <= k < a0.len() implies lex_le(texts(a0)[k], x@) by {
                    let last = a0.len() - 1;
                    assert(x@ == texts(b0)[b0.len() - 1]);
                    lemma_lex_total(texts(a0)[last], x@);
                    assert(lex_le(texts(a0)[last], x@));
                    if k < last {
                        assert(lex_le(texts(a0)[k], texts(a0)[last]));
                    } else {
                        lemma_lex_total(texts(a0)[last], texts(a0)[last]);
                    }
                    lemma_lex_transitive(texts(a0)[k], texts(a0)[last], x@);
                }
                assert forall|i: int| 0 <= i < b@.len() implies lex_le(texts(b@)[i], x@) by {
                    assert(lex_le(texts(b0)[i], texts(b0)[b0.len() - 1]));
                }
                assert forall|k: int| 0 <= k < rev0.len() implies lex_le(x@, texts(rev0)[k]) by {
                    assert(lex_le(texts(b0)[b0.len() - 1], texts(rev0)[k]));
                }
            }
            rev.push(x);
            proof {
                assert(texts(rev@) =~= texts(rev0).push(x@));
                vstd::seq_lib::to_multiset_build(texts(rev0), x@);
                assert(texts(rev@).to_multiset().add(texts(a@).to_multiset()).add(
                    texts(b@).to_multiset(),
                ) =~= total);
                assert(is_sorted(texts(b@))) by {
                    assert forall|i: int, j: int| 0 <= i < j < texts(b@).len() implies lex_le(
                        #[trigger] texts(b@)[i],
                        #[trigger] texts(b@)[j],
                    ) by {
                        assert(lex_le(texts(b0)[i], texts(b0)[j]));
                    }
                }
            }
        }
    }
    let mut out: Vec<String> = Vec::new();
    proof {
        broadcast use vstd::seq_lib::group_to_multiset_ensures;

        assert(texts(a@).len() == 0 && texts(b@).len() == 0 && texts(out@).len() == 0);
        assert(texts(a@).to_multiset() =~= Multiset::<Seq<char>>::empty());
        assert(texts(b@).to_multiset() =~= Multiset::<Seq<char>>::empty());
        assert(texts(out@).to_multiset() =~= Multiset::<Seq<char>>::empty());
        assert(texts(out@).to_multiset().add(texts(rev@).to_multiset()) =~= total);
    }
    while rev.len() > 0
        invariant
            is_sorted(texts(out@)),
            is_descending(texts(rev@)),
            all_le(texts(out@), texts(rev@)),
            texts(out@).to_multiset().add(texts(rev@).to_multiset()) == total,
            out@.len() + rev@.len() == count,
        decreases rev@.len(),
    {
        let ghost rev0 = rev@;
        let ghost out0 = out@;
        let x = rev.pop().unwrap();
        proof {
            lemma_drop_last_multiset(rev0);
            assert(rev@ == rev0.drop_last());
            assert forall|i: int| 0 <= i < out0.len() implies lex_le(texts(out0)[i], x@) by {
                assert(lex_le(texts(out0)[i], texts(rev0)[rev0.len() - 1]));
            }
            assert forall|k: int| 0 <= k < rev@.len() implies lex_le(x@, texts(rev@)[k]) by {
                assert(lex_le(texts(rev0)[rev0.len() - 1], texts(rev0)[k]));
            }
        }
        out.push(x);
        proof {
            assert(texts(out@) =~= texts(out0).push(x@));
            vstd::seq_lib::to_multiset_build(texts(out0), x@);
            assert(texts(out@).to_multiset().add(texts(rev@).to_multiset()) =~= total);
            assert(is_descending(texts(rev@))) by {
                assert forall|i: int, j: int| 0 <= i < j < texts(rev@).len() implies lex_le(
                    #[trigger] texts(rev@)[j],
                    #[trigger] texts(rev@)[i],
                ) by {
                    assert(lex_le(texts(rev0)[j], texts(rev0)[i]));
                }
            }
            assert(all_le(texts(out@), texts(rev@))) by {
                assert forall|i: int, k: int|
                    0 <= i < texts(out@).len() && 0 <= k < texts(rev@).len() implies lex_le(
                    #[trigger] texts(out@)[i],
                    #[trigger] texts(rev@)[k],
                ) by {
                    if i < out0.len() {
                        assert(lex_le(texts(out0)[i], texts(rev0)[k]));
                    }
                }
            }
        }
    }
    proof {
        broadcast use vstd::seq_lib::group_to_multiset_ensures;

        assert(texts(rev@).len() == 0);
        assert(texts(rev@).to_multiset() =~= Multiset::<Seq<char>>::empty());
        assert(texts(out@).to_multiset() =~= total);
    }
    out
}

/// Sorts texts into lexicographic order by merging: the result holds the
/// same texts, each as often as before.
pub fn sort_texts(v: Vec<String>) -> (r: Vec<String>)
    ensures
        is_sorted(texts(r@)),
        texts(r@).to_multiset() == texts(v@).to_multiset(),
        r@.len() == v@.len(),
    decreases v@.len(),
{
    if v.len() <= 1 {
        return v;
    }
    let mut left = v;
    let mid: usize = left.len() / 2;
    let right = left.split_off(mid);
    proof {
        assert(texts(v@) =~= texts(left@) + texts(right@));
        vstd::seq_lib::lemma_multiset_commutative(texts(left@), texts(right@));
    }
    let sorted_left = sort_texts(left);
    let sorted_right = sort_texts(right);
    merge_sorted(sorted_left, sorted_right)
}

/// A set of paths, held sorted so that membership is found by bisection.
#[derive(Debug, Clone)]
pub struct PathSet {
    pub sorted: Vec<String>,
}

impl PathSet {
    /// The paths stand in lexicographic order.
    pub open spec fn wf(&self) -> bool {
        is_sorted(texts(self.sorted@))
    }

    /// Whether the set holds `text`.
    pub open spec fn holds(&self, text: Seq<char>) -> bool {
        texts(self.sorted@).contains(text)
    }

    /// The set of the paths of a list.
    pub fn new(paths: &Vec<String>) -> (r: PathSet)
        ensures
            r.wf(),
            forall|text: Seq<char>| r.holds(text) == texts(paths@).contains(text),
    {
        let mut copy: Vec<String> = Vec::new();
        let mut i: usize = 0;
        while i < paths.len()
            invariant
                i <= paths.len(),
                texts(copy@) == texts(paths@).subrange(0, i as int),
            decreases paths.len() - i,
        {
            let ghost before = texts(copy@);
            copy.push(paths[i].clone());
            assert(texts(copy@) =~= before.push(paths@[i as int]@));
            assert(texts(paths@).subrange(0, i + 1) =~= before.push(paths@[i as int]@));
            i = i + 1;
        }
        assert(texts(paths@).subrange(0, i as int) == texts(paths@));
        let sorted = sort_texts(copy);
        proof {
            broadcast use vstd::seq_lib::group_to_multiset_ensures;

            assert forall|text: Seq<char>| texts(sorted@).contains(text) == texts(
                paths@,
            ).contains(text) by {
                assert(texts(sorted@).to_multiset().count(text) == texts(
                    paths@,
                ).to_multiset().count(text));
            }
        }
        PathSet { sorted }
    }

    /// Whether the set holds `text`, found by bisection.
    pub fn contains(&self, text: &str) -> (r: bool)
        requires
            self.wf(),
        ensures
            r == self.holds(text@),
    {
        let ghost list = texts(self.sorted@);
        let mut lo: usize = 0;
        let mut hi: usize = self.sorted.len();
        while lo < hi
            invariant
                lo <= hi <= self.sorted@.len(),
                list == texts(self.sorted@),
                is_sorted(list),
                forall|i: int| 0 <= i < lo ==> list[i] != text@,
                forall|i: int| hi <= i < list.len() ==> list[i] != text@,
            decreases hi - lo,
        {
            let mid: usize = lo + (hi - lo) / 2;
            let item = self.sorted[mid].as_str();
            assert(list[mid as int] == item@);
            if str_eq(item, text) {
                return true;
            }
            if text_le(item, text) {
                proof {
                    assert forall|i: int| 0 <= i < mid + 1 implies list[i] != text@ by {
                        if i < mid && list[i] == text@ {
                            assert(lex_le(list[i], list[mid as int]));
                            lemma_lex_antisymmetric(item@, text@);
                        }
                    }
                }
                lo = mid + 1;
            } else {
                proof {
                    assert forall|i: int| mid <= i < list.len() implies list[i] != text@ by {
                        if i > mid && list[i] == text@ {
                            assert(lex_le(list[mid as int], list[i]));
                        }
                    }
                }
                hi = mid;
            }
        }
        false
    }
}

} // verus!
