//! String and path helpers for the rest of the library.
//!
//! Paths are handled as plain strings of characters: a file name is
//! whatever follows the last `/`, and an extension is whatever
//! follows the last `.` of that file name, provided the dot is not
//! its first character.  On the simple relative file names this
//! library builds, these rules agree with the platform's path
//! handling.

use vstd::prelude::*;

verus! {

/// The index of the last occurrence of `c` in `s`, or -1 when `c`
/// does not occur.
pub open spec fn last_index_of(s: Seq<char>, c: char) -> int
    decreases s.len(),
{
    if s.len() == 0 {
        -1
    } else if s.last() == c {
        s.len() - 1
    } else {
        last_index_of(s.drop_last(), c)
    }
}

/// What `last_index_of` returns: an in-range index holding `c` with
/// no later occurrence, or -1 with no occurrence at all.
pub proof fn lemma_last_index_of(s: Seq<char>, c: char)
    ensures
        -1 <= last_index_of(s, c) < s.len(),
        last_index_of(s, c) >= 0 ==> s[last_index_of(s, c)] == c,
        forall|j: int| last_index_of(s, c) < j < s.len() ==> s[j] != c,
    decreases s.len(),
{
    if s.len() > 0 && s.last() != c {
        lemma_last_index_of(s.drop_last(), c);
        assert forall|j: int| last_index_of(s, c) < j < s.len() implies s[j] != c by {
            if j < s.len() - 1 {
                assert(s.drop_last()[j] == s[j]);
            }
        }
    }
}

/// The characters of `s`, one by one.
pub fn str_to_chars(s: &str) -> (v: Vec<char>)
    ensures
        v@ == s@,
{
    let n = s.unicode_len();
    let mut v: Vec<char> = Vec::new();
    let mut i: usize = 0;
    while i < n
        invariant
            n == s@.len(),
            i <= n,
            v@ == s@.take(i as int),
        decreases n - i,
    {
        v.push(s.get_char(i));
        proof {
            assert(s@.take(i + 1 as int) =~= s@.take(i as int).push(s@[i as int]));
        }
        i = i + 1;
    }
    proof {
        assert(s@.take(n as int) =~= s@);
    }
    v
}

/// A string holding exactly the given characters.
///
/// Relies on `String`'s `FromIterator<char>`: collecting characters
/// builds the string of exactly those characters in order.
#[verifier::external_body]
fn chars_to_string(v: &Vec<char>) -> (r: String)
    ensures
        r@ == v@,
{
    v.iter().collect()
}

/// The last position of `c` in `v`, scanned from the end.
pub fn find_last(v: &Vec<char>, c: char) -> (r: Option<usize>)
    ensures
        r matches Some(i) ==> i == last_index_of(v@, c),
        r is None ==> last_index_of(v@, c) == -1,
{
    proof {
        lemma_last_index_of(v@, c);
    }
    let mut i: usize = v.len();
    while i > 0
        invariant
            i <= v@.len(),
            forall|j: int| i <= j < v@.len() ==> v@[j] != c,
            last_index_of(v@, c) < i,
        decreases i,
    {
        proof {
            lemma_last_index_of(v@, c);
        }
        i = i - 1;
        if v[i] == c {
            return Some(i);
        }
    }
    None
}

/// Append the characters of `v` at indices `a..b` to `out`.
fn push_range(out: &mut Vec<char>, v: &Vec<char>, a: usize, b: usize)
    requires
        a <= b <= v@.len(),
    ensures
        final(out)@ == old(out)@ + v@.subrange(a as int, b as int),
{
    let mut i: usize = a;
    while i < b
        invariant
            a <= i <= b <= v@.len(),
            out@ == old(out)@ + v@.subrange(a as int, i as int),
        decreases b - i,
    {
        out.push(v[i]);
        proof {
            assert(v@.subrange(a as int, i + 1 as int) =~= v@.subrange(a as int, i as int).push(
                v@[i as int],
            ));
            assert(out@ =~= old(out)@ + v@.subrange(a as int, i + 1 as int));
        }
        i = i + 1;
    }
    proof {
        assert(out@ =~= old(out)@ + v@.subrange(a as int, b as int));
    }
}

/// Where the file name of path `p` starts: right after the last
/// `/`, or at the start when there is none.
pub open spec fn spec_file_name_start(p: Seq<char>) -> int {
    last_index_of(p, '/') + 1
}

/// The file name of path `p`: everything after the last `/`.
pub open spec fn spec_file_name(p: Seq<char>) -> Seq<char> {
    p.skip(spec_file_name_start(p))
}

/// Whether the file name of `p` has an extension: a `.` after the
/// file name's first character.
pub open spec fn spec_has_extension(p: Seq<char>) -> bool {
    last_index_of(p, '.') > spec_file_name_start(p)
}

/// The extension of `p`: everything after the file name's last
/// `.`.  Meaningful only when `spec_has_extension(p)` holds.
pub open spec fn spec_extension(p: Seq<char>) -> Seq<char> {
    p.skip(last_index_of(p, '.') + 1)
}

/// `p` with the file name's stem replaced by `stem`, keeping the
/// directory part and the extension.
pub open spec fn spec_set_file_stem(p: Seq<char>, stem: Seq<char>) -> Seq<char> {
    let prefix = p.take(spec_file_name_start(p));
    if spec_has_extension(p) {
        prefix + stem + seq!['.'] + spec_extension(p)
    } else {
        prefix + stem
    }
}

/// `p` with its extension replaced by `ext` (or `.ext` appended
/// when the file name has none).
pub open spec fn spec_with_extension(p: Seq<char>, ext: Seq<char>) -> Seq<char> {
    let stem_end = if spec_has_extension(p) {
        last_index_of(p, '.')
    } else {
        p.len() as int
    };
    p.take(stem_end) + seq!['.'] + ext
}

/// `dir` and the relative file name `name` joined with a single
/// separator.
pub open spec fn spec_path_join(dir: Seq<char>, name: Seq<char>) -> Seq<char> {
    if dir.len() == 0 {
        name
    } else if dir.last() == '/' {
        dir + name
    } else {
        dir + seq!['/'] + name
    }
}

/// Replace the file name's stem, keeping the directory part and
/// the extension: the new file name is `stem`, or `stem.ext` when
/// the old name had the extension `ext`.
pub fn set_file_stem(path: &str, stem: &str) -> (r: String)
    ensures
        r@ == spec_set_file_stem(path@, stem@),
{
    let p = str_to_chars(path);
    let s = str_to_chars(stem);
    let plen: usize = p.len();
    proof {
        lemma_last_index_of(p@, '/');
        lemma_last_index_of(p@, '.');
    }
    let start: usize = match find_last(&p, '/') {
        Some(i) => i + 1,
        None => 0,
    };
    let mut out: Vec<char> = Vec::new();
    push_range(&mut out, &p, 0, start);
    push_range(&mut out, &s, 0, s.len());
    proof {
        assert(s@.subrange(0, s@.len() as int) =~= s@);
    }
    match find_last(&p, '.') {
        Some(d) if d > start => {
            out.push('.');
            push_range(&mut out, &p, d + 1, p.len());
            proof {
                assert(p@.subrange(d + 1 as int, p@.len() as int) =~= p@.skip(d + 1 as int));
                assert(out@ =~= spec_set_file_stem(path@, stem@));
            }
        },
        _ => {
            proof {
                assert(out@ =~= spec_set_file_stem(path@, stem@));
            }
        },
    }
    chars_to_string(&out)
}

/// The file name of a path: everything after the last `/`, or the
/// whole path when there is no `/`.
pub fn file_name(path: &str) -> (r: String)
    ensures
        r@ == spec_file_name(path@),
{
    let p = str_to_chars(path);
    let plen: usize = p.len();
    proof {
        lemma_last_index_of(p@, '/');
    }
    let start: usize = match find_last(&p, '/') {
        Some(i) => i + 1,
        None => 0,
    };
    let mut out: Vec<char> = Vec::new();
    push_range(&mut out, &p, start, plen);
    proof {
        assert(out@ =~= spec_file_name(path@));
    }
    chars_to_string(&out)
}

/// The path with its extension replaced by `ext`; a file name
/// without an extension gets `.ext` appended.
pub fn with_extension(path: &str, ext: &str) -> (r: String)
    ensures
        r@ == spec_with_extension(path@, ext@),
{
    let p = str_to_chars(path);
    let e = str_to_chars(ext);
    let plen: usize = p.len();
    proof {
        lemma_last_index_of(p@, '/');
        lemma_last_index_of(p@, '.');
    }
    let start: usize = match find_last(&p, '/') {
        Some(i) => i + 1,
        None => 0,
    };
    let stem_end: usize = match find_last(&p, '.') {
        Some(d) if d > start => d,
        _ => p.len(),
    };
    let mut out: Vec<char> = Vec::new();
    push_range(&mut out, &p, 0, stem_end);
    out.push('.');
    push_range(&mut out, &e, 0, e.len());
    proof {
        assert(e@.subrange(0, e@.len() as int) =~= e@);
        assert(out@ =~= spec_with_extension(path@, ext@));
    }
    chars_to_string(&out)
}

/// Join a directory path and a relative file name with a single
/// separator.
pub fn path_join(dir: &str, name: &str) -> (r: String)
    ensures
        r@ == spec_path_join(dir@, name@),
{
    let d = str_to_chars(dir);
    let n = str_to_chars(name);
    let mut out: Vec<char> = Vec::new();
    push_range(&mut out, &d, 0, d.len());
    proof {
        assert(d@.subrange(0, d@.len() as int) =~= d@);
    }
    if d.len() > 0 && d[d.len() - 1] != '/' {
        out.push('/');
    }
    push_range(&mut out, &n, 0, n.len());
    proof {
        assert(n@.subrange(0, n@.len() as int) =~= n@);
        assert(out@ =~= spec_path_join(dir@, name@));
    }
    chars_to_string(&out)
}

/// The tag text as written to a sidecar file: every space becomes
/// a comma and a space, so `"a b"` becomes `"a, b"`.
pub open spec fn spec_normalize_tags(s: Seq<char>) -> Seq<char>
    decreases s.len(),
{
    if s.len() == 0 {
        Seq::empty()
    } else {
        spec_normalize_tags(s.drop_last()) + (if s.last() == ' ' {
            seq![',', ' ']
        } else {
            seq![s.last()]
        })
    }
}

/// Normalize tag separators: each space becomes `", "`.
pub fn normalize_tags(tags: &str) -> (r: String)
    ensures
        r@ == spec_normalize_tags(tags@),
{
    let t = str_to_chars(tags);
    let mut out: Vec<char> = Vec::new();
    let mut i: usize = 0;
    while i < t.len()
        invariant
            i <= t@.len(),
            t@ == tags@,
            out@ == spec_normalize_tags(t@.take(i as int)),
        decreases t@.len() - i,
    {
        if t[i] == ' ' {
            out.push(',');
            out.push(' ');
        } else {
            out.push(t[i]);
        }
        proof {
            assert(t@.take(i + 1 as int).drop_last() =~= t@.take(i as int));
        }
        i = i + 1;
    }
    proof {
        assert(t@.take(t@.len() as int) =~= t@);
    }
    chars_to_string(&out)
}

/// The decimal digit `d` as a character.
pub open spec fn spec_digit(d: int) -> char
    recommends
        0 <= d < 10,
{
    if d == 0 {
        '0'
    } else if d == 1 {
        '1'
    } else if d == 2 {
        '2'
    } else if d == 3 {
        '3'
    } else if d == 4 {
        '4'
    } else if d == 5 {
        '5'
    } else if d == 6 {
        '6'
    } else if d == 7 {
        '7'
    } else if d == 8 {
        '8'
    } else {
        '9'
    }
}

/// The usual decimal rendering of `n`, without leading zeros
/// (except for `n == 0` itself).
pub open spec fn spec_decimal(n: int) -> Seq<char>
    recommends
        n >= 0,
    decreases n,
{
    if n < 0 {
        Seq::empty()
    } else if n < 10 {
        seq![spec_digit(n)]
    } else {
        spec_decimal(n / 10).push(spec_digit(n % 10))
    }
}

/// One decimal digit as a character.
fn digit_char(d: u64) -> (c: char)
    requires
        d < 10,
    ensures
        c == spec_digit(d as int),
{
    if d == 0 {
        '0'
    } else if d == 1 {
        '1'
    } else if d == 2 {
        '2'
    } else if d == 3 {
        '3'
    } else if d == 4 {
        '4'
    } else if d == 5 {
        '5'
    } else if d == 6 {
        '6'
    } else if d == 7 {
        '7'
    } else if d == 8 {
        '8'
    } else {
        '9'
    }
}

/// Render `n` in decimal.
pub fn u64_to_string(n: u64) -> (r: String)
    ensures
        r@ == spec_decimal(n as int),
{
    let mut digits: Vec<char> = Vec::new();
    let mut m: u64 = n;
    loop
        invariant_except_break
            digits@.len() == 0 ==> m == n,
            digits@.len() > 0 ==> m > 0 && spec_decimal(n as int) == spec_decimal(m as int)
                + digits@,
        ensures
            spec_decimal(n as int) == digits@,
        decreases m, (if digits@.len() == 0 {
            1int
        } else {
            0int
        }),
    {
        let ghost old_m = m;
        let ghost old_digits = digits@;
        let d = digit_char(m % 10);
        digits.insert(0, d);
        m = m / 10;
        proof {
            assert(digits@ =~= seq![spec_digit((old_m % 10) as int)] + old_digits);
            if old_m >= 10 {
                assert(spec_decimal(old_m as int) == spec_decimal(old_m as int / 10).push(
                    spec_digit(old_m as int % 10),
                ));
                assert(old_m as int / 10 == m as int);
                assert(spec_decimal(old_m as int) =~= spec_decimal(m as int) + seq![
                    spec_digit((old_m % 10) as int),
                ]);
            } else {
                assert(spec_decimal(old_m as int) =~= seq![spec_digit((old_m % 10) as int)]);
            }
            if old_digits.len() == 0 {
                assert(spec_decimal(n as int) =~= spec_decimal(old_m as int) + old_digits);
            }
            assert(spec_decimal(n as int) =~= spec_decimal(old_m as int) + old_digits);
            if m > 0 {
                assert(spec_decimal(n as int) =~= spec_decimal(m as int) + digits@);
            } else {
                assert(spec_decimal(old_m as int) =~= seq![spec_digit((old_m % 10) as int)]);
                assert(spec_decimal(n as int) =~= digits@);
            }
        }
        if m == 0 {
            break ;
        }
    }
    chars_to_string(&digits)
}

/// Compare two strings character by character.
pub fn str_eq(a: &str, b: &str) -> (r: bool)
    ensures
        r == (a@ == b@),
{
    let na = a.unicode_len();
    let nb = b.unicode_len();
    if na != nb {
        return false;
    }
    let mut i: usize = 0;
    while i < na
        invariant
            na == a@.len(),
            na == b@.len(),
            i <= na,
            forall|j: int| 0 <= j < i ==> a@[j] == b@[j],
        decreases na - i,
    {
        if a.get_char(i) != b.get_char(i) {
            return false;
        }
        i = i + 1;
    }
    proof {
        assert(a@ =~= b@);
    }
    true
}

} // verus!
