use vstd::prelude::*;
use vstd::string::StrSliceExecFns;
use vstd::string::StringExecFns;

verus! {

/// The whitespace that line trimming removes.
pub open spec fn is_space_char(c: char) -> bool {
    c == ' ' || c == '\t' || c == '\r' || c == '\n'
}

/// `s` with leading and trailing whitespace removed.
pub open spec fn trimmed(s: Seq<char>) -> Seq<char>
    decreases s.len(),
{
    if s.len() > 0 && is_space_char(s.first()) {
        trimmed(s.drop_first())
    } else if s.len() > 0 && is_space_char(s.last()) {
        trimmed(s.drop_last())
    } else {
        s
    }
}

/// `s` with every leading and trailing `c` removed.
pub open spec fn trim_char(s: Seq<char>, c: char) -> Seq<char>
    decreases s.len(),
{
    if s.len() > 0 && s.first() == c {
        trim_char(s.drop_first(), c)
    } else if s.len() > 0 && s.last() == c {
        trim_char(s.drop_last(), c)
    } else {
        s
    }
}

pub open spec fn starts_with(s: Seq<char>, prefix: Seq<char>) -> bool {
    s.len() >= prefix.len() && s.subrange(0, prefix.len() as int) == prefix
}

/// The pattern that home expansion replaces.
pub open spec fn home_pattern() -> Seq<char> {
    seq!['$', 'H', 'O', 'M', 'E']
}

/// `$HOME` replaced by the home directory throughout `s`, scanning left
/// to right without overlap.
pub open spec fn home_expanded(s: Seq<char>, home: Seq<char>) -> Seq<char>
    decreases s.len(),
{
    if starts_with(s, home_pattern()) {
        home + home_expanded(s.subrange(5, s.len() as int), home)
    } else if s.len() == 0 {
        s
    } else {
        seq![s[0]] + home_expanded(s.drop_first(), home)
    }
}

/// The home-expansion rule: replacement happens only when the path
/// starts with the pattern and a home directory is known; otherwise the
/// path is kept as it is.
pub open spec fn expand_home_spec(path: Seq<char>, home: Option<String>) -> Seq<char> {
    match home {
        Some(h) => if starts_with(path, home_pattern()) {
            home_expanded(path, h@)
        } else {
            path
        },
        None => path,
    }
}

/// The key that names the pictures directory in `user-dirs.dirs`.
pub open spec fn pictures_prefix() -> Seq<char> {
    seq![
        'X',
        'D',
        'G',
        '_',
        'P',
        'I',
        'C',
        'T',
        'U',
        'R',
        'E',
        'S',
        '_',
        'D',
        'I',
        'R',
        '=',
    ]
}

/// What one line of `user-dirs.dirs` contributes: nothing for blank or
/// comment lines or other keys; for the pictures key, the value with
/// surrounding double quotes, then single quotes, trimmed and `$HOME`
/// expanded.
pub open spec fn line_pictures_value(line: Seq<char>, home: Option<String>) -> Option<Seq<char>> {
    let t = trimmed(line);
    if t.len() == 0 || t[0] == '#' {
        None
    } else if starts_with(t, pictures_prefix()) {
        let v = trim_char(trim_char(t.subrange(17, t.len() as int), '"'), '\'');
        Some(expand_home_spec(v, home))
    } else {
        None
    }
}

/// The pictures directory a `user-dirs.dirs` file names: the first line
/// that carries the pictures key decides.
pub open spec fn pictures_from_lines_spec(lines: Seq<String>, home: Option<String>) -> Option<
    Seq<char>,
>
    decreases lines.len(),
{
    if lines.len() == 0 {
        None
    } else {
        match line_pictures_value(lines[0]@, home) {
            Some(v) => Some(v),
            None => pictures_from_lines_spec(lines.drop_first(), home),
        }
    }
}

proof fn lemma_trimmed_range(s: Seq<char>, lo: int, hi: int)
    requires
        0 <= lo < hi <= s.len(),
        forall|m: int| 0 <= m < lo ==> is_space_char(#[trigger] s[m]),
        forall|m: int| hi <= m < s.len() ==> is_space_char(#[trigger] s[m]),
        !is_space_char(s[lo]),
        !is_space_char(s[hi - 1]),
    ensures
        trimmed(s) == s.subrange(lo, hi),
    decreases s.len(),
{
    if is_space_char(s.first()) {
        lemma_trimmed_range(s.drop_first(), lo - 1, hi - 1);
        assert(s.drop_first().subrange(lo - 1, hi - 1) =~= s.subrange(lo, hi));
    } else if is_space_char(s.last()) {
        lemma_trimmed_range(s.drop_last(), lo, hi);
        assert(s.drop_last().subrange(lo, hi) =~= s.subrange(lo, hi));
    } else {
        assert(lo == 0 && hi == s.len());
        assert(s.subrange(lo, hi) =~= s);
    }
}

/// A text of whitespace alone trims to nothing.
proof fn lemma_trimmed_all(s: Seq<char>)
    requires
        forall|m: int| 0 <= m < s.len() ==> is_space_char(#[trigger] s[m]),
    ensures
        trimmed(s) == Seq::<char>::empty(),
    decreases s.len(),
{
    if s.len() > 0 {
        lemma_trimmed_all(s.drop_first());
    } else {
        assert(trimmed(s) =~= Seq::<char>::empty());
    }
}

proof fn lemma_trim_char_range(s: Seq<char>, c: char, lo: int, hi: int)
    requires
        0 <= lo < hi <= s.len(),
        forall|m: int| 0 <= m < lo ==> #[trigger] s[m] == c,
        forall|m: int| hi <= m < s.len() ==> #[trigger] s[m] == c,
        s[lo] != c,
        s[hi - 1] != c,
    ensures
        trim_char(s, c) == s.subrange(lo, hi),
    decreases s.len(),
{
    if s.first() == c {
        lemma_trim_char_range(s.drop_first(), c, lo - 1, hi - 1);
        assert(s.drop_first().subrange(lo - 1, hi - 1) =~= s.subrange(lo, hi));
    } else if s.last() == c {
        lemma_trim_char_range(s.drop_last(), c, lo, hi);
        assert(s.drop_last().subrange(lo, hi) =~= s.subrange(lo, hi));
    } else {
        assert(lo == 0 && hi == s.len());
        assert(s.subrange(lo, hi) =~= s);
    }
}

/// A text of one repeated character trims to nothing.
proof fn lemma_trim_char_all(s: Seq<char>, c: char)
    requires
        forall|m: int| 0 <= m < s.len() ==> #[trigger] s[m] == c,
    ensures
        trim_char(s, c) == Seq::<char>::empty(),
    decreases s.len(),
{
    if s.len() > 0 {
        lemma_trim_char_all(s.drop_first(), c);
    } else {
        assert(trim_char(s, c) =~= Seq::<char>::empty());
    }
}

fn is_space_exec(c: char) -> (r: bool)
    ensures
        r == is_space_char(c),
{
    c == ' ' || c == '\t' || c == '\r' || c == '\n'
}

/// Whether `s[i..]` starts with `$HOME`.
fn starts_with_home(s: &str, i: usize, n: usize) -> (r: bool)
    requires
        i <= n == s@.len(),
    ensures
        r == starts_with(s@.subrange(i as int, n as int), home_pattern()),
{
    let ghost suffix = s@.subrange(i as int, n as int);
    if n - i < 5 {
        return false;
    }
    let r = s.get_char(i) == '$' && s.get_char(i + 1) == 'H' && s.get_char(i + 2) == 'O'
        && s.get_char(i + 3) == 'M' && s.get_char(i + 4) == 'E';
    proof {
        if r {
            assert(suffix.subrange(0, 5) =~= home_pattern());
        } else {
            assert(suffix.subrange(0, 5) != home_pattern());
        }
    }
    r
}

/// Replace `$HOME` by the home directory throughout the path.
fn expand_all(path: &str, home: &String) -> (r: String)
    ensures
        r@ == home_expanded(path@, home@),
{
    let n = path.unicode_len();
    let mut out = String::new();
    proof {
        assert(path@.subrange(0, n as int) =~= path@);
        assert(Seq::<char>::empty() + home_expanded(path@, home@) =~= home_expanded(path@, home@));
    }
    let mut i: usize = 0;
    while i < n
        invariant
            i <= n == path@.len(),
            out@ + home_expanded(path@.subrange(i as int, n as int), home@) == home_expanded(
                path@,
                home@,
            ),
        decreases n - i,
    {
        let ghost rest = path@.subrange(i as int, n as int);
        if starts_with_home(path, i, n) {
            out.append(home.as_str());
            proof {
                assert(rest.subrange(5, rest.len() as int) =~= path@.subrange(i + 5, n as int));
            }
            i += 5;
        } else {
            out.append(path.substring_char(i, i + 1));
            proof {
                assert(path@.subrange(i as int, i + 1) =~= seq![rest[0]]);
                assert(rest.drop_first() =~= path@.subrange(i + 1, n as int));
            }
            i += 1;
        }
    }
    proof {
        assert(path@.subrange(n as int, n as int) =~= Seq::<char>::empty());
        assert(out@ + Seq::<char>::empty() =~= out@);
    }
    out
}

/// Expand `$HOME` in a path: applied only when the path starts with the
/// pattern and a home directory is known.
pub fn expand_home_dir(path: &str, home: &Option<String>) -> (r: String)
    ensures
        r@ == expand_home_spec(path@, *home),
{
    let n = path.unicode_len();
    proof {
        assert(path@.subrange(0, n as int) =~= path@);
    }
    match home {
        None => String::from_str(path),
        Some(h) => {
            if starts_with_home(path, 0, n) {
                expand_all(path, h)
            } else {
                String::from_str(path)
            }
        },
    }
}

/// One line's contribution, executable side.
fn line_value(line: &String, home: &Option<String>) -> (r: Option<String>)
    ensures
        match line_pictures_value(line@, *home) {
            Some(v) => r matches Some(p) && p@ == v,
            None => r is None,
        },
{
    let st = line.as_str();
    let n = st.unicode_len();
    let mut lo: usize = 0;
    while lo < n && is_space_exec(st.get_char(lo))
        invariant
            lo <= n == st@.len(),
            forall|m: int| 0 <= m < lo ==> is_space_char(#[trigger] st@[m]),
        decreases n - lo,
    {
        lo += 1;
    }
    let mut hi: usize = n;
    while hi > lo && is_space_exec(st.get_char(hi - 1))
        invariant
            lo <= hi <= n == st@.len(),
            forall|m: int| 0 <= m < lo ==> is_space_char(#[trigger] st@[m]),
            forall|m: int| hi <= m < n ==> is_space_char(#[trigger] st@[m]),
        decreases hi,
    {
        hi -= 1;
    }
    let ghost t = trimmed(line@);
    proof {
        if lo == hi {
            lemma_trimmed_all(st@);
            assert(t =~= st@.subrange(lo as int, hi as int));
        } else {
            lemma_trimmed_range(st@, lo as int, hi as int);
        }
        assert(t == st@.subrange(lo as int, hi as int));
    }
    if lo == hi {
        return None;
    }
    if st.get_char(lo) == '#' {
        return None;
    }
    if hi - lo < 17 {
        proof {
            assert(!starts_with(t, pictures_prefix()));
        }
        return None;
    }
    let m = st.get_char(lo) == 'X' && st.get_char(lo + 1) == 'D' && st.get_char(lo + 2) == 'G'
        && st.get_char(lo + 3) == '_' && st.get_char(lo + 4) == 'P' && st.get_char(lo + 5) == 'I'
        && st.get_char(lo + 6) == 'C' && st.get_char(lo + 7) == 'T' && st.get_char(lo + 8) == 'U'
        && st.get_char(lo + 9) == 'R' && st.get_char(lo + 10) == 'E' && st.get_char(lo + 11) == 'S'
        && st.get_char(lo + 12) == '_' && st.get_char(lo + 13) == 'D' && st.get_char(lo + 14)
        == 'I' && st.get_char(lo + 15) == 'R' && st.get_char(lo + 16) == '=';
    if !m {
        proof {
            assert(t.subrange(0, 17) != pictures_prefix());
        }
        return None;
    }
    proof {
        assert(t.subrange(0, 17) =~= pictures_prefix());
    }
    let ghost raw = t.subrange(17, t.len() as int);
    proof {
        assert(raw =~= st@.subrange(lo + 17, hi as int));
    }
    let mut vlo: usize = lo + 17;
    let mut vhi: usize = hi;
    while vlo < vhi && st.get_char(vlo) == '"'
        invariant
            lo + 17 <= vlo <= vhi <= hi <= n == st@.len(),
            forall|m2: int| lo + 17 <= m2 < vlo ==> st@[m2] == '"',
        decreases vhi - vlo,
    {
        vlo += 1;
    }
    while vhi > vlo && st.get_char(vhi - 1) == '"'
        invariant
            lo + 17 <= vlo <= vhi <= hi <= n == st@.len(),
            forall|m2: int| lo + 17 <= m2 < vlo ==> st@[m2] == '"',
            forall|m2: int| vhi <= m2 < hi ==> st@[m2] == '"',
        decreases vhi,
    {
        vhi -= 1;
    }
    let ghost unq = trim_char(raw, '"');
    proof {
        if vlo == vhi {
            lemma_trim_char_all(raw, '"');
            assert(unq =~= st@.subrange(vlo as int, vhi as int));
        } else {
            lemma_trim_char_range(raw, '"', vlo - lo - 17, vhi - lo - 17);
            assert(raw.subrange(vlo - lo - 17, vhi - lo - 17) =~= st@.subrange(
                vlo as int,
                vhi as int,
            ));
        }
        assert(unq == st@.subrange(vlo as int, vhi as int));
    }
    let ghost base = vlo;
    let mut wlo: usize = vlo;
    let mut whi: usize = vhi;
    while wlo < whi && st.get_char(wlo) == '\''
        invariant
            base <= wlo <= whi <= vhi <= n == st@.len(),
            vlo == base,
            forall|m2: int| base <= m2 < wlo ==> st@[m2] == '\'',
        decreases whi - wlo,
    {
        wlo += 1;
    }
    while whi > wlo && st.get_char(whi - 1) == '\''
        invariant
            base <= wlo <= whi <= vhi <= n == st@.len(),
            vlo == base,
            forall|m2: int| base <= m2 < wlo ==> st@[m2] == '\'',
            forall|m2: int| whi <= m2 < vhi ==> st@[m2] == '\'',
        decreases whi,
    {
        whi -= 1;
    }
    let ghost v = trim_char(unq, '\'');
    proof {
        if wlo == whi {
            lemma_trim_char_all(unq, '\'');
            assert(v =~= st@.subrange(wlo as int, whi as int));
        } else {
            lemma_trim_char_range(unq, '\'', wlo - vlo, whi - vlo);
            assert(unq.subrange(wlo - vlo, whi - vlo) =~= st@.subrange(wlo as int, whi as int));
        }
        assert(v == st@.subrange(wlo as int, whi as int));
    }
    let value = st.substring_char(wlo, whi);
    Some(expand_home_dir(value, home))
}

/// The pictures directory named by the lines of a `user-dirs.dirs`
/// file, if any: the first line with the pictures key decides; quotes
/// are trimmed and `$HOME` expanded.
pub fn pictures_dir_from_lines(lines: &Vec<String>, home: &Option<String>) -> (r: Option<String>)
    ensures
        match pictures_from_lines_spec(lines@, *home) {
            Some(v) => r matches Some(p) && p@ == v,
            None => r is None,
        },
{
    proof {
        assert(lines@.skip(0) =~= lines@);
    }
    let mut j: usize = 0;
    while j < lines.len()
        invariant
            j <= lines@.len(),
            pictures_from_lines_spec(lines@, *home) == pictures_from_lines_spec(
                lines@.skip(j as int),
                *home,
            ),
        decreases lines@.len() - j,
    {
        let ghost rest = lines@.skip(j as int);
        proof {
            assert(rest[0] == lines@[j as int]);
        }
        match line_value(&lines[j], home) {
            Some(p) => {
                return Some(p);
            },
            None => {
                proof {
                    assert(rest.drop_first() =~= lines@.skip(j + 1));
                }
                j += 1;
            },
        }
    }
    proof {
        assert(lines@.skip(lines@.len() as int) =~= Seq::<String>::empty());
    }
    None
}

} // verus!
