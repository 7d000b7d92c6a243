//! Character-level helpers on strings, specified over `Seq<char>`.

use vstd::prelude::*;

verus! {

/// `s` without the leading `prefix`; `s` itself where it does not start with `prefix`.
pub open spec fn without_prefix(s: Seq<char>, prefix: Seq<char>) -> Seq<char> {
    if prefix.is_prefix_of(s) {
        s.skip(prefix.len() as int)
    } else {
        s
    }
}

/// `s` without the trailing `suffix`; `s` itself where it does not end with `suffix`.
pub open spec fn without_suffix(s: Seq<char>, suffix: Seq<char>) -> Seq<char> {
    if suffix.is_suffix_of(s) {
        s.take(s.len() - suffix.len())
    } else {
        s
    }
}

/// `s` with every leading `c` removed.
pub open spec fn trim_start(s: Seq<char>, c: char) -> Seq<char>
    decreases s.len(),
{
    if s.len() > 0 && s.first() == c {
        trim_start(s.drop_first(), c)
    } else {
        s
    }
}

/// `s` with every trailing `c` removed.
pub open spec fn trim_end(s: Seq<char>, c: char) -> Seq<char>
    decreases s.len(),
{
    if s.len() > 0 && s.last() == c {
        trim_end(s.drop_last(), c)
    } else {
        s
    }
}

/// `s` with every leading and every trailing `c` removed.
pub open spec fn trimmed(s: Seq<char>, c: char) -> Seq<char> {
    trim_end(trim_start(s, c), c)
}

/// `a`, a slash, then `b`.
pub open spec fn slash_joined(a: Seq<char>, b: Seq<char>) -> Seq<char> {
    a + seq!['/'] + b
}

/// A character that no file name may hold: a path separator or NUL.
pub open spec fn is_forbidden_char(c: char) -> bool {
    c == '/' || c == '\\' || c == '\0'
}

/// Whether `name` names a file directly inside a directory: it is not empty,
/// holds no path separator and no NUL, and is neither `.` nor `..`.
pub open spec fn safe_file_name(name: Seq<char>) -> bool {
    &&& name.len() > 0
    &&& forall|i: int| 0 <= i < name.len() ==> !is_forbidden_char(#[trigger] name[i])
    &&& name != seq!['.']
    &&& name != seq!['.', '.']
}

/// The characters of `s`, in order.
pub fn to_chars(s: &str) -> (cs: Vec<char>)
    ensures
        cs@ == s@,
{
    let mut cs: Vec<char> = Vec::new();
    for c in it: s.chars()
        invariant
            cs@ == it.history(),
    {
        cs.push(c);
    }
    cs
}

/// Whether `part` stands in `whole` at offset `at`.
fn occurs_at(whole: &Vec<char>, part: &Vec<char>, at: usize) -> (found: bool)
    requires
        at + part@.len() <= whole@.len(),
    ensures
        found == (whole@.subrange(at as int, at + part@.len()) == part@),
{
    let mut i: usize = 0;
    while i < part.len()
        invariant
            i <= part.len(),
            at + part.len() <= whole.len(),
            forall|k: int| 0 <= k < i ==> whole@[at + k] == part@[k],
        decreases part@.len() - i,
    {
        if whole[at + i] != part[i] {
            assert(whole@.subrange(at as int, at + part@.len())[i as int] != part@[i as int]);
            return false;
        }
        i += 1;
    }
    assert(whole@.subrange(at as int, at + part@.len()) =~= part@);
    true
}

/// Removes `prefix` from the front of `s`, once, where `s` starts with it.
pub fn strip_prefix<'a>(s: &'a str, prefix: &str) -> (rest: &'a str)
    ensures
        rest@ == without_prefix(s@, prefix@),
{
    let whole = to_chars(s);
    let part = to_chars(prefix);
    if part.len() <= whole.len() && occurs_at(&whole, &part, 0) {
        s.substring_char(part.len(), whole.len())
    } else {
        s
    }
}

/// Removes `suffix` from the end of `s`, once, where `s` ends with it.
pub fn strip_suffix<'a>(s: &'a str, suffix: &str) -> (rest: &'a str)
    ensures
        rest@ == without_suffix(s@, suffix@),
{
    let whole = to_chars(s);
    let part = to_chars(suffix);
    if part.len() <= whole.len() && occurs_at(&whole, &part, whole.len() - part.len()) {
        s.substring_char(0, whole.len() - part.len())
    } else {
        s
    }
}

/// Peeling `n` leading `c`s off `s` does not change what `trim_start` gives.
proof fn lemma_trim_start_skip(s: Seq<char>, c: char, n: int)
    requires
        0 <= n <= s.len(),
        forall|k: int| 0 <= k < n ==> s[k] == c,
    ensures
        trim_start(s, c) == trim_start(s.skip(n), c),
    decreases n,
{
    if n == 0 {
        assert(s.skip(0) =~= s);
    } else {
        assert(s.drop_first().skip(n - 1) =~= s.skip(n));
        lemma_trim_start_skip(s.drop_first(), c, n - 1);
    }
}

/// Peeling trailing `c`s off `s` down to length `n` does not change what `trim_end` gives.
proof fn lemma_trim_end_take(s: Seq<char>, c: char, n: int)
    requires
        0 <= n <= s.len(),
        forall|k: int| n <= k < s.len() ==> s[k] == c,
    ensures
        trim_end(s, c) == trim_end(s.take(n), c),
    decreases s.len() - n,
{
    if n == s.len() {
        assert(s.take(n) =~= s);
    } else {
        assert(s.drop_last().take(n) =~= s.take(n));
        lemma_trim_end_take(s.drop_last(), c, n);
    }
}

/// Removes every leading and every trailing `c` from `s`.
pub fn trim_char<'a>(s: &'a str, c: char) -> (rest: &'a str)
    ensures
        rest@ == trimmed(s@, c),
{
    let cs = to_chars(s);
    let mut from: usize = 0;
    while from < cs.len() && cs[from] == c
        invariant
            from <= cs@.len(),
            forall|k: int| 0 <= k < from ==> cs@[k] == c,
        decreases cs@.len() - from,
    {
        from += 1;
    }
    let mut to: usize = cs.len();
    while to > from && cs[to - 1] == c
        invariant
            from <= to <= cs@.len(),
            forall|k: int| to <= k < cs@.len() ==> cs@[k] == c,
        decreases to,
    {
        to -= 1;
    }
    proof {
        let tail = cs@.skip(from as int);
        lemma_trim_start_skip(cs@, c, from as int);
        assert(trim_start(cs@, c) == tail);
        lemma_trim_end_take(tail, c, to - from);
        assert(tail.take(to - from) =~= cs@.subrange(from as int, to as int));
    }
    s.substring_char(from, to)
}

/// Whether `name` can be used as the name of a file in the working directory.
pub fn is_safe_file_name(name: &str) -> (safe: bool)
    ensures
        safe == safe_file_name(name@),
{
    let cs = to_chars(name);
    if cs.len() == 0 {
        return false;
    }
    if cs.len() == 1 && cs[0] == '.' {
        assert(cs@ =~= seq!['.']);
        return false;
    }
    if cs.len() == 2 && cs[0] == '.' && cs[1] == '.' {
        assert(cs@ =~= seq!['.', '.']);
        return false;
    }
    let mut i: usize = 0;
    while i < cs.len()
        invariant
            i <= cs@.len(),
            cs@ == name@,
            forall|k: int| 0 <= k < i ==> !is_forbidden_char(#[trigger] cs@[k]),
        decreases cs@.len() - i,
    {
        let c = cs[i];
        if c == '/' || c == '\\' || c == '\0' {
            assert(is_forbidden_char(cs@[i as int]));
            return false;
        }
        i += 1;
    }
    assert(cs@ != seq!['.']) by {
        if cs@ == seq!['.'] {
            assert(seq!['.'].len() == 1);
            assert(seq!['.'][0] == '.');
        }
    }
    assert(cs@ != seq!['.', '.']) by {
        if cs@ == seq!['.', '.'] {
            assert(seq!['.', '.'].len() == 2);
            assert(seq!['.', '.'][0] == '.');
            assert(seq!['.', '.'][1] == '.');
        }
    }
    true
}

/// `a`, a slash, then `b`, as one new string.
pub fn join_with_slash(a: &str, b: &str) -> (joined: String)
    ensures
        joined@ == slash_joined(a@, b@),
{
    proof {
        reveal_strlit("/");
    }
    let mut joined = String::from_str(a);
    joined.append("/");
    joined.append(b);
    assert("/"@ =~= seq!['/']);
    joined
}

} // verus!
