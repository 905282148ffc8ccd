use vstd::prelude::*;

verus! {

/// `c` with an ASCII lower-case letter turned into upper case, as
/// `char::to_ascii_uppercase` does.
pub open spec fn ascii_upper(c: char) -> char {
    if 'a' <= c && c <= 'z' {
        ((c as int) - 32) as char
    } else {
        c
    }
}

/// `s` with its ASCII letters in upper case, as `str::to_ascii_uppercase`
/// gives it.
pub open spec fn ascii_upper_seq(s: Seq<char>) -> Seq<char> {
    s.map_values(|c: char| ascii_upper(c))
}

/// `p` stands in `s` from position `i` on.
pub open spec fn occurs_at(p: Seq<char>, s: Seq<char>, i: int) -> bool {
    0 <= i && i + p.len() <= s.len() && s.subrange(i, i + p.len()) == p
}

/// `p` occurs in `s` as a run of consecutive characters.
pub open spec fn occurs_in(p: Seq<char>, s: Seq<char>) -> bool {
    exists|i: int| #[trigger] occurs_at(p, s, i)
}

/// A desktop name denotes KDE Plasma when, in upper case, it holds "KDE"
/// or "PLASMA".
pub open spec fn names_kde(value: Seq<char>) -> bool {
    occurs_in("KDE"@, ascii_upper_seq(value)) || occurs_in("PLASMA"@, ascii_upper_seq(value))
}

/// The environment variables that name the running desktop, in the order in
/// which they are read.
pub open spec fn desktop_variables() -> Seq<Seq<char>> {
    seq!["XDG_CURRENT_DESKTOP"@, "XDG_SESSION_DESKTOP"@, "DESKTOP_SESSION"@]
}

/// The environment variables that name the running desktop.
pub fn desktop_variable_names() -> (v: Vec<&'static str>)
    ensures
        v@.map_values(|s: &'static str| s@) == desktop_variables(),
{
    let mut v: Vec<&'static str> = Vec::new();
    v.push("XDG_CURRENT_DESKTOP");
    v.push("XDG_SESSION_DESKTOP");
    v.push("DESKTOP_SESSION");
    assert(v@.map_values(|s: &'static str| s@) =~= desktop_variables());
    v
}

fn upper_char(c: char) -> (u: char)
    ensures
        u == ascii_upper(c),
{
    if 'a' <= c && c <= 'z' {
        let b: u8 = (c as u8) - 32;
        b as char
    } else {
        c
    }
}

/// Whether `p` stands at position `i` of `s` once `s` is in upper case.
fn upper_matches_at(s: &str, p: &str, i: usize) -> (r: bool)
    requires
        i + p@.len() <= s@.len(),
        s@.len() <= usize::MAX,
    ensures
        r == (ascii_upper_seq(s@).subrange(i as int, i + p@.len()) == p@),
{
    let m = p.unicode_len();
    let mut j: usize = 0;
    while j < m
        invariant
            m == p@.len(),
            i + m <= s@.len(),
            s@.len() <= usize::MAX,
            j <= m,
            forall|k: int| 0 <= k < j ==> ascii_upper(s@[i + k]) == p@[k],
        decreases m - j,
    {
        if upper_char(s.get_char(i + j)) != p.get_char(j) {
            assert(ascii_upper_seq(s@).subrange(i as int, i + p@.len())[j as int] != p@[j as int]);
            return false;
        }
        j = j + 1;
    }
    assert(ascii_upper_seq(s@).subrange(i as int, i + p@.len()) =~= p@);
    true
}

/// Whether `p` occurs in `s` once `s` is in upper case.
fn occurs_in_upper(p: &str, s: &str) -> (r: bool)
    ensures
        r == occurs_in(p@, ascii_upper_seq(s@)),
{
    let n = s.unicode_len();
    let m = p.unicode_len();
    if m > n {
        return false;
    }
    let last = n - m;
    let mut i: usize = 0;
    loop
        invariant
            n == s@.len(),
            m == p@.len(),
            last == n - m,
            i <= last,
            forall|k: int| 0 <= k < i ==> !#[trigger] occurs_at(p@, ascii_upper_seq(s@), k),
        decreases last - i,
    {
        if upper_matches_at(s, p, i) {
            assert(occurs_at(p@, ascii_upper_seq(s@), i as int));
            return true;
        }
        if i == last {
            return false;
        }
        i = i + 1;
    }
}

/// Whether one of the desktop names `values` denotes KDE Plasma.
pub fn is_kde_desktop(values: &Vec<String>) -> (r: bool)
    ensures
        r == exists|i: int| 0 <= i < values@.len() && names_kde(#[trigger] values@[i]@),
{
    let mut i: usize = 0;
    while i < values.len()
        invariant
            i <= values@.len(),
            forall|k: int| 0 <= k < i ==> !names_kde(#[trigger] values@[k]@),
        decreases values@.len() - i,
    {
        let v = values[i].as_str();
        if occurs_in_upper("KDE", v) || occurs_in_upper("PLASMA", v) {
            return true;
        }
        i = i + 1;
    }
    false
}

} // verus!
