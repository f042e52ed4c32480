use vstd::prelude::*;
use vstd::string::*;

verus! {

/// Whether `c` has the Unicode `White_Space` property, the set of characters
/// that `char::is_whitespace` and `str::split_whitespace` treat as separators.
pub open spec fn is_white_space(c: char) -> bool {
    ('\u{9}' <= c && c <= '\u{d}') || c == ' ' || c == '\u{85}' || c == '\u{a0}'
        || c == '\u{1680}' || ('\u{2000}' <= c && c <= '\u{200a}') || c == '\u{2028}'
        || c == '\u{2029}' || c == '\u{202f}' || c == '\u{205f}' || c == '\u{3000}'
}

/// Executable form of `is_white_space`.
pub fn is_white_space_char(c: char) -> (r: bool)
    ensures
        r == is_white_space(c),
{
    ('\u{9}' <= c && c <= '\u{d}') || c == ' ' || c == '\u{85}' || c == '\u{a0}'
        || c == '\u{1680}' || ('\u{2000}' <= c && c <= '\u{200a}') || c == '\u{2028}'
        || c == '\u{2029}' || c == '\u{202f}' || c == '\u{205f}' || c == '\u{3000}'
}

/// The index of the first character at or after `i` that is not white space
/// (the length of `s` when there is none).
pub open spec fn skip_white(s: Seq<char>, i: int) -> int
    decreases s.len() - i,
{
    if 0 <= i < s.len() && is_white_space(s[i]) {
        skip_white(s, i + 1)
    } else {
        i
    }
}

/// The index of the first white-space character at or after `i` (the length of
/// `s` when there is none).
pub open spec fn skip_word(s: Seq<char>, i: int) -> int
    decreases s.len() - i,
{
    if 0 <= i < s.len() && !is_white_space(s[i]) {
        skip_word(s, i + 1)
    } else {
        i
    }
}

/// The first maximal run of non-white-space characters of `s`, empty when `s`
/// holds nothing but white space.
pub open spec fn first_token(s: Seq<char>) -> Seq<char> {
    s.subrange(skip_white(s, 0), skip_word(s, skip_white(s, 0)))
}

/// The start of the last `/`-separated segment of `s[..j]`: just past the last
/// `/` before `j`, or 0 when there is none.
pub open spec fn segment_start(s: Seq<char>, j: int) -> int
    decreases j,
{
    if 0 < j <= s.len() && s[j - 1] != '/' {
        segment_start(s, j - 1)
    } else {
        j
    }
}

/// The final `/`-separated segment of `s` (all of `s` when it holds no `/`).
pub open spec fn last_segment(s: Seq<char>) -> Seq<char> {
    s.subrange(segment_start(s, s.len() as int), s.len() as int)
}

/// Whether `s` ends in `t`.
pub open spec fn ends_with(s: Seq<char>, t: Seq<char>) -> bool {
    s.len() >= t.len() && s.subrange(s.len() - t.len(), s.len() as int) == t
}

/// Isolates the executable from the rest of a command: the first
/// whitespace-separated token of `cmd`, or the empty string when `cmd` is empty
/// or holds only white space.
pub fn isolate_exec(cmd: String) -> (r: String)
    ensures
        r@ == first_token(cmd@),
{
    let s = cmd.as_str();
    let n = s.unicode_len();
    let mut i: usize = 0;
    while i < n && is_white_space_char(s.get_char(i))
        invariant
            n == s@.len(),
            s@ == cmd@,
            i <= n,
            skip_white(s@, i as int) == skip_white(s@, 0),
        decreases n - i,
    {
        i = i + 1;
    }
    let start = i;
    assert(skip_white(s@, 0) == start);
    while i < n && !is_white_space_char(s.get_char(i))
        invariant
            n == s@.len(),
            start <= i <= n,
            skip_word(s@, i as int) == skip_word(s@, start as int),
        decreases n - i,
    {
        i = i + 1;
    }
    assert(skip_word(s@, start as int) == i);
    String::from_str(s.substring_char(start, i))
}

/// Takes a path to a command, such as `/usr/bin/ls`, and returns the name of
/// the command without its directory: the first token of the text after the
/// last `/`.
pub fn omit_dir_from_cmd(cmd: String) -> (r: String)
    ensures
        r@ == first_token(last_segment(cmd@)),
{
    let s = cmd.as_str();
    let n = s.unicode_len();
    let mut j: usize = n;
    while j > 0 && s.get_char(j - 1) != '/'
        invariant
            n == s@.len(),
            s@ == cmd@,
            j <= n,
            segment_start(s@, j as int) == segment_start(s@, n as int),
        decreases j,
    {
        j = j - 1;
    }
    assert(segment_start(s@, n as int) == j);
    isolate_exec(String::from_str(s.substring_char(j, n)))
}

/// The commands of launchers that start other programs, or of system
/// settings panels: entries that run them are not offered for removal.
pub open spec fn blacklisted_execs() -> Seq<Seq<char>> {
    seq![
        "flatpak"@,
        "xdg-open"@,
        "systemsettings"@,
        "cinnamon-settings"@,
        "gamemoderun"@,
        "gapplication"@,
        "java"@,
    ]
}

/// Whether the executable of the launch command `exec` is one of
/// `blacklisted_execs`, each compared by the name of its command.
pub open spec fn is_blacklisted_spec(exec: Seq<char>) -> bool {
    exists|k: int|
        0 <= k < blacklisted_execs().len() && first_token(last_segment(#[trigger] blacklisted_execs()[k]))
            == first_token(exec)
}

/// Whether an entry with the launch command `exec` is to be hidden from the
/// list of removable applications (see `is_blacklisted_spec`).
pub fn is_blacklisted(exec: &str) -> (r: bool)
    ensures
        r == is_blacklisted_spec(exec@),
{
    let names: [&str; 7] = [
        "flatpak",
        "xdg-open",
        "systemsettings",
        "cinnamon-settings",
        "gamemoderun",
        "gapplication",
        "java",
    ];
    assert(names@.map_values(|s: &str| s@) =~= blacklisted_execs());
    let token = isolate_exec(String::from_str(exec));
    let mut k: usize = 0;
    while k < 7
        invariant
            k <= 7,
            token@ == first_token(exec@),
            names@.map_values(|s: &str| s@) == blacklisted_execs(),
            forall|j: int|
                0 <= j < k ==> first_token(last_segment(#[trigger] blacklisted_execs()[j]))
                    != first_token(exec@),
        decreases 7 - k,
    {
        assert(names@.map_values(|s: &str| s@)[k as int] == names@[k as int]@);
        let name = omit_dir_from_cmd(String::from_str(names[k]));
        if name == token {
            return true;
        }
        k = k + 1;
    }
    false
}

} // verus!
