use vstd::prelude::*;
use vstd::string::*;

verus! {

/// `base` joined with `part` as `PathBuf::push` joins them on Unix: an absolute
/// `part` replaces `base`; otherwise a `/` is put between them unless `base` is
/// empty or already ends in one.
pub open spec fn path_join(base: Seq<char>, part: Seq<char>) -> Seq<char> {
    if part.len() > 0 && part[0] == '/' {
        part
    } else if base.len() > 0 && base.last() != '/' {
        base + seq!['/'] + part
    } else {
        base + part
    }
}

/// The system-wide directories under which an application may keep its data,
/// in the order in which they are searched.
pub open spec fn system_prefixes() -> Seq<Seq<char>> {
    seq![
        "/usr/local/share/"@,
        "/usr/local/"@,
        "/usr/share/"@,
        "/var/lib/"@,
        "/var/local"@,
        "/var/opt"@,
        "/lib"@,
        "/opt/"@,
        "/etc/"@,
    ]
}

/// The fragments that, put between the home directory and the application's
/// name, give the places where an application may keep per-user data: under
/// `~/.local/share`, as `~/.<app>`, under `~/.var` and under `~/.config`, in
/// the order in which they are searched.
pub open spec fn home_fragments() -> Seq<Seq<char>> {
    seq!["/.local/share/"@, "/."@, "/.var/"@, "/.config/"@]
}

/// Whether `name` can stand as one component of a path: it is not empty, holds
/// no `/`, and is neither `.` nor `..`. Joined to a directory, such a name
/// names an item inside that directory.
pub open spec fn is_plain_component(name: Seq<char>) -> bool {
    &&& name.len() > 0
    &&& forall|i: int| 0 <= i < name.len() ==> name[i] != '/'
    &&& name != seq!['.']
    &&& name != seq!['.', '.']
}

/// The system-wide candidate data paths for an application whose lowercased
/// name is `lower`: each system prefix joined with it. A name that is not a
/// plain path component has none, since joining it could reach outside the
/// prefixes.
pub open spec fn system_candidates(lower: Seq<char>) -> Seq<Seq<char>> {
    if is_plain_component(lower) {
        system_prefixes().map_values(|p: Seq<char>| path_join(p, lower))
    } else {
        Seq::empty()
    }
}

/// The home-relative candidate data paths for an application named `app`
/// (not lowercased) under the home directory `home`: the home directory, a
/// fragment and the name, one after the other. A name that is not a plain
/// path component has none.
pub open spec fn home_candidates(home: Seq<char>, app: Seq<char>) -> Seq<Seq<char>> {
    if is_plain_component(app) {
        home_fragments().map_values(|f: Seq<char>| home + f + app)
    } else {
        Seq::empty()
    }
}

/// Whether `path` names an item strictly inside the directory `dir`: it is
/// `dir`, then a `/` unless `dir` ends in one, then more.
pub open spec fn lies_under(path: Seq<char>, dir: Seq<char>) -> bool {
    &&& path.subrange(0, dir.len() as int) == dir
    &&& if dir.len() > 0 && dir.last() == '/' {
        path.len() > dir.len()
    } else {
        path.len() > dir.len() + 1 && path[dir.len() as int] == '/'
    }
}

/// The items of `c` whose position is marked `true` in `present`, in order; a
/// position past the end of `present` counts as unmarked.
pub open spec fn kept(c: Seq<Seq<char>>, present: Seq<bool>) -> Seq<Seq<char>>
    decreases c.len(),
{
    if c.len() == 0 {
        seq![]
    } else {
        let rest = kept(c.drop_last(), present);
        if c.len() - 1 < present.len() && present[c.len() - 1] {
            rest.push(c.last())
        } else {
            rest
        }
    }
}

/// What `str::to_lowercase` returns for `s`.
pub uninterp spec fn lower_of(s: Seq<char>) -> Seq<char>;

/// Relies on `str::to_lowercase`: the Unicode lowercase mapping of each
/// character, which depends on the characters alone.
#[verifier::external_body]
pub(crate) fn lowercase(s: &str) -> (r: String)
    ensures
        r@ == lower_of(s@),
{
    s.to_lowercase()
}

/// Joins `part` onto `base` as a path (see `path_join`).
pub fn join_path(base: &str, part: &str) -> (r: String)
    ensures
        r@ == path_join(base@, part@),
{
    let m = part.unicode_len();
    if m > 0 && part.get_char(0) == '/' {
        return String::from_str(part);
    }
    let n = base.unicode_len();
    let mut r = String::from_str(base);
    if n > 0 && base.get_char(n - 1) != '/' {
        proof {
            reveal_strlit("/");
        }
        r.append("/");
    }
    r.append(part);
    r
}

/// Every path of `prefixes` joined with `name`, in order.
fn join_each(prefixes: &[&str], name: &str) -> (r: Vec<String>)
    ensures
        r.deep_view() == prefixes@.map_values(|p: &str| path_join(p@, name@)),
{
    let mut r: Vec<String> = Vec::new();
    let mut k: usize = 0;
    while k < prefixes.len()
        invariant
            k <= prefixes@.len(),
            r.deep_view() == prefixes@.subrange(0, k as int).map_values(
                |p: &str| path_join(p@, name@),
            ),
        decreases prefixes@.len() - k,
    {
        let ghost before = r.deep_view();
        r.push(join_path(prefixes[k], name));
        proof {
            assert(r.deep_view() =~= before.push(path_join(prefixes@[k as int]@, name@)));
            assert(prefixes@.subrange(0, k + 1).map_values(|p: &str| path_join(p@, name@))
                =~= prefixes@.subrange(0, k as int).map_values(|p: &str| path_join(p@, name@)).push(
                path_join(prefixes@[k as int]@, name@),
            ));
        }
        k = k + 1;
    }
    assert(prefixes@.subrange(0, k as int) =~= prefixes@);
    r
}

/// Whether `name` is a plain path component (see `is_plain_component`).
pub fn plain_component(name: &str) -> (r: bool)
    ensures
        r == is_plain_component(name@),
{
    let n = name.unicode_len();
    if n == 0 {
        return false;
    }
    let mut k: usize = 0;
    while k < n
        invariant
            k <= n,
            n == name@.len(),
            forall|i: int| 0 <= i < k ==> name@[i] != '/',
        decreases n - k,
    {
        if name.get_char(k) == '/' {
            return false;
        }
        k = k + 1;
    }
    if n == 1 && name.get_char(0) == '.' {
        assert(name@ =~= seq!['.']);
        return false;
    }
    if n == 2 && name.get_char(0) == '.' && name.get_char(1) == '.' {
        assert(name@ =~= seq!['.', '.']);
        return false;
    }
    true
}

/// The system-wide candidate data paths for an application whose lowercased
/// name is `lower` (see `system_candidates`).
pub fn system_candidates_of(lower: &str) -> (r: Vec<String>)
    ensures
        r.deep_view() == system_candidates(lower@),
{
    if !plain_component(lower) {
        return Vec::new();
    }
    let prefixes: [&str; 9] = [
        "/usr/local/share/",
        "/usr/local/",
        "/usr/share/",
        "/var/lib/",
        "/var/local",
        "/var/opt",
        "/lib",
        "/opt/",
        "/etc/",
    ];
    let r = join_each(prefixes.as_slice(), lower);
    assert(prefixes@.map_values(|p: &str| p@) =~= system_prefixes());
    assert(r.deep_view() =~= system_candidates(lower@));
    r
}

/// The system-wide candidate data paths for an application named `app`: each
/// system prefix joined with the lowercased name.
pub fn system_candidate_paths(app: &str) -> (r: Vec<String>)
    ensures
        r.deep_view() == system_candidates(lower_of(app@)),
{
    let lower = lowercase(app);
    system_candidates_of(lower.as_str())
}

/// The home-relative candidate data paths for an application named `app` under
/// the home directory `home`; the name is used as it is. Each lies inside
/// `home`.
pub fn home_candidate_paths(home: &str, app: &str) -> (r: Vec<String>)
    ensures
        r.deep_view() == home_candidates(home@, app@),
        forall|i: int| 0 <= i < r@.len() ==> lies_under(#[trigger] r@[i]@, home@),
{
    proof {
        lemma_candidates_stay_inside(home@, app@, app@);
    }
    if !plain_component(app) {
        return Vec::new();
    }
    let fragments: [&str; 4] = ["/.local/share/", "/.", "/.var/", "/.config/"];
    let mut r: Vec<String> = Vec::new();
    let mut k: usize = 0;
    while k < 4
        invariant
            k <= 4,
            is_plain_component(app@),
            fragments@.map_values(|f: &str| f@) == home_fragments(),
            r.deep_view() == home_candidates(home@, app@).subrange(0, k as int),
        decreases 4 - k,
    {
        let mut path = String::from_str(home);
        path.append(fragments[k]);
        path.append(app);
        let ghost before = r.deep_view();
        r.push(path);
        proof {
            assert(fragments@.map_values(|f: &str| f@)[k as int] == fragments@[k as int]@);
            assert(r.deep_view() =~= before.push(home@ + home_fragments()[k as int] + app@));
        }
        assert(r.deep_view() =~= home_candidates(home@, app@).subrange(0, k + 1));
        k = k + 1;
    }
    assert(r.deep_view() =~= home_candidates(home@, app@));
    assert forall|i: int| 0 <= i < r@.len() implies lies_under(#[trigger] r@[i]@, home@) by {
        assert(r@[i]@ == r.deep_view()[i]);
    }
    r
}

/// The paths of `c` whose position is marked `true` in `present`, in order.
pub fn keep_present(c: &Vec<String>, present: &Vec<bool>) -> (r: Vec<String>)
    ensures
        r.deep_view() == kept(c.deep_view(), present@),
{
    let mut r: Vec<String> = Vec::new();
    let mut k: usize = 0;
    while k < c.len()
        invariant
            k <= c@.len(),
            r.deep_view() == kept(c.deep_view().subrange(0, k as int), present@),
        decreases c@.len() - k,
    {
        let ghost before = r.deep_view();
        let ghost pre = c.deep_view().subrange(0, k + 1);
        assert(pre.drop_last() =~= c.deep_view().subrange(0, k as int));
        if k < present.len() && present[k] {
            r.push(c[k].clone());
            assert(r.deep_view() =~= before.push(c.deep_view()[k as int]));
        }
        k = k + 1;
    }
    assert(c.deep_view().subrange(0, k as int) =~= c.deep_view());
    r
}

/// The system-wide search folds case: two application names with the same
/// lowercase form have the same system-wide candidates, so on one snapshot of
/// the filesystem (`present`) the same of them are found.
pub proof fn lemma_system_search_folds_case(a: Seq<char>, b: Seq<char>, present: Seq<bool>)
    requires
        lower_of(a) == lower_of(b),
    ensures
        system_candidates(lower_of(a)) == system_candidates(lower_of(b)),
        kept(system_candidates(lower_of(a)), present) == kept(system_candidates(lower_of(b)), present),
{
}

/// The candidates stay inside the directories searched: each system-wide
/// candidate lies under its system prefix, and each home-relative one under
/// the home directory, whatever the application's name.
pub proof fn lemma_candidates_stay_inside(home: Seq<char>, app: Seq<char>, lower: Seq<char>)
    ensures
        forall|i: int|
            0 <= i < system_candidates(lower).len() ==> lies_under(
                #[trigger] system_candidates(lower)[i],
                system_prefixes()[i],
            ),
        forall|i: int|
            0 <= i < home_candidates(home, app).len() ==> lies_under(
                #[trigger] home_candidates(home, app)[i],
                home,
            ),
{
    reveal_strlit("/usr/local/share/");
    reveal_strlit("/usr/local/");
    reveal_strlit("/usr/share/");
    reveal_strlit("/var/lib/");
    reveal_strlit("/var/local");
    reveal_strlit("/var/opt");
    reveal_strlit("/lib");
    reveal_strlit("/opt/");
    reveal_strlit("/etc/");
    reveal_strlit("/.local/share/");
    reveal_strlit("/.");
    reveal_strlit("/.var/");
    reveal_strlit("/.config/");
    if is_plain_component(lower) {
        assert forall|i: int| 0 <= i < system_candidates(lower).len() implies lies_under(
            #[trigger] system_candidates(lower)[i],
            system_prefixes()[i],
        ) by {
            let p = system_prefixes()[i];
            let c = system_candidates(lower)[i];
            assert(c == path_join(p, lower));
            assert(p.len() > 0);
            if p.last() != '/' {
                assert(c =~= p + seq!['/'] + lower);
                assert(c.subrange(0, p.len() as int) =~= p);
            } else {
                assert(c =~= p + lower);
                assert(c.subrange(0, p.len() as int) =~= p);
            }
        }
    }
    if is_plain_component(app) {
        assert forall|i: int| 0 <= i < home_candidates(home, app).len() implies lies_under(
            #[trigger] home_candidates(home, app)[i],
            home,
        ) by {
            let f = home_fragments()[i];
            let c = home_candidates(home, app)[i];
            assert(c == home + f + app);
            assert(f[0] == '/');
            assert(c.subrange(0, home.len() as int) =~= home);
            assert(c[home.len() as int] == f[0]);
        }
    }
}

} // verus!
