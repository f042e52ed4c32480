use vstd::prelude::*;
use vstd::string::*;

verus! {

/// A launchable application, as one descriptor file describes it.
pub struct DesktopEntry {
    pub name: String,
    pub exec_command: String,
    pub description: String,
    pub icon_path: Option<String>,
    /// The descriptor file it was read from.
    pub full_path: String,
}

/// The fields of a descriptor file that the catalog reads.
pub(crate) struct DescriptorFields {
    pub name: Option<String>,
    pub command: Option<String>,
    pub icon: Option<String>,
    pub comment: Option<String>,
}

/// Whether `DesktopEntry::from_str` accepts `text` as the descriptor file at
/// `path`.
pub uninterp spec fn descriptor_decodes(path: Seq<char>, text: Seq<char>) -> bool;

/// What the `name` reader, localized to `locale`, gives for a descriptor
/// file whose contents are `text`.
pub uninterp spec fn descriptor_name(text: Seq<char>, locale: Seq<char>) -> Option<Seq<char>>;

/// What the `exec` reader gives for a descriptor file whose contents are
/// `text`.
pub uninterp spec fn descriptor_command(text: Seq<char>) -> Option<Seq<char>>;

/// What the `icon` reader gives for a descriptor file whose contents are
/// `text`.
pub uninterp spec fn descriptor_icon(text: Seq<char>) -> Option<Seq<char>>;

/// What the `comment` reader, localized to `locale`, gives for a descriptor
/// file whose contents are `text`.
pub uninterp spec fn descriptor_comment(text: Seq<char>, locale: Seq<char>) -> Option<Seq<char>>;

/// Relies on `freedesktop_desktop_entry::DesktopEntry::from_str` to parse the
/// descriptor file at `path`, whose contents are `text`, and on its `name`,
/// `exec`, `icon` and `comment` readers, localized to `locale`, for the fields.
/// Whether parsing succeeds depends on `path` and `text` alone; what the
/// readers give depends on `text` and `locale` alone.
#[verifier::external_body]
pub(crate) fn decode_descriptor(path: &str, text: &str, locale: &str) -> (r: Option<
    DescriptorFields,
>)
    ensures
        r is Some == descriptor_decodes(path@, text@),
        r matches Some(f) ==> {
            &&& f.name.deep_view() == descriptor_name(text@, locale@)
            &&& f.command.deep_view() == descriptor_command(text@)
            &&& f.icon.deep_view() == descriptor_icon(text@)
            &&& f.comment.deep_view() == descriptor_comment(text@, locale@)
        },
{
    let e = freedesktop_desktop_entry::DesktopEntry::from_str(path, text, None::<&[String]>).ok()?;
    let locales = [locale];
    Some(DescriptorFields {
        name: e.name(&locales).map(|v| v.into_owned()),
        command: e.exec().map(|v| v.to_string()),
        icon: e.icon().map(|v| v.to_string()),
        comment: e.comment(&locales).map(|v| v.into_owned()),
    })
}

/// The directories that hold descriptor files, in the order in which they are
/// scanned: the user's own, when the home directory is known, then the
/// system-wide and the local system-wide ones.
pub open spec fn catalog_directories(home: Option<Seq<char>>) -> Seq<Seq<char>> {
    let system = seq!["/usr/share/applications"@, "/usr/local/share/applications"@];
    match home {
        Some(h) => seq![h + "/.local/share/applications/"@] + system,
        None => system,
    }
}

/// Whether a directory item with this file name is a descriptor file to read:
/// a regular file whose name ends in `.desktop`.
pub open spec fn is_descriptor(file_name: Seq<char>, is_file: bool) -> bool {
    is_file && file_name.len() >= 8 && file_name.subrange(file_name.len() - 8, file_name.len() as int)
        == ".desktop"@
}

/// The value, or `default` when there is none.
pub open spec fn or_default(v: Option<Seq<char>>, default: Seq<char>) -> Seq<char> {
    match v {
        Some(s) => s,
        None => default,
    }
}

/// The descriptor files of `files` (pairs of path and contents) that parse,
/// in order.
pub open spec fn decoded_files(files: Seq<(Seq<char>, Seq<char>)>) -> Seq<(Seq<char>, Seq<char>)>
    decreases files.len(),
{
    if files.len() == 0 {
        seq![]
    } else {
        let rest = decoded_files(files.drop_last());
        let (path, text) = files.last();
        if descriptor_decodes(path, text) {
            rest.push((path, text))
        } else {
            rest
        }
    }
}

/// Whether `e` is the entry read from the descriptor file at `path` whose
/// contents are `text`: name and comment in US English; a missing name or
/// command reads as empty, a missing icon as an empty icon name, a missing
/// comment as `None`.
pub open spec fn is_entry_of(e: DesktopEntry, path: Seq<char>, text: Seq<char>) -> bool {
    &&& e.name@ == or_default(descriptor_name(text, "en_US"@), Seq::empty())
    &&& e.exec_command@ == or_default(descriptor_command(text), Seq::empty())
    &&& e.icon_path is Some
    &&& e.icon_path->0@ == or_default(descriptor_icon(text), Seq::empty())
    &&& e.description@ == or_default(descriptor_comment(text, "en_US"@), "None"@)
    &&& e.full_path@ == path
}

impl DesktopEntry {
    pub fn new(
        name: String,
        exec_command: String,
        icon_path: Option<String>,
        description: String,
        full_path: String,
    ) -> (r: Self)
        ensures
            r.name == name,
            r.exec_command == exec_command,
            r.icon_path == icon_path,
            r.description == description,
            r.full_path == full_path,
    {
        Self { name, exec_command, description, icon_path, full_path }
    }
}

/// The directories to scan for descriptor files (see `catalog_directories`).
pub fn catalog_dirs(home: Option<String>) -> (r: Vec<String>)
    ensures
        r.deep_view() == catalog_directories(home.deep_view()),
{
    let mut r: Vec<String> = Vec::new();
    match home {
        Some(h) => {
            let mut own = h;
            own.append("/.local/share/applications/");
            r.push(own);
        },
        None => {},
    }
    r.push(String::from_str("/usr/share/applications"));
    r.push(String::from_str("/usr/local/share/applications"));
    assert(r.deep_view() =~= catalog_directories(home.deep_view()));
    r
}

/// Whether a directory item is a descriptor file to read (see
/// `is_descriptor`).
pub fn is_descriptor_file(file_name: &str, is_file: bool) -> (r: bool)
    ensures
        r == is_descriptor(file_name@, is_file),
{
    if !is_file {
        return false;
    }
    let n = file_name.unicode_len();
    if n < 8 {
        return false;
    }
    let suffix = ".desktop";
    proof {
        reveal_strlit(".desktop");
    }
    let mut k: usize = 0;
    while k < 8
        invariant
            k <= 8,
            n == file_name@.len(),
            n >= 8,
            suffix@ == ".desktop"@,
            suffix@.len() == 8,
            forall|j: int| 0 <= j < k ==> file_name@[n - 8 + j] == suffix@[j],
        decreases 8 - k,
    {
        if file_name.get_char(n - 8 + k) != suffix.get_char(k) {
            assert(file_name@.subrange(n - 8, n as int)[k as int] != suffix@[k as int]);
            return false;
        }
        k = k + 1;
    }
    assert(file_name@.subrange(n - 8, n as int) =~= ".desktop"@);
    true
}

/// The entry for the descriptor file at `path` with the given fields: a
/// missing name or command reads as empty, a missing icon as an empty icon
/// name, a missing comment as `None`.
fn entry_from_fields(path: &str, fields: DescriptorFields) -> (r: DesktopEntry)
    ensures
        r.name@ == or_default(fields.name.deep_view(), Seq::empty()),
        r.exec_command@ == or_default(fields.command.deep_view(), Seq::empty()),
        r.icon_path matches Some(i) && i@ == or_default(fields.icon.deep_view(), Seq::empty()),
        r.description@ == or_default(fields.comment.deep_view(), "None"@),
        r.full_path@ == path@,
{
    let name = match fields.name {
        Some(v) => v,
        None => String::new(),
    };
    let command = match fields.command {
        Some(v) => v,
        None => String::new(),
    };
    let icon = match fields.icon {
        Some(v) => v,
        None => String::new(),
    };
    let description = match fields.comment {
        Some(v) => v,
        None => String::from_str("None"),
    };
    DesktopEntry::new(name, command, Some(icon), description, String::from_str(path))
}

/// Reads the descriptor file at `path`, whose contents are `text`, into an
/// entry, with its name and comment in US English where the file has them;
/// `None` when it does not parse.
pub fn parse_entry(path: &str, text: &str) -> (r: Option<DesktopEntry>)
    ensures
        r is Some == descriptor_decodes(path@, text@),
        r matches Some(e) ==> is_entry_of(e, path@, text@),
{
    match decode_descriptor(path, text, "en_US") {
        Some(fields) => Some(entry_from_fields(path, fields)),
        None => None,
    }
}

/// The entries of the descriptor files of `files`, pairs of path and
/// contents, in order; the files that do not parse are left out.
pub fn entries_from_descriptors(files: &Vec<(String, String)>) -> (r: Vec<DesktopEntry>)
    ensures
        r@.len() == decoded_files(files.deep_view()).len(),
        forall|k: int|
            0 <= k < r@.len() ==> is_entry_of(
                #[trigger] r@[k],
                decoded_files(files.deep_view())[k].0,
                decoded_files(files.deep_view())[k].1,
            ),
{
    let mut r: Vec<DesktopEntry> = Vec::new();
    let mut k: usize = 0;
    while k < files.len()
        invariant
            k <= files@.len(),
            r@.len() == decoded_files(files.deep_view().subrange(0, k as int)).len(),
            forall|j: int|
                0 <= j < r@.len() ==> is_entry_of(
                    #[trigger] r@[j],
                    decoded_files(files.deep_view().subrange(0, k as int))[j].0,
                    decoded_files(files.deep_view().subrange(0, k as int))[j].1,
                ),
        decreases files@.len() - k,
    {
        let ghost done = decoded_files(files.deep_view().subrange(0, k as int));
        assert(files.deep_view().subrange(0, k + 1).drop_last() =~= files.deep_view().subrange(
            0,
            k as int,
        ));
        let (path, text) = &files[k];
        assert(files.deep_view()[k as int] == (path@, text@));
        match parse_entry(path.as_str(), text.as_str()) {
            Some(e) => {
                r.push(e);
                assert(decoded_files(files.deep_view().subrange(0, k + 1)) == done.push(
                    (path@, text@),
                ));
            },
            None => {
                assert(decoded_files(files.deep_view().subrange(0, k + 1)) == done);
            },
        }
        k = k + 1;
    }
    assert(files.deep_view().subrange(0, k as int) =~= files.deep_view());
    r
}

} // verus!
