//! Locations of the configuration files, and the format of the watch lists.
use vstd::prelude::*;

use std::path::PathBuf;
use vstd::string::StringSliceAdditionalSpecFns;
use vstd::utf8::encode_utf8;

use crate::text::{find_char, own, strings_view, trim, trimmed};

verus! {

#[verifier::external_type_specification]
#[verifier::external_body]
pub struct ExPathBuf(std::path::PathBuf);

/// The components of a path, as `Path::components` yields them, each as the
/// bytes of its `OsStr`.
pub uninterp spec fn path_components(p: PathBuf) -> Seq<Seq<u8>>;

/// Whether `name` is one plain path component: not empty, no `/`, and
/// neither `.` nor `..`.
pub open spec fn is_plain_component(name: Seq<char>) -> bool {
    name.len() > 0 && (forall|i: int| 0 <= i < name.len() ==> name[i] != '/')
        && !(name.len() == 1 && name[0] == '.') && !(name.len() == 2 && name[0] == '.' && name[1] == '.')
}

/// Calls `Path::join` with a single plain component. As the documentation of
/// `PathBuf::push` and `Path::components` says, a relative component is added
/// after a separator, so the components of the result are those of `base`
/// followed by `name`.
#[verifier::external_body]
fn path_join(base: &PathBuf, name: &str) -> (r: PathBuf)
    requires
        is_plain_component(name@),
    ensures
        path_components(r) == path_components(*base).push(name.spec_bytes()),
{
    base.join(name)
}

/// Whether a path (given by its components) has a parent: it has a last
/// component and that component is not the root `/`.
pub open spec fn has_parent(components: Seq<Seq<u8>>) -> bool {
    components.len() > 0 && components.last() != seq![47u8]
}

/// Calls `Path::parent`. As its source shows, the parent is the path
/// without its final component, and there is one exactly when the final
/// component is a normal name, `.` or `..`: not for the empty path, nor for
/// a path that ends in the root (on Unix there are no prefix components,
/// and only the root component is the text `/`).
#[verifier::external_body]
fn path_parent(p: &PathBuf) -> (r: Option<PathBuf>)
    ensures
        r matches Some(q) ==> path_components(q) == path_components(*p).drop_last(),
        r is Some <==> has_parent(path_components(*p)),
{
    match p.parent() {
        Some(q) => Some(q.to_path_buf()),
        None => None,
    }
}

/// The path of a program named `name` in the directory of the program at
/// `exe`: `None` exactly when `exe` has no parent.
pub fn sibling_program(exe: &PathBuf, name: &str) -> (r: Option<PathBuf>)
    requires
        is_plain_component(name@),
    ensures
        r matches Some(q) ==> path_components(q) == path_components(*exe).drop_last().push(name.spec_bytes()),
        r is Some <==> has_parent(path_components(*exe)),
{
    match path_parent(exe) {
        Some(dir) => Some(path_join(&dir, name)),
        None => None,
    }
}

/// Calls `PathBuf::from` on an absolute path of one plain component, such
/// as `/tmp`. As `Path::components` documents, such a path has two
/// components: the root `/` and the name.
#[verifier::external_body]
fn path_from_text(text: &str) -> (r: PathBuf)
    requires
        text@.len() > 1,
        text@[0] == '/',
        is_plain_component(text@.skip(1)),
    ensures
        path_components(r) == seq![seq![47u8], encode_utf8(text@.skip(1))],
{
    PathBuf::from(text)
}

/// Calls `dirs::config_dir`, which reads the environment; nothing is claimed
/// of its outcome.
#[verifier::external_body]
fn dirs_config_dir() -> Option<PathBuf> {
    dirs::config_dir()
}

/// Calls `dirs::home_dir`, which reads the environment; nothing is claimed of
/// its outcome.
#[verifier::external_body]
fn dirs_home_dir() -> Option<PathBuf> {
    dirs::home_dir()
}

/// The components of the directory that holds the configuration, given the
/// outcomes of the user's config and home directory lookups.
pub open spec fn config_base_components(config: Option<PathBuf>, home: Option<PathBuf>) -> Seq<Seq<u8>> {
    match config {
        Some(c) => path_components(c),
        None => match home {
            Some(h) => path_components(h).push(".config".spec_bytes()),
            None => seq![seq![47u8], "tmp".spec_bytes()],
        },
    }
}

/// The configuration directory for the given lookups: the user's config
/// directory, else `.config` in the home directory, else `/tmp`; then
/// `mpvpaper-rs` inside it.
pub fn config_dir_from(config: Option<PathBuf>, home: Option<PathBuf>) -> (r: PathBuf)
    ensures
        path_components(r) == config_base_components(config, home).push("mpvpaper-rs".spec_bytes()),
{
    proof {
        reveal_strlit("mpvpaper-rs");
        reveal_strlit(".config");
        assert forall|i: int| 0 <= i < ".config"@.len() implies ".config"@[i] != '/' by {
            assert(i == 0 || i == 1 || i == 2 || i == 3 || i == 4 || i == 5 || i == 6);
        }
        assert forall|i: int| 0 <= i < "mpvpaper-rs"@.len() implies "mpvpaper-rs"@[i] != '/' by {
            assert(i == 0 || i == 1 || i == 2 || i == 3 || i == 4 || i == 5 || i == 6 || i == 7 || i == 8 || i == 9 || i == 10);
        }
        reveal_strlit("/tmp");
        reveal_strlit("tmp");
        assert("/tmp"@.skip(1) =~= "tmp"@);
        assert forall|i: int| 0 <= i < "tmp"@.len() implies "tmp"@[i] != '/' by {
            assert(i == 0 || i == 1 || i == 2);
        }
    }
    let base = match config {
        Some(c) => c,
        None => match home {
            Some(h) => path_join(&h, ".config"),
            None => path_from_text("/tmp"),
        },
    };
    path_join(&base, "mpvpaper-rs")
}

/// Get the configuration directory path (~/.config/mpvpaper-rs/)
pub fn get_config_dir() -> (r: PathBuf)
    ensures
        exists|config: Option<PathBuf>, home: Option<PathBuf>| path_components(r)
            == #[trigger] config_base_components(config, home).push("mpvpaper-rs".spec_bytes()),
{
    let config = dirs_config_dir();
    let home = if config.is_none() {
        dirs_home_dir()
    } else {
        None
    };
    config_dir_from(config, home)
}

/// The pauselist file in a configuration directory: `dir/pauselist`.
pub fn pauselist_path_in(dir: &PathBuf) -> (r: PathBuf)
    ensures
        path_components(r) == path_components(*dir).push("pauselist".spec_bytes()),
{
    proof {
        reveal_strlit("pauselist");
        assert forall|i: int| 0 <= i < "pauselist"@.len() implies "pauselist"@[i] != '/' by {
            assert(i == 0 || i == 1 || i == 2 || i == 3 || i == 4 || i == 5 || i == 6 || i == 7 || i == 8);
        }
    }
    path_join(dir, "pauselist")
}

/// The stoplist file in a configuration directory: `dir/stoplist`.
pub fn stoplist_path_in(dir: &PathBuf) -> (r: PathBuf)
    ensures
        path_components(r) == path_components(*dir).push("stoplist".spec_bytes()),
{
    proof {
        reveal_strlit("stoplist");
        assert forall|i: int| 0 <= i < "stoplist"@.len() implies "stoplist"@[i] != '/' by {
            assert(i == 0 || i == 1 || i == 2 || i == 3 || i == 4 || i == 5 || i == 6 || i == 7);
        }
    }
    path_join(dir, "stoplist")
}

/// Get the pauselist file path (~/.config/mpvpaper-rs/pauselist): the
/// pauselist file in the configuration directory that the environment
/// gives at the time of the call.
pub fn get_pauselist_path() -> (r: PathBuf)
    ensures
        exists|config: Option<PathBuf>, home: Option<PathBuf>| path_components(r)
            == #[trigger] config_base_components(config, home).push("mpvpaper-rs".spec_bytes()).push(
            "pauselist".spec_bytes(),
        ),
{
    let dir = get_config_dir();
    pauselist_path_in(&dir)
}

/// Get the stoplist file path (~/.config/mpvpaper-rs/stoplist): the
/// stoplist file in the configuration directory that the environment gives
/// at the time of the call.
pub fn get_stoplist_path() -> (r: PathBuf)
    ensures
        exists|config: Option<PathBuf>, home: Option<PathBuf>| path_components(r)
            == #[trigger] config_base_components(config, home).push("mpvpaper-rs".spec_bytes()).push(
            "stoplist".spec_bytes(),
        ),
{
    let dir = get_config_dir();
    stoplist_path_in(&dir)
}

/// The watch-list files sit side by side in the configuration directory:
/// for the same lookups, each list's path is the configuration directory
/// (which ends in `mpvpaper-rs`) joined with the list's name, so the two
/// paths have the same parent.
pub proof fn law_list_files_in_config_dir(config: Option<PathBuf>, home: Option<PathBuf>)
    ensures
        ({
            let dir = config_base_components(config, home).push("mpvpaper-rs".spec_bytes());
            let pause = dir.push("pauselist".spec_bytes());
            let stop = dir.push("stoplist".spec_bytes());
            &&& pause.drop_last() == dir
            &&& stop.drop_last() == dir
            &&& pause.last() == "pauselist".spec_bytes()
            &&& stop.last() == "stoplist".spec_bytes()
            &&& dir.last() == "mpvpaper-rs".spec_bytes()
        }),
{
    let dir = config_base_components(config, home).push("mpvpaper-rs".spec_bytes());
    assert(dir.push("pauselist".spec_bytes()).drop_last() =~= dir);
    assert(dir.push("stoplist".spec_bytes()).drop_last() =~= dir);
}

/// Whether a trimmed line of a list file is an entry: not blank and not a `#` comment.
pub open spec fn is_entry(line: Seq<char>) -> bool {
    line.len() > 0 && line[0] != '#'
}

/// The entries of a list file's text: each line (split at `\n`) trimmed, keeping
/// those that are not blank and do not start with `#`.
#[verifier::opaque]
pub open spec fn list_entries(content: Seq<char>) -> Seq<Seq<char>>
    decreases content.len(),
{
    match crate::text::first_index_of(content, '\n') {
        None => if is_entry(trimmed(content)) {
            seq![trimmed(content)]
        } else {
            Seq::empty()
        },
        Some(p) => {
            let line = trimmed(content.take(p));
            let rest = if 0 <= p < content.len() {
                list_entries(content.skip(p + 1))
            } else {
                Seq::empty()
            };
            if is_entry(line) {
                seq![line] + rest
            } else {
                rest
            }
        },
    }
}

/// The entry that one line makes, if any.
pub open spec fn line_entries(line: Seq<char>) -> Seq<Seq<char>> {
    if is_entry(trimmed(line)) {
        seq![trimmed(line)]
    } else {
        Seq::empty()
    }
}

/// One step of [`list_entries`]: the entry made of the first line, if any,
/// followed by the entries of the text after the first line feed.
proof fn lemma_list_entries_step(content: Seq<char>, p: int)
    requires
        crate::text::first_index_of(content, '\n') == Some(p),
        0 <= p < content.len(),
    ensures
        list_entries(content) == line_entries(content.take(p)) + list_entries(content.skip(p + 1)),
{
    reveal(list_entries);
    if !is_entry(trimmed(content.take(p))) {
        assert(Seq::<Seq<char>>::empty() + list_entries(content.skip(p + 1)) =~= list_entries(
            content.skip(p + 1),
        ));
    }
}

/// The last line of a text without line feeds.
proof fn lemma_list_entries_last(content: Seq<char>)
    requires
        crate::text::first_index_of(content, '\n') is None,
    ensures
        list_entries(content) == line_entries(content),
{
    reveal(list_entries);
}

/// The entry made of one line, if it is one.
fn line_entry(line: &str) -> (r: Option<String>)
    ensures
        r matches Some(x) ==> line_entries(line@) == seq![x@],
        r is None ==> line_entries(line@) == Seq::<Seq<char>>::empty(),
{
    let t = trim(line);
    if !t.is_empty() && t.get_char(0) != '#' {
        Some(own(t))
    } else {
        None
    }
}

/// Parse the text of a list file (pauselist or stoplist)
///
/// Format: one process name per line, blank lines and # comments are ignored
pub fn parse_list_content(content: &str) -> (r: Vec<String>)
    ensures
        strings_view(r@) == list_entries(content@),
{
    let n = content.unicode_len();
    let mut out: Vec<String> = Vec::new();
    let mut start: usize = 0;
    assert(content@.skip(0) =~= content@);
    assert(strings_view(out@) + list_entries(content@) =~= list_entries(content@));
    loop
        invariant_except_break
            list_entries(content@) == strings_view(out@) + list_entries(content@.skip(start as int)),
        invariant
            n == content@.len(),
            start <= n,
        ensures
            strings_view(out@) == list_entries(content@),
        decreases n - start,
    {
        let rest = content.substring_char(start, n);
        assert(rest@ == content@.skip(start as int));
        let ghost before = strings_view(out@);
        match find_char(rest, '\n') {
            None => {
                proof {
                    lemma_list_entries_last(rest@);
                }
                match line_entry(rest) {
                    Some(x) => {
                        out.push(x);
                        assert(strings_view(out@) =~= before + seq![x@]);
                    },
                    None => {
                        assert(strings_view(out@) =~= before + Seq::<Seq<char>>::empty());
                    },
                }
                break;
            },
            Some(p) => {
                let line = rest.substring_char(0, p);
                proof {
                    lemma_list_entries_step(rest@, p as int);
                    assert(content@.skip(start + p + 1) =~= rest@.skip(p + 1));
                }
                let ghost tail = list_entries(rest@.skip(p + 1));
                match line_entry(line) {
                    Some(x) => {
                        out.push(x);
                        assert(strings_view(out@) =~= before + seq![x@]);
                        assert(before + (seq![x@] + tail) =~= (before + seq![x@]) + tail);
                    },
                    None => {
                        assert(strings_view(out@) =~= before);
                        assert(before + (Seq::<Seq<char>>::empty() + tail) =~= before + tail);
                    },
                }
                start = start + p + 1;
            },
        }
    }
    out
}

/// Blank lines and comments never become entries: every entry of a list
/// file is non-empty and does not start with `#`.
pub proof fn law_list_entries_are_names(content: Seq<char>)
    ensures
        forall|i: int| 0 <= i < list_entries(content).len() ==> is_entry(#[trigger] list_entries(content)[i]),
    decreases content.len(),
{
    reveal(list_entries);
    match crate::text::first_index_of(content, '\n') {
        None => {},
        Some(p) => {
            if 0 <= p < content.len() {
                law_list_entries_are_names(content.skip(p + 1));
                let line = trimmed(content.take(p));
                let rest = list_entries(content.skip(p + 1));
                if is_entry(line) {
                    assert forall|i: int| 0 <= i < (seq![line] + rest).len() implies is_entry(
                        #[trigger] (seq![line] + rest)[i],
                    ) by {
                        if i > 0 {
                            assert((seq![line] + rest)[i] == rest[i - 1]);
                        }
                    }
                }
            }
        },
    }
}

} // verus!
