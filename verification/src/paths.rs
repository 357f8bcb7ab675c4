//! Paths as text. What a path means is left to `camino`; on one target each of its answers
//! depends on the text of the path alone.
use crate::text::{law_pieces_hold_no_separator, opt_string, pieces, texts};
use vstd::prelude::*;

verus! {

/// The text of a path with another path adjoined to it, under the path rules of the target.
pub uninterp spec fn path_join(base: Seq<char>, name: Seq<char>) -> Seq<char>;

/// The text of a path without its final component, under the path rules of the target.
pub uninterp spec fn path_parent(path: Seq<char>) -> Option<Seq<char>>;

/// The final component of a path, under the path rules of the target.
pub uninterp spec fn path_file_name(path: Seq<char>) -> Option<Seq<char>>;

/// Whether a text has neither a root nor a prefix as a path, on any target: it begins with no
/// separator and with no drive.
pub open spec fn is_rootless(path: Seq<char>) -> bool {
    path.len() > 0 && path[0] != '/' && path[0] != '\\' && (path.len() > 1 ==> path[1] != ':')
}

/// Whether a text begins like a verbatim path of Windows, whose components are put together anew
/// where it is extended.
pub open spec fn is_verbatim(path: Seq<char>) -> bool {
    seq!['\\', '\\', '?', '\\'].is_prefix_of(path)
}

/// Whether a character separates components on some target.
pub open spec fn is_separator(c: char) -> bool {
    c == '/' || c == '\\'
}

/// Whether a text is a drive of Windows and nothing else, which is no absolute path.
pub open spec fn is_bare_drive(path: Seq<char>) -> bool {
    path.len() == 2 && path[1] == ':'
}

/// Whether nothing has to stand between a text and a component that is put behind it: the text is
/// empty, ends in a separator, or is a drive.
pub open spec fn is_open(base: Seq<char>) -> bool {
    base.len() == 0 || is_separator(base.last()) || is_bare_drive(base)
}

/// Whether a text is another with a name put behind it, with one separator between them or, where
/// the first is open, with none.
pub open spec fn is_extended(base: Seq<char>, name: Seq<char>, path: Seq<char>) -> bool {
    ||| is_open(base) && path == base + name
    ||| path == base + seq!['/'] + name
    ||| path == base + seq!['\\'] + name
}

/// `camino::Utf8Path::join`: the path with `name` adjoined. The result is named; a path that is
/// extended by one without root or prefix keeps its text, and the name follows, behind at most one
/// separator. Which separator a target uses is not stated, nor what becomes of a verbatim path's
/// text.
#[verifier::external_body]
pub(crate) fn join_path(base: &str, name: &str) -> (path: String)
    ensures
        path@ == path_join(base@, name@),
        is_rootless(name@) && !is_verbatim(base@) ==> is_extended(base@, name@, path@),
{
    camino::Utf8Path::new(base).join(name).into_string()
}

/// The components of a path, as far as its text shows them: its pieces between separators of any
/// target that are not empty.
pub open spec fn components(path: Seq<char>) -> Seq<Seq<char>> {
    pieces(path, seq!['/', '\\']).filter(|piece: Seq<char>| piece.len() > 0)
}

proof fn lemma_pieces_behind_separator(head: Seq<char>, tail: Seq<char>)
    requires
        head.len() == 0 || is_separator(head.last()),
    ensures
        pieces(head + tail, seq!['/', '\\']) == pieces(head, seq!['/', '\\']).drop_last() + pieces(
            tail,
            seq!['/', '\\'],
        ),
        pieces(head, seq!['/', '\\']).last() == Seq::<char>::empty(),
    decreases tail.len(),
{
    let at = seq!['/', '\\'];
    assert(at[0] == '/' && at[1] == '\\');
    law_pieces_hold_no_separator(head, at);
    law_pieces_hold_no_separator(tail, at);
    if head.len() > 0 {
        assert(at.contains(head.last()));
    }
    if tail.len() == 0 {
        assert(head + tail =~= head);
        assert(pieces(head, at) =~= pieces(head, at).drop_last() + pieces(tail, at));
    } else {
        lemma_pieces_behind_separator(head, tail.drop_last());
        law_pieces_hold_no_separator(tail.drop_last(), at);
        assert((head + tail).drop_last() =~= head + tail.drop_last());
        assert((head + tail).last() == tail.last());
        assert(pieces(head + tail, at) =~= pieces(head, at).drop_last() + pieces(tail, at));
    }
}

/// The components of a path that was extended are those of the path and then those of the name,
/// unless the path is a drive and nothing else.
pub proof fn law_extended_components(base: Seq<char>, name: Seq<char>, path: Seq<char>)
    requires
        is_extended(base, name, path),
        !is_bare_drive(base),
    ensures
        components(path) == components(base) + components(name),
        components(base).is_prefix_of(components(path)),
{
    let at = seq!['/', '\\'];
    let full = |piece: Seq<char>| piece.len() > 0;
    assert(at[0] == '/' && at[1] == '\\');
    law_pieces_hold_no_separator(base, at);
    if is_open(base) && path == base + name {
        lemma_pieces_behind_separator(base, name);
        let front = pieces(base, at).drop_last();
        Seq::filter_distributes_over_add(front, pieces(name, at), full);
        assert(front.filter(full) == components(base)) by {
            reveal(Seq::filter);
        }
    } else {
        let separator = path[base.len() as int];
        let head = base.push(separator);
        assert(path =~= head + name);
        lemma_pieces_behind_separator(head, name);
        assert(at.contains(separator));
        assert(head.drop_last() =~= base);
        assert(pieces(head, at).drop_last() =~= pieces(base, at));
        Seq::filter_distributes_over_add(pieces(base, at), pieces(name, at), full);
    }
    assert(components(path) =~= components(base) + components(name));
    assert(components(base) =~= components(path).subrange(0, components(base).len() as int));
}

/// `camino::Utf8Path::parent`: the path without its final component, or `None` where it ends in
/// a root or a prefix. The result is named.
#[verifier::external_body]
pub(crate) fn parent_path(path: &str) -> (parent: Option<String>)
    ensures
        match parent {
            Some(dir) => path_parent(path@) == Some(dir@),
            None => path_parent(path@) is None,
        },
{
    match camino::Utf8Path::new(path).parent() {
        Some(dir) => Some(dir.as_str().to_string()),
        None => None,
    }
}

/// `camino::Utf8Path::file_name`: the final component, or `None` where there is none. The result
/// is named.
#[verifier::external_body]
pub(crate) fn file_name(path: &str) -> (name: Option<String>)
    ensures
        match name {
            Some(name) => path_file_name(path@) == Some(name@),
            None => path_file_name(path@) is None,
        },
{
    match camino::Utf8Path::new(path).file_name() {
        Some(name) => Some(name.to_string()),
        None => None,
    }
}

/// A path cut back to its parent, or unchanged where it has none.
pub open spec fn path_popped(path: Seq<char>) -> Seq<char> {
    match path_parent(path) {
        Some(dir) => dir,
        None => path,
    }
}

/// `camino::Utf8PathBuf::pop`: truncates the path to its parent, and does nothing where it has
/// none.
#[verifier::external_body]
pub(crate) fn pop_path(path: String) -> (popped: String)
    ensures
        popped@ == path_popped(path@),
{
    let mut buf = camino::Utf8PathBuf::from(path);
    buf.pop();
    buf.into_string()
}

/// The directory of an executable; `None` for a path without a parent.
pub fn exe_dir(exe: &str) -> (dir: Option<String>)
    ensures
        match dir {
            Some(dir) => path_parent(exe@) == Some(dir@),
            None => path_parent(exe@) is None,
        },
{
    parent_path(exe)
}

/// The choice of a working directory: `dir`, or, where `dir` lies in a directory named `target`,
/// the directory two levels above it.
pub open spec fn working_choice(
    dir: Seq<char>,
    parent_name: Option<Seq<char>>,
    two_up: Seq<char>,
) -> Seq<char> {
    if parent_name == Some("target"@) {
        two_up
    } else {
        dir
    }
}

/// Chooses between a directory and the one two levels up, by the name of the directory in
/// between.
pub fn choose_working_dir(dir: String, parent_name: Option<String>, two_up: String) -> (working:
    String)
    ensures
        working@ == working_choice(
            dir@,
            opt_string(parent_name),
            two_up@,
        ),
{
    match parent_name {
        Some(name) => if name == "target".to_owned() {
            two_up
        } else {
            dir
        },
        None => dir,
    }
}

/// The directory the benchmark works in: that of the executable, or, where cargo put the
/// executable into a profile's directory inside `target`, the one two levels up.
pub open spec fn working_dir_of(dir: Seq<char>) -> Seq<char> {
    let parent_name = match path_parent(dir) {
        Some(parent) => path_file_name(parent),
        None => None,
    };
    working_choice(dir, parent_name, path_popped(path_popped(dir)))
}

/// The working directory is two levels up exactly where the directory in between is named
/// `target`, and otherwise the directory itself. Going up stops where there is no parent.
pub proof fn law_working_dir(dir: Seq<char>)
    ensures
        path_parent(dir) is None ==> working_dir_of(dir) == dir,
        path_parent(dir) matches Some(parent) ==> {
            &&& path_file_name(parent) != Some("target"@) ==> working_dir_of(dir) == dir
            &&& path_file_name(parent) == Some("target"@) ==> match path_parent(parent) {
                Some(up) => working_dir_of(dir) == up,
                None => working_dir_of(dir) == parent,
            }
        },
        forall|name: Option<Seq<char>>, up: Seq<char>|
            #![trigger working_choice(dir, name, up)]
            working_choice(dir, name, up) == up || working_choice(dir, name, up) == dir,
        forall|up: Seq<char>| #[trigger] working_choice(dir, Some("target"@), up) == up,
        forall|name: Option<Seq<char>>, up: Seq<char>|
            #![trigger working_choice(dir, name, up)]
            name != Some("target"@) ==> working_choice(dir, name, up) == dir,
{
}

/// Finds the working directory from the directory of the executable.
pub fn working_dir(dir: String) -> (working: String)
    ensures
        working@ == working_dir_of(dir@),
{
    let parent_name: Option<String> = match parent_path(dir.as_str()) {
        Some(parent) => file_name(parent.as_str()),
        None => None,
    };
    let two_up = pop_path(pop_path(dir.clone()));
    choose_working_dir(dir, parent_name, two_up)
}

/// Where the benchmark keeps its files.
pub struct Layout {
    pub current_dir: String,
    /// Where models are cached, before it is made absolute.
    pub cache_dir: String,
    pub output_dir: String,
    pub profiling_path: String,
    /// Where the chunks are dumped.
    pub chunks_path: String,
}

impl Layout {
    /// Lays out the files under a working directory. The cache directory is resolved against it.
    pub fn new(current_dir: String, cache_dir: &str) -> (layout: Self)
        ensures
            layout.current_dir == current_dir,
            layout.cache_dir@ == path_join(current_dir@, cache_dir@),
            layout.output_dir@ == path_join(current_dir@, "output"@),
            layout.profiling_path@ == path_join(current_dir@, "model_profiling.json"@),
            layout.chunks_path@ == path_join(current_dir@, "chunks.json"@),
            !is_verbatim(current_dir@) ==> {
                &&& is_rootless(cache_dir@) ==> is_extended(
                    current_dir@,
                    cache_dir@,
                    layout.cache_dir@,
                )
                &&& is_extended(current_dir@, "output"@, layout.output_dir@)
                &&& is_extended(current_dir@, "model_profiling.json"@, layout.profiling_path@)
                &&& is_extended(current_dir@, "chunks.json"@, layout.chunks_path@)
            },
    {
        proof {
            reveal_strlit("output");
            reveal_strlit("model_profiling.json");
            reveal_strlit("chunks.json");
        }
        Layout {
            cache_dir: join_path(current_dir.as_str(), cache_dir),
            output_dir: join_path(current_dir.as_str(), "output"),
            profiling_path: join_path(current_dir.as_str(), "model_profiling.json"),
            chunks_path: join_path(current_dir.as_str(), "chunks.json"),
            current_dir,
        }
    }
}

/// The paths of one file name in each of a list of directories.
pub open spec fn candidates(dirs: Seq<Seq<char>>, name: Seq<char>) -> Seq<Seq<char>> {
    dirs.map_values(|dir: Seq<char>| path_join(dir, name))
}

/// There is one path for each directory, in order, and it is the directory with the whole name put
/// behind it.
pub proof fn law_candidates(dirs: Seq<Seq<char>>, more: Seq<Seq<char>>, name: Seq<char>)
    ensures
        candidates(dirs, name).len() == dirs.len(),
        forall|i: int|
            0 <= i < dirs.len() ==> #[trigger] candidates(dirs, name)[i] == path_join(
                dirs[i],
                name,
            ),
        candidates(dirs + more, name) == candidates(dirs, name) + candidates(more, name),
{
    assert(candidates(dirs + more, name) =~= candidates(dirs, name) + candidates(more, name));
}

/// Joins one file name to each of a list of directories.
pub fn join_each(dirs: &[String], name: &str) -> (paths: Vec<String>)
    ensures
        texts(paths@) == candidates(texts(dirs@), name@),
        paths.len() == dirs.len(),
        forall|i: int|
            #![trigger paths@[i]]
            0 <= i < paths.len() && is_rootless(name@) && !is_verbatim(dirs@[i]@) ==> is_extended(
                dirs@[i]@,
                name@,
                paths@[i]@,
            ),
{
    let mut paths: Vec<String> = Vec::new();
    let mut i: usize = 0;
    while i < dirs.len()
        invariant
            i <= dirs.len(),
            paths.len() == i,
            forall|j: int|
                0 <= j < i ==> (#[trigger] paths@[j])@ == path_join(dirs@[j]@, name@),
            forall|j: int|
                #![trigger paths@[j]]
                0 <= j < i && is_rootless(name@) && !is_verbatim(dirs@[j]@) ==> is_extended(
                    dirs@[j]@,
                    name@,
                    paths@[j]@,
                ),
        decreases dirs.len() - i,
    {
        paths.push(join_path(dirs[i].as_str(), name));
        i += 1;
    }
    assert(texts(paths@) =~= candidates(texts(dirs@), name@));
    paths
}

} // verus!
