//! Finding the runtime's shared libraries, and loading the CUDA ones ahead of it.
use crate::paths::{
    candidates, is_extended, is_rootless, is_verbatim, join_each, join_path, law_candidates,
    parent_path, path_join, path_parent,
};
use crate::providers::{platform_order, wanted, ExecutionMode, Platform, Provider};
use crate::text::{
    is_blank, is_white_space, law_separator_parts_pieces, law_text_without_separators_is_one_piece,
    law_trims_only_around, opt_text, pieces, split_at_any, texts, trim_text, trimmed,
};
use vstd::prelude::*;

verus! {

/// The directories of a `PATH`-like variable: its pieces between semicolons, trimmed. There are
/// none where the variable is not set.
pub open spec fn path_dirs(path: Option<Seq<char>>) -> Seq<Seq<char>> {
    match path {
        Some(text) => pieces(text, seq![';']).map_values(|dir: Seq<char>| trimmed(dir)),
        None => Seq::empty(),
    }
}

/// An entry of a `PATH`-like variable loses the white space around it and nothing else.
pub proof fn law_path_entry_is_kept_whole(front: Seq<char>, dir: Seq<char>, back: Seq<char>)
    requires
        is_blank(front),
        is_blank(back),
        dir.len() > 0 ==> !is_white_space(dir.first()) && !is_white_space(dir.last()),
        !dir.contains(';'),
    ensures
        path_dirs(Some(front + dir + back)) == seq![dir],
{
    let text = front + dir + back;
    let at = seq![';'];
    assert forall|i: int| 0 <= i < text.len() implies !at.contains(#[trigger] text[i]) by {
        if i < front.len() {
            assert(text[i] == front[i]);
        } else if i < front.len() + dir.len() {
            assert(text[i] == dir[i - front.len()]);
            assert(dir.contains(text[i]));
        } else {
            assert(text[i] == back[i - front.len() - dir.len()]);
        }
        assert(text[i] != ';');
    }
    law_text_without_separators_is_one_piece(text, at);
    law_trims_only_around(front, dir, back);
    assert(path_dirs(Some(text)) =~= seq![dir]);
}

/// A semicolon parts a `PATH`-like variable: the directories are those in front of it and then
/// those behind it. A variable that is not set has none.
pub proof fn law_semicolon_parts_path(front: Seq<char>, back: Seq<char>)
    ensures
        path_dirs(Some(front + seq![';'] + back)) == path_dirs(Some(front)) + path_dirs(Some(back)),
        path_dirs(None) == Seq::<Seq<char>>::empty(),
{
    let at = seq![';'];
    assert(at[0] == ';');
    law_separator_parts_pieces(front, ';', back, at);
    assert(path_dirs(Some(front + seq![';'] + back)) =~= path_dirs(Some(front)) + path_dirs(
        Some(back),
    ));
}

/// Appends the directories of a `PATH`-like variable to a list of directories.
pub fn append_path_dirs(dirs: Vec<String>, path: Option<&str>) -> (all: Vec<String>)
    ensures
        texts(all@) == texts(dirs@) + path_dirs(opt_text(path)),
{
    let mut all: Vec<String> = dirs;
    if let Some(text) = path {
        let separators: [char; 1] = [';'];
        let parts = split_at_any(text, &separators);
        assert(separators@ =~= seq![';']);
        let mut i: usize = 0;
        while i < parts.len()
            invariant
                i <= parts.len(),
                texts(parts@) == pieces(text@, seq![';']),
                texts(all@) == texts(dirs@) + path_dirs(Some(text@)).take(i as int),
            decreases parts.len() - i,
        {
            let ghost before = texts(all@);
            all.push(trim_text(parts[i].as_str()));
            assert(texts(parts@)[i as int] == parts@[i as int]@);
            assert(texts(all@) =~= before.push(trimmed(parts@[i as int]@)));
            assert(texts(all@) =~= texts(dirs@) + path_dirs(Some(text@)).take(i + 1));
            i += 1;
        }
        assert(path_dirs(Some(text@)).take(i as int) =~= path_dirs(Some(text@)));
    } else {
        assert(texts(all@) =~= texts(dirs@) + path_dirs(None));
    }
    all
}

/// Where the runtime's library is looked for: beside the executable, in `onnx` there, one and two
/// levels up, and on the search path.
pub open spec fn onnxruntime_search(exe_dir: Seq<char>, path: Option<Seq<char>>) -> Seq<
    Seq<char>,
> {
    seq![
        exe_dir,
        path_join(exe_dir, "onnx"@),
        path_join(exe_dir, "../onnx"@),
        path_join(exe_dir, "../../onnx"@),
    ] + path_dirs(path)
}

/// The runtime's library is looked for beside the executable before anywhere else, then in `onnx`
/// there, one and two levels up, and last in every directory of the search path.
pub proof fn law_runtime_is_looked_for_nearby_first(exe_dir: Seq<char>, path: Option<Seq<char>>)
    ensures
        ({
            let near = onnxruntime_search(exe_dir, None);
            &&& near.len() == 4
            &&& near[0] == exe_dir
            &&& near[1] == path_join(exe_dir, "onnx"@)
            &&& near[2] == path_join(exe_dir, "../onnx"@)
            &&& near[3] == path_join(exe_dir, "../../onnx"@)
            &&& onnxruntime_search(exe_dir, path) == near + path_dirs(path)
        }),
{
    assert(onnxruntime_search(exe_dir, path) =~= onnxruntime_search(exe_dir, None) + path_dirs(
        path,
    ));
}

/// Lists the directories in which the runtime's library is looked for.
pub fn onnxruntime_dirs(exe_dir: &str, path: Option<&str>) -> (dirs: Vec<String>)
    ensures
        texts(dirs@) == onnxruntime_search(exe_dir@, opt_text(path)),
{
    let near: Vec<String> = vec![
        exe_dir.to_owned(),
        join_path(exe_dir, "onnx"),
        join_path(exe_dir, "../onnx"),
        join_path(exe_dir, "../../onnx"),
    ];
    assert(texts(near@) =~= seq![
        exe_dir@,
        path_join(exe_dir@, "onnx"@),
        path_join(exe_dir@, "../onnx"@),
        path_join(exe_dir@, "../../onnx"@),
    ]);
    append_path_dirs(near, path)
}

/// A sequence of at most one text.
pub open spec fn if_set(text: Option<Seq<char>>) -> Seq<Seq<char>> {
    match text {
        Some(text) => seq![text],
        None => Seq::empty(),
    }
}

/// Where the CUDA libraries are looked for: beside the executable, in `cuda` there and two levels
/// up, under `CUDA_HOME` and `CUDNN_ROOT` where these are set, and on the search path.
pub open spec fn cuda_search(
    exe_dir: Seq<char>,
    cuda_home: Option<Seq<char>>,
    cudnn_root: Option<Seq<char>>,
    path: Option<Seq<char>>,
) -> Seq<Seq<char>> {
    seq![exe_dir, path_join(exe_dir, "cuda"@), path_join(exe_dir, "../../cuda"@)] + if_set(
        cuda_home,
    ) + if_set(cudnn_root) + path_dirs(path)
}

/// The CUDA libraries are looked for beside the executable before anywhere else, then in `cuda`
/// there and two levels up, then in `CUDA_HOME` and then in `CUDNN_ROOT`, each whole where it is
/// set, and last in every directory of the search path.
pub proof fn law_cuda_is_looked_for_nearby_first(
    exe_dir: Seq<char>,
    home: Seq<char>,
    root: Seq<char>,
    cudnn_root: Option<Seq<char>>,
    path: Option<Seq<char>>,
)
    ensures
        ({
            let near = cuda_search(exe_dir, None, None, None);
            &&& near.len() == 3
            &&& near[0] == exe_dir
            &&& near[1] == path_join(exe_dir, "cuda"@)
            &&& near[2] == path_join(exe_dir, "../../cuda"@)
            &&& cuda_search(exe_dir, None, None, path) == near + path_dirs(path)
            &&& cuda_search(exe_dir, None, Some(root), path) == near + seq![root] + path_dirs(path)
            &&& cuda_search(exe_dir, Some(home), cudnn_root, path) == near + seq![home]
                + cuda_search(exe_dir, None, cudnn_root, path).skip(3)
        }),
{
    let near = cuda_search(exe_dir, None, None, None);
    assert(cuda_search(exe_dir, None, None, path) =~= near + path_dirs(path));
    assert(cuda_search(exe_dir, None, Some(root), path) =~= near + seq![root] + path_dirs(path));
    assert(cuda_search(exe_dir, Some(home), cudnn_root, path) =~= near + seq![home] + cuda_search(
        exe_dir,
        None,
        cudnn_root,
        path,
    ).skip(3));
}

fn push_if_set(dirs: &mut Vec<String>, dir: Option<&str>)
    ensures
        texts(final(dirs)@) == texts(old(dirs)@) + if_set(opt_text(dir)),
{
    if let Some(text) = dir {
        dirs.push(text.to_owned());
        assert(texts(dirs@) =~= texts(old(dirs)@) + seq![text@]);
    } else {
        assert(texts(dirs@) =~= texts(old(dirs)@) + if_set(None));
    }
}

/// Lists the directories in which the CUDA libraries are looked for.
pub fn cuda_dirs(
    exe_dir: &str,
    cuda_home: Option<&str>,
    cudnn_root: Option<&str>,
    path: Option<&str>,
) -> (dirs: Vec<String>)
    ensures
        texts(dirs@) == cuda_search(
            exe_dir@,
            opt_text(cuda_home),
            opt_text(cudnn_root),
            opt_text(path),
        ),
{
    let mut near: Vec<String> = vec![
        exe_dir.to_owned(),
        join_path(exe_dir, "cuda"),
        join_path(exe_dir, "../../cuda"),
    ];
    assert(texts(near@) =~= seq![
        exe_dir@,
        path_join(exe_dir@, "cuda"@),
        path_join(exe_dir@, "../../cuda"@),
    ]);
    push_if_set(&mut near, cuda_home);
    push_if_set(&mut near, cudnn_root);
    append_path_dirs(near, path)
}

/// A search in progress: the paths still to try, in order, and the one that was found.
#[verifier::ext_equal]
pub struct SearchView {
    pub pending: Seq<Seq<char>>,
    pub found: Option<Seq<char>>,
}

impl SearchView {
    /// Takes the answer whether the first pending path exists.
    pub open spec fn answered(self, exists: bool) -> SearchView {
        if self.pending.len() == 0 {
            self
        } else if exists {
            SearchView { pending: Seq::empty(), found: Some(self.pending.first()) }
        } else {
            SearchView { pending: self.pending.drop_first(), ..self }
        }
    }

    /// What is left when every question is answered from one set of existing paths.
    pub open spec fn driven(self, on_disk: Set<Seq<char>>) -> SearchView
        decreases self.pending.len(),
    {
        if self.pending.len() == 0 {
            self
        } else {
            self.answered(on_disk.contains(self.pending.first())).driven(on_disk)
        }
    }
}

/// The first path of a list that exists.
pub open spec fn first_existing(paths: Seq<Seq<char>>, on_disk: Set<Seq<char>>) -> Option<
    Seq<char>,
>
    decreases paths.len(),
{
    if paths.len() == 0 {
        None
    } else if on_disk.contains(paths.first()) {
        Some(paths.first())
    } else {
        first_existing(paths.drop_first(), on_disk)
    }
}

/// The first existing path exists, and no path before it does; where there is none, no path of
/// the list exists.
pub proof fn law_first_existing(paths: Seq<Seq<char>>, on_disk: Set<Seq<char>>)
    ensures
        match first_existing(paths, on_disk) {
            Some(path) => on_disk.contains(path) && exists|i: int|
                0 <= i < paths.len() && #[trigger] paths[i] == path && forall|j: int|
                    0 <= j < i ==> !on_disk.contains(#[trigger] paths[j]),
            None => forall|i: int|
                0 <= i < paths.len() ==> !on_disk.contains(#[trigger] paths[i]),
        },
    decreases paths.len(),
{
    if paths.len() > 0 {
        let rest = paths.drop_first();
        if on_disk.contains(paths.first()) {
            assert(paths[0] == paths.first());
        } else {
            law_first_existing(rest, on_disk);
            match first_existing(rest, on_disk) {
                Some(path) => {
                    let i = choose|i: int|
                        0 <= i < rest.len() && #[trigger] rest[i] == path && forall|j: int|
                            0 <= j < i ==> !on_disk.contains(#[trigger] rest[j]);
                    assert(paths[i + 1] == path);
                    assert forall|j: int| 0 <= j < i + 1 implies !on_disk.contains(
                        #[trigger] paths[j],
                    ) by {
                        if j > 0 {
                            assert(rest[j - 1] == paths[j]);
                        }
                    }
                },
                None => {
                    assert forall|j: int| 0 <= j < paths.len() implies !on_disk.contains(
                        #[trigger] paths[j],
                    ) by {
                        if j > 0 {
                            assert(rest[j - 1] == paths[j]);
                        }
                    }
                },
            }
        }
    }
}

/// Answering every question of a search from one set of existing paths finds the first path of
/// the list that exists, and nothing where none does.
pub proof fn law_search_finds_first(paths: Seq<Seq<char>>, on_disk: Set<Seq<char>>)
    ensures
        (SearchView { pending: paths, found: None }).driven(on_disk) == (SearchView {
            pending: Seq::empty(),
            found: first_existing(paths, on_disk),
        }),
    decreases paths.len(),
{
    let state = SearchView { pending: paths, found: None };
    if paths.len() == 0 {
        assert(paths =~= Seq::empty());
    } else if on_disk.contains(paths.first()) {
        let end = state.answered(true);
        assert(end.driven(on_disk) == end);
    } else {
        law_search_finds_first(paths.drop_first(), on_disk);
    }
}

/// An answer that nothing asked for changes nothing. One that was asked for ends the search at the
/// path in question where that exists, and otherwise goes on to the next path.
pub proof fn law_search_answer(state: SearchView, exists: bool)
    ensures
        state.pending.len() == 0 ==> state.answered(exists) == state,
        state.pending.len() > 0 && exists ==> state.answered(exists).found == Some(
            state.pending[0],
        ) && state.answered(exists).pending.len() == 0,
        state.pending.len() > 0 && !exists ==> state.answered(exists).found == state.found
            && state.answered(exists).pending == state.pending.skip(1),
{
    if state.pending.len() > 0 {
        assert(state.pending.drop_first() =~= state.pending.skip(1));
    }
}

/// Whether a file is in one directory of a list, and in none before it.
pub open spec fn is_first_in(
    dirs: Seq<Seq<char>>,
    name: Seq<char>,
    on_disk: Set<Seq<char>>,
    at: int,
) -> bool {
    &&& 0 <= at < dirs.len()
    &&& on_disk.contains(path_join(dirs[at], name))
    &&& forall|i: int| 0 <= i < at ==> !on_disk.contains(path_join(#[trigger] dirs[i], name))
}

/// A file that is in some directory of a list is found, in the first directory that has it and
/// under its whole name; one that is in none of them is not found.
pub proof fn law_file_is_found_in_first_directory(
    dirs: Seq<Seq<char>>,
    name: Seq<char>,
    on_disk: Set<Seq<char>>,
)
    ensures
        match (SearchView { pending: candidates(dirs, name), found: None }).driven(on_disk).found {
            Some(found) => exists|at: int| #[trigger]
                is_first_in(dirs, name, on_disk, at) && found == path_join(dirs[at], name),
            None => forall|i: int|
                0 <= i < dirs.len() ==> !on_disk.contains(path_join(#[trigger] dirs[i], name)),
        },
{
    let paths = candidates(dirs, name);
    law_candidates(dirs, Seq::empty(), name);
    law_search_finds_first(paths, on_disk);
    law_first_existing(paths, on_disk);
    match first_existing(paths, on_disk) {
        Some(found) => {
            let at = choose|i: int|
                0 <= i < paths.len() && #[trigger] paths[i] == found && forall|j: int|
                    0 <= j < i ==> !on_disk.contains(#[trigger] paths[j]);
            assert forall|i: int| 0 <= i < at implies !on_disk.contains(
                path_join(#[trigger] dirs[i], name),
            ) by {
                assert(!on_disk.contains(paths[i]));
            }
            assert(is_first_in(dirs, name, on_disk, at));
        },
        None => {
            assert forall|i: int| 0 <= i < dirs.len() implies !on_disk.contains(
                path_join(#[trigger] dirs[i], name),
            ) by {
                assert(!on_disk.contains(paths[i]));
            }
        },
    }
}

/// A search for a file that waits for answers whether paths exist.
pub struct Search {
    paths: Vec<String>,
    next: usize,
    found: Option<String>,
}

impl View for Search {
    type V = SearchView;

    closed spec fn view(&self) -> SearchView {
        SearchView {
            pending: texts(self.paths@.skip(self.next as int)),
            found: match self.found {
                Some(path) => Some(path@),
                None => None,
            },
        }
    }
}

impl Search {
    #[verifier::type_invariant]
    spec fn in_range(self) -> bool {
        self.next <= self.paths.len()
    }

    /// Begins a search along a list of paths.
    pub fn along(paths: Vec<String>) -> (search: Self)
        ensures
            search@ == (SearchView { pending: texts(paths@), found: None }),
    {
        assert(paths@.skip(0) =~= paths@);
        Search { paths, next: 0, found: None }
    }

    /// The path to look at, or `None` when the search has ended.
    pub fn probe(&self) -> (path: Option<String>)
        ensures
            match path {
                Some(path) => self@.pending.len() > 0 && path@ == self@.pending.first(),
                None => self@.pending.len() == 0,
            },
    {
        proof {
            use_type_invariant(self);
        }
        if self.next < self.paths.len() {
            Some(self.paths[self.next].clone())
        } else {
            None
        }
    }

    /// Takes the answer whether the path that `probe` names exists. An answer that nothing asked
    /// for changes nothing.
    pub fn step(self, exists: bool) -> (after: Self)
        ensures
            after@ == self@.answered(exists),
    {
        proof {
            use_type_invariant(&self);
        }
        let Search { paths, next, found } = self;
        if next >= paths.len() {
            return Search { paths, next, found };
        }
        if exists {
            let end: usize = paths.len();
            let path = paths[next].clone();
            assert(texts(paths@.skip(end as int)) =~= Seq::empty());
            Search { paths, next: end, found: Some(path) }
        } else {
            assert(texts(paths@.skip(next + 1)) =~= texts(paths@.skip(next as int)).drop_first());
            Search { paths, next: next + 1, found }
        }
    }

    /// The path that was found, if one was.
    pub fn finish(self) -> (found: Option<String>)
        ensures
            self@.found == match found {
                Some(path) => Some(path@),
                None => None,
            },
    {
        self.found
    }
}

/// Begins a search for a file in a list of directories.
pub fn search_dir(dirs: &[String], name: &str) -> (search: Search)
    ensures
        search@ == (SearchView { pending: candidates(texts(dirs@), name@), found: None }),
{
    Search::along(join_each(dirs, name))
}

/// The file name of the runtime's library; the runtime is not loaded from a file on macOS.
pub open spec fn runtime_file_name(platform: Platform) -> Option<Seq<char>> {
    match platform {
        Platform::Linux => Some("libonnxruntime.so"@),
        Platform::Windows => Some("onnxruntime.dll"@),
        Platform::MacOs => None,
    }
}

/// What the runtime's library is called.
pub proof fn law_runtime_file_names()
    ensures
        runtime_file_name(Platform::Linux) == Some("libonnxruntime.so"@),
        runtime_file_name(Platform::Windows) == Some("onnxruntime.dll"@),
        runtime_file_name(Platform::MacOs) is None,
{
}

/// Begins the search for the runtime's library, on the platforms that load it from a file.
pub fn find_onnxruntime_lib(platform: Platform, exe_dir: &str, path: Option<&str>) -> (search:
    Option<Search>)
    ensures
        match (search, runtime_file_name(platform)) {
            (Some(search), Some(name)) => search@ == (SearchView {
                pending: candidates(onnxruntime_search(exe_dir@, opt_text(path)), name),
                found: None,
            }),
            (None, None) => true,
            _ => false,
        },
{
    match platform {
        Platform::Linux => Some(
            search_dir(onnxruntime_dirs(exe_dir, path).as_slice(), "libonnxruntime.so"),
        ),
        Platform::Windows => Some(
            search_dir(onnxruntime_dirs(exe_dir, path).as_slice(), "onnxruntime.dll"),
        ),
        Platform::MacOs => None,
    }
}

/// Where the loading of the CUDA libraries stands with the library in hand.
pub enum StageView {
    /// Looking for the library along the pending paths.
    Searching { pending: Seq<Seq<char>> },
    /// The library was found; its directory is to be brought into canonical form.
    Resolving { dir: Seq<char> },
    /// The library is to be loaded.
    Loading { path: Seq<char> },
    /// It is over.
    Ended { end: PreloadEnd },
}

/// How the loading of the CUDA libraries ended.
#[derive(Debug, Clone, Copy, PartialEq, Eq, Structural)]
pub enum PreloadEnd {
    /// Every library was loaded.
    Complete,
    /// A library is in none of the directories.
    NotFound,
    /// The path of a library that was found has no parent.
    NoParent,
    /// A library was found and could not be loaded.
    Rejected,
}

/// An answer to a question of the loading of the CUDA libraries.
pub enum AnswerView {
    Exists { exists: bool },
    Resolved { dir: Seq<char> },
    Loaded { loaded: bool },
}

/// The loading of the CUDA libraries in progress: the directories to look in, the libraries that
/// are not loaded yet, and the stage of the first of them.
pub struct PreloadView {
    pub dirs: Seq<Seq<char>>,
    pub libraries: Seq<Seq<char>>,
    pub stage: StageView,
}

/// The stage of a search along the given paths.
pub open spec fn searching(pending: Seq<Seq<char>>) -> StageView {
    if pending.len() == 0 {
        StageView::Ended { end: PreloadEnd::NotFound }
    } else {
        StageView::Searching { pending }
    }
}

/// The stage of a library that was found.
pub open spec fn resolving(path: Seq<char>) -> StageView {
    match path_parent(path) {
        Some(dir) => StageView::Resolving { dir },
        None => StageView::Ended { end: PreloadEnd::NoParent },
    }
}

/// The state in which the first of the libraries is taken up.
pub open spec fn preload_start(dirs: Seq<Seq<char>>, libraries: Seq<Seq<char>>) -> PreloadView {
    PreloadView {
        dirs,
        libraries,
        stage: if libraries.len() == 0 {
            StageView::Ended { end: PreloadEnd::Complete }
        } else {
            searching(candidates(dirs, libraries.first()))
        },
    }
}

impl PreloadView {
    /// Takes an answer. One that the stage did not ask for changes nothing.
    pub open spec fn answered(self, answer: AnswerView) -> PreloadView {
        match (self.stage, answer) {
            (StageView::Searching { pending }, AnswerView::Exists { exists }) => PreloadView {
                stage: if exists {
                    resolving(pending.first())
                } else {
                    searching(pending.drop_first())
                },
                ..self
            },
            (StageView::Resolving { .. }, AnswerView::Resolved { dir }) => PreloadView {
                stage: StageView::Loading { path: path_join(dir, self.libraries.first()) },
                ..self
            },
            (StageView::Loading { .. }, AnswerView::Loaded { loaded }) => if loaded {
                preload_start(self.dirs, self.libraries.drop_first())
            } else {
                PreloadView { stage: StageView::Ended { end: PreloadEnd::Rejected }, ..self }
            },
            _ => self,
        }
    }

    /// How far the stage is from the end of the library in hand.
    pub open spec fn steps_left(self) -> nat {
        match self.stage {
            StageView::Searching { pending } => pending.len() + 2,
            StageView::Resolving { .. } => 2,
            StageView::Loading { .. } => 1,
            StageView::Ended { .. } => 0,
        }
    }

    /// Whether the stage belongs to a library in hand.
    pub open spec fn well_formed(self) -> bool {
        match self.stage {
            StageView::Searching { pending } => self.libraries.len() > 0 && pending.len() > 0,
            StageView::Resolving { .. } | StageView::Loading { .. } => self.libraries.len() > 0,
            StageView::Ended { .. } => true,
        }
    }

    /// What is left when every question is answered from one machine.
    pub open spec fn driven(self, machine: Machine) -> PreloadView
        decreases self.libraries.len(), self.steps_left(),
        when self.well_formed()
    {
        match self.stage {
            StageView::Searching { pending } => self.answered(
                AnswerView::Exists { exists: machine.on_disk.contains(pending.first()) },
            ).driven(machine),
            StageView::Resolving { dir } => self.answered(
                AnswerView::Resolved { dir: (machine.canonical)(dir) },
            ).driven(machine),
            StageView::Loading { path } => self.answered(
                AnswerView::Loaded { loaded: machine.loadable.contains(path) },
            ).driven(machine),
            StageView::Ended { .. } => self,
        }
    }

    /// The paths that are handed over for loading, in order, when every question is answered from
    /// one machine.
    pub open spec fn loads(self, machine: Machine) -> Seq<Seq<char>>
        decreases self.libraries.len(), self.steps_left(),
        when self.well_formed()
    {
        match self.stage {
            StageView::Searching { pending } => self.answered(
                AnswerView::Exists { exists: machine.on_disk.contains(pending.first()) },
            ).loads(machine),
            StageView::Resolving { dir } => self.answered(
                AnswerView::Resolved { dir: (machine.canonical)(dir) },
            ).loads(machine),
            StageView::Loading { path } => seq![path] + self.answered(
                AnswerView::Loaded { loaded: machine.loadable.contains(path) },
            ).loads(machine),
            StageView::Ended { .. } => Seq::empty(),
        }
    }
}

/// What a machine answers: which paths exist, the canonical form of each directory, and which
/// paths can be loaded.
pub struct Machine {
    pub on_disk: Set<Seq<char>>,
    pub canonical: spec_fn(Seq<char>) -> Seq<char>,
    pub loadable: Set<Seq<char>>,
}

/// Where one library is loaded from on a machine, or how the loading ends before that: in the
/// canonical form of the directory of the first path that exists.
pub open spec fn load_path(
    dirs: Seq<Seq<char>>,
    library: Seq<char>,
    machine: Machine,
) -> Result<Seq<char>, PreloadEnd> {
    match first_existing(candidates(dirs, library), machine.on_disk) {
        None => Err(PreloadEnd::NotFound),
        Some(found) => match path_parent(found) {
            None => Err(PreloadEnd::NoParent),
            Some(dir) => Ok(path_join((machine.canonical)(dir), library)),
        },
    }
}

/// How one library fares on a machine: the path it is loaded from, or how the loading ends.
pub open spec fn library_path(
    dirs: Seq<Seq<char>>,
    library: Seq<char>,
    machine: Machine,
) -> Result<Seq<char>, PreloadEnd> {
    match load_path(dirs, library, machine) {
        Ok(path) => if machine.loadable.contains(path) {
            Ok(path)
        } else {
            Err(PreloadEnd::Rejected)
        },
        Err(end) => Err(end),
    }
}

/// How many libraries are loaded before one fares badly.
pub open spec fn loaded_count(
    dirs: Seq<Seq<char>>,
    libraries: Seq<Seq<char>>,
    machine: Machine,
) -> nat
    decreases libraries.len(),
{
    if libraries.len() == 0 || library_path(dirs, libraries.first(), machine) is Err {
        0
    } else {
        1 + loaded_count(dirs, libraries.drop_first(), machine)
    }
}

/// The paths that are handed over for loading: those of the libraries that are loaded, and that of
/// the next one where it was found and could not be loaded.
pub open spec fn load_paths(
    dirs: Seq<Seq<char>>,
    libraries: Seq<Seq<char>>,
    machine: Machine,
) -> Seq<Seq<char>> {
    let k = loaded_count(dirs, libraries, machine) as int;
    let loaded = libraries.take(k).map_values(
        |library: Seq<char>| load_path(dirs, library, machine)->Ok_0,
    );
    if k < libraries.len() && library_path(dirs, libraries[k], machine) == Err::<
        Seq<char>,
        PreloadEnd,
    >(PreloadEnd::Rejected) {
        loaded.push(load_path(dirs, libraries[k], machine)->Ok_0)
    } else {
        loaded
    }
}

proof fn lemma_driven_search(state: PreloadView, pending: Seq<Seq<char>>, machine: Machine)
    requires
        state.libraries.len() > 0,
    ensures
        ({
            let begun = PreloadView { stage: searching(pending), ..state };
            let searched = PreloadView {
                stage: match first_existing(pending, machine.on_disk) {
                    Some(found) => resolving(found),
                    None => StageView::Ended { end: PreloadEnd::NotFound },
                },
                ..state
            };
            &&& begun.driven(machine) == searched.driven(machine)
            &&& begun.loads(machine) == searched.loads(machine)
        }),
    decreases pending.len(),
{
    if pending.len() > 0 && !machine.on_disk.contains(pending.first()) {
        lemma_driven_search(state, pending.drop_first(), machine);
    }
}

/// The libraries that count as loaded fare well, and the one after them, if there is one, does
/// not.
pub proof fn law_loaded_count(
    dirs: Seq<Seq<char>>,
    libraries: Seq<Seq<char>>,
    machine: Machine,
)
    ensures
        ({
            let k = loaded_count(dirs, libraries, machine) as int;
            &&& 0 <= k <= libraries.len()
            &&& forall|i: int|
                0 <= i < k ==> library_path(dirs, #[trigger] libraries[i], machine) is Ok
            &&& k < libraries.len() ==> library_path(dirs, libraries[k], machine) is Err
        }),
    decreases libraries.len(),
{
    if libraries.len() > 0 && library_path(dirs, libraries.first(), machine) is Ok {
        let rest = libraries.drop_first();
        law_loaded_count(dirs, rest, machine);
        let k = loaded_count(dirs, libraries, machine) as int;
        assert forall|i: int| 0 <= i < k implies library_path(
            dirs,
            #[trigger] libraries[i],
            machine,
        ) is Ok by {
            if i > 0 {
                assert(rest[i - 1] == libraries[i]);
            }
        }
        if k < libraries.len() {
            assert(rest[k - 1] == libraries[k]);
        }
    }
}

/// Answering every question from one machine loads the libraries in order from their paths, up to
/// the first that fares badly: the loading ends as that library does, with it and those after it
/// not loaded, and is complete where there is no such library. Nothing else is handed over for
/// loading.
pub proof fn law_preload_loads_in_order(
    dirs: Seq<Seq<char>>,
    libraries: Seq<Seq<char>>,
    machine: Machine,
)
    ensures
        ({
            let start = preload_start(dirs, libraries);
            let end = start.driven(machine);
            let k = loaded_count(dirs, libraries, machine) as int;
            &&& start.loads(machine) == load_paths(dirs, libraries, machine)
            &&& end.libraries == libraries.skip(k)
            &&& end.stage == (StageView::Ended {
                end: if k == libraries.len() {
                    PreloadEnd::Complete
                } else {
                    library_path(dirs, libraries[k], machine)->Err_0
                },
            })
        }),
    decreases libraries.len(),
{
    let start = preload_start(dirs, libraries);
    let end = start.driven(machine);
    law_loaded_count(dirs, libraries, machine);
    let k = loaded_count(dirs, libraries, machine) as int;
    if libraries.len() == 0 {
        assert(libraries.skip(0) =~= libraries);
        assert(load_paths(dirs, libraries, machine) =~= Seq::empty());
    } else {
        let library = libraries.first();
        let paths = candidates(dirs, library);
        lemma_driven_search(start, paths, machine);
        let rest = libraries.drop_first();
        law_preload_loads_in_order(dirs, rest, machine);
        law_loaded_count(dirs, rest, machine);
        assert(libraries.skip(0) =~= libraries);
        match load_path(dirs, library, machine) {
            Ok(path) => {
                let dir = path_parent(first_existing(paths, machine.on_disk)->0)->0;
                let resolving = PreloadView { stage: StageView::Resolving { dir }, ..start };
                let loading = PreloadView { stage: StageView::Loading { path }, ..start };
                assert(resolving.driven(machine) == loading.driven(machine));
                assert(resolving.loads(machine) == loading.loads(machine));
                let loaded = machine.loadable.contains(path);
                let next = loading.answered(AnswerView::Loaded { loaded });
                assert(loading.driven(machine) == next.driven(machine));
                assert(loading.loads(machine) == seq![path] + next.loads(machine));
                if loaded {
                    assert(next == preload_start(dirs, rest));
                    assert(rest.skip(k - 1) =~= libraries.skip(k));
                    if k < libraries.len() {
                        assert(rest[k - 1] == libraries[k]);
                    }
                    assert(load_paths(dirs, libraries, machine) =~= seq![path] + load_paths(
                        dirs,
                        rest,
                        machine,
                    ));
                } else {
                    assert(next.driven(machine) == next);
                    assert(load_paths(dirs, libraries, machine) =~= seq![path]);
                    assert(loading.loads(machine) =~= seq![path]);
                }
            },
            Err(_) => {
                assert(load_paths(dirs, libraries, machine) =~= Seq::empty());
            },
        }
    }
}

/// An answer to a question that was not asked changes nothing, and none changes the directories. A
/// library that was loaded is not looked at again, and one that could not be loaded ends it all.
pub proof fn law_preload_answer(state: PreloadView, dir: Seq<char>, yes: bool)
    ensures
        ({
            let exists = state.answered(AnswerView::Exists { exists: yes });
            let resolved = state.answered(AnswerView::Resolved { dir });
            let loaded = state.answered(AnswerView::Loaded { loaded: yes });
            &&& !(state.stage is Searching) ==> exists == state
            &&& !(state.stage is Resolving) ==> resolved == state
            &&& !(state.stage is Loading) ==> loaded == state
            &&& exists.dirs == state.dirs && resolved.dirs == state.dirs && loaded.dirs
                == state.dirs
            &&& exists.libraries == state.libraries && resolved.libraries == state.libraries
            &&& state.stage is Resolving ==> resolved.stage == (StageView::Loading {
                path: path_join(dir, state.libraries.first()),
            })
            &&& state.stage is Loading && yes ==> loaded.libraries == state.libraries.drop_first()
            &&& state.stage is Loading && !yes ==> loaded.libraries == state.libraries
                && loaded.stage == (StageView::Ended { end: PreloadEnd::Rejected })
        }),
{
}

/// Whether a path is that of a library under its whole name, in the canonical form of the directory
/// of the place where the library is found: the first directory of a list that has it.
pub open spec fn is_where_found(
    dirs: Seq<Seq<char>>,
    library: Seq<char>,
    machine: Machine,
    path: Seq<char>,
) -> bool {
    exists|at: int| #[trigger]
        is_first_in(dirs, library, machine.on_disk, at) && path_parent(
            path_join(dirs[at], library),
        ) is Some && path == path_join(
            (machine.canonical)(path_parent(path_join(dirs[at], library))->0),
            library,
        )
}

proof fn lemma_load_path(dirs: Seq<Seq<char>>, library: Seq<char>, machine: Machine)
    ensures
        match load_path(dirs, library, machine) {
            Ok(path) => is_where_found(dirs, library, machine, path),
            Err(PreloadEnd::NotFound) => forall|i: int|
                0 <= i < dirs.len() ==> !machine.on_disk.contains(
                    path_join(#[trigger] dirs[i], library),
                ),
            Err(PreloadEnd::NoParent) => exists|at: int| #[trigger]
                is_first_in(dirs, library, machine.on_disk, at) && path_parent(
                    path_join(dirs[at], library),
                ) is None,
            Err(_) => false,
        },
{
    law_file_is_found_in_first_directory(dirs, library, machine.on_disk);
    law_search_finds_first(candidates(dirs, library), machine.on_disk);
}

/// What is loaded is what was looked for: the i-th path that is handed over is the i-th library
/// under its whole name, in the canonical form of the directory of the place where it was found,
/// which is the first directory that has it. All of these could be loaded, but for the last where
/// the loading was rejected. The loading is complete where no library is left; otherwise the next
/// one is in no directory, or was found where there is no parent.
pub proof fn law_preload_loads_what_was_found(
    dirs: Seq<Seq<char>>,
    libraries: Seq<Seq<char>>,
    machine: Machine,
)
    ensures
        ({
            let loads = preload_start(dirs, libraries).loads(machine);
            let stage = preload_start(dirs, libraries).driven(machine).stage;
            let n = loads.len() as int;
            let good = n == 0 || machine.loadable.contains(loads[n - 1]);
            &&& n <= libraries.len()
            &&& forall|i: int|
                0 <= i < n ==> is_where_found(dirs, libraries[i], machine, #[trigger] loads[i])
            &&& forall|i: int| 0 <= i < n - 1 ==> machine.loadable.contains(#[trigger] loads[i])
            &&& stage is Ended
            &&& match stage->end {
                PreloadEnd::Complete => n == libraries.len() && good,
                PreloadEnd::Rejected => !good,
                PreloadEnd::NotFound => n < libraries.len() && good && forall|i: int|
                    0 <= i < dirs.len() ==> !machine.on_disk.contains(
                        path_join(#[trigger] dirs[i], libraries[n]),
                    ),
                PreloadEnd::NoParent => n < libraries.len() && good && exists|at: int| #[trigger]
                    is_first_in(dirs, libraries[n], machine.on_disk, at) && path_parent(
                        path_join(dirs[at], libraries[n]),
                    ) is None,
            }
        }),
{
    law_preload_loads_in_order(dirs, libraries, machine);
    law_loaded_count(dirs, libraries, machine);
    let k = loaded_count(dirs, libraries, machine) as int;
    let loads = load_paths(dirs, libraries, machine);
    let n = loads.len() as int;
    assert forall|i: int| 0 <= i < n implies is_where_found(
        dirs,
        libraries[i],
        machine,
        #[trigger] loads[i],
    ) by {
        if i < k {
            assert(library_path(dirs, libraries[i], machine) is Ok);
        }
        lemma_load_path(dirs, libraries[i], machine);
        assert(loads[i] == load_path(dirs, libraries[i], machine)->Ok_0);
    }
    assert forall|i: int| 0 <= i < k implies machine.loadable.contains(#[trigger] loads[i]) by {
        assert(library_path(dirs, libraries[i], machine) is Ok);
        assert(loads[i] == load_path(dirs, libraries[i], machine)->Ok_0);
    }
    if k > 0 {
        assert(machine.loadable.contains(loads[k - 1]));
    }
    if k < libraries.len() {
        lemma_load_path(dirs, libraries[k], machine);
        if library_path(dirs, libraries[k], machine)->Err_0 == PreloadEnd::Rejected {
            assert(loads[k] == load_path(dirs, libraries[k], machine)->Ok_0);
            assert(n == k + 1);
        } else {
            assert(n == k);
        }
    }
}

enum Stage {
    Searching(Search),
    Resolving(String),
    Loading(String),
    Ended(PreloadEnd),
}

impl Stage {
    spec fn in_view(self) -> StageView {
        match self {
            Stage::Searching(search) => StageView::Searching { pending: search@.pending },
            Stage::Resolving(dir) => StageView::Resolving { dir: dir@ },
            Stage::Loading(path) => StageView::Loading { path: path@ },
            Stage::Ended(end) => StageView::Ended { end },
        }
    }

    fn searching(search: Search) -> (stage: Stage)
        ensures
            stage.in_view() == searching(search@.pending),
    {
        match search.probe() {
            Some(_) => Stage::Searching(search),
            None => Stage::Ended(PreloadEnd::NotFound),
        }
    }

    fn resolving(path: &str) -> (stage: Stage)
        ensures
            stage.in_view() == resolving(path@),
    {
        match parent_path(path) {
            Some(dir) => Stage::Resolving(dir),
            None => Stage::Ended(PreloadEnd::NoParent),
        }
    }

    fn starting(dirs: &Vec<String>, libraries: &Vec<String>, next: usize) -> (stage: Stage)
        requires
            next <= libraries.len(),
        ensures
            stage.in_view() == preload_start(
                texts(dirs@),
                texts(libraries@.skip(next as int)),
            ).stage,
    {
        if next == libraries.len() {
            Stage::Ended(PreloadEnd::Complete)
        } else {
            assert(texts(libraries@.skip(next as int)).first() == libraries@[next as int]@);
            Stage::searching(search_dir(dirs.as_slice(), libraries[next].as_str()))
        }
    }
}

/// What to do next for the CUDA libraries.
pub enum PreloadAction {
    /// Find out whether a path exists.
    Probe(String),
    /// Bring a directory into canonical form.
    Resolve(String),
    /// Load a library.
    Load(String),
    /// Stop.
    Stop(PreloadEnd),
}

/// The answer to an action.
pub enum PreloadAnswer {
    Exists(bool),
    Resolved(String),
    Loaded(bool),
}

impl PreloadAnswer {
    /// The answer with texts for strings.
    pub open spec fn in_view(self) -> AnswerView {
        match self {
            PreloadAnswer::Exists(exists) => AnswerView::Exists { exists },
            PreloadAnswer::Resolved(dir) => AnswerView::Resolved { dir: dir@ },
            PreloadAnswer::Loaded(loaded) => AnswerView::Loaded { loaded },
        }
    }
}

/// An answer is taken as it is given.
pub proof fn law_preload_answers(dir: String, yes: bool)
    ensures
        PreloadAnswer::Exists(yes).in_view() == (AnswerView::Exists { exists: yes }),
        PreloadAnswer::Resolved(dir).in_view() == (AnswerView::Resolved { dir: dir@ }),
        PreloadAnswer::Loaded(yes).in_view() == (AnswerView::Loaded { loaded: yes }),
{
}

/// The loading of the CUDA libraries ahead of the runtime.
pub struct Preload {
    dirs: Vec<String>,
    libraries: Vec<String>,
    next: usize,
    stage: Stage,
}

impl View for Preload {
    type V = PreloadView;

    closed spec fn view(&self) -> PreloadView {
        PreloadView {
            dirs: texts(self.dirs@),
            libraries: texts(self.libraries@.skip(self.next as int)),
            stage: self.stage.in_view(),
        }
    }
}

impl Preload {
    #[verifier::type_invariant]
    spec fn in_range(self) -> bool {
        &&& self.next <= self.libraries.len()
        &&& self@.well_formed()
    }

    /// What to do next.
    pub fn action(&self) -> (action: PreloadAction)
        ensures
            match (action, self@.stage) {
                (PreloadAction::Probe(path), StageView::Searching { pending }) => pending.len() > 0
                    && path@ == pending.first(),
                (PreloadAction::Resolve(path), StageView::Resolving { dir }) => path@ == dir,
                (PreloadAction::Load(file), StageView::Loading { path }) => file@ == path,
                (PreloadAction::Stop(how), StageView::Ended { end }) => how == end,
                _ => false,
            },
    {
        proof {
            use_type_invariant(self);
        }
        match &self.stage {
            Stage::Searching(search) => match search.probe() {
                Some(path) => PreloadAction::Probe(path),
                None => PreloadAction::Stop(PreloadEnd::NotFound),
            },
            Stage::Resolving(dir) => PreloadAction::Resolve(dir.clone()),
            Stage::Loading(path) => PreloadAction::Load(path.clone()),
            Stage::Ended(end) => PreloadAction::Stop(*end),
        }
    }

    /// Takes the answer to the action. An answer to another action changes nothing. What is loaded
    /// from a directory is the library that was looked for, under its whole name.
    pub fn step(self, answer: PreloadAnswer) -> (after: Self)
        ensures
            after@ == self@.answered(answer.in_view()),
            match (self@.stage, answer) {
                (StageView::Resolving { .. }, PreloadAnswer::Resolved(dir)) => match after@.stage {
                    StageView::Loading { path } => is_rootless(self@.libraries.first())
                        && !is_verbatim(dir@) ==> is_extended(
                        dir@,
                        self@.libraries.first(),
                        path,
                    ),
                    _ => false,
                },
                _ => true,
            },
    {
        proof {
            use_type_invariant(&self);
        }
        let Preload { dirs, libraries, next, stage } = self;
        let ghost left = texts(libraries@.skip(next as int));
        match (stage, answer) {
            (Stage::Searching(search), PreloadAnswer::Exists(exists)) => {
                let stage = if exists {
                    match search.probe() {
                        Some(path) => Stage::resolving(path.as_str()),
                        None => Stage::Searching(search),
                    }
                } else {
                    Stage::searching(search.step(false))
                };
                Preload { dirs, libraries, next, stage }
            },
            (Stage::Resolving(_), PreloadAnswer::Resolved(dir)) => {
                assert(left.first() == libraries@[next as int]@);
                let path = join_path(dir.as_str(), libraries[next].as_str());
                Preload { dirs, libraries, next, stage: Stage::Loading(path) }
            },
            (Stage::Loading(path), PreloadAnswer::Loaded(loaded)) => {
                if loaded {
                    let stage = Stage::starting(&dirs, &libraries, next + 1);
                    assert(texts(libraries@.skip(next + 1)) =~= left.drop_first());
                    Preload { dirs, libraries, next: next + 1, stage }
                } else {
                    Preload { dirs, libraries, next, stage: Stage::Ended(PreloadEnd::Rejected) }
                }
            },
            (stage, _) => Preload { dirs, libraries, next, stage },
        }
    }
}

/// Begins the loading of the CUDA libraries and then the cuDNN ones, each looked for in the
/// directories in order.
pub fn preload_cuda(dirs: Vec<String>, cuda: Vec<String>, cudnn: Vec<String>) -> (preload: Preload)
    ensures
        preload@ == preload_start(texts(dirs@), texts(cuda@) + texts(cudnn@)),
{
    let mut libraries: Vec<String> = cuda;
    let mut i: usize = 0;
    while i < cudnn.len()
        invariant
            i <= cudnn.len(),
            texts(libraries@) == texts(cuda@) + texts(cudnn@.take(i as int)),
        decreases cudnn.len() - i,
    {
        let ghost before = texts(libraries@);
        libraries.push(cudnn[i].clone());
        assert(texts(libraries@) =~= before.push(cudnn@[i as int]@));
        assert(texts(cudnn@.take(i + 1)) =~= texts(cudnn@.take(i as int)).push(
            cudnn@[i as int]@,
        ));
        assert(texts(libraries@) =~= texts(cuda@) + texts(cudnn@.take(i + 1)));
        i += 1;
    }
    assert(cudnn@.take(i as int) =~= cudnn@);
    assert(libraries@.skip(0) =~= libraries@);
    let stage = Stage::starting(&dirs, &libraries, 0);
    Preload { dirs, libraries, next: 0, stage }
}

/// Whether the CUDA libraries are wanted ahead of the runtime in a mode.
pub fn should_preload_cuda(mode: ExecutionMode) -> (wanted: bool)
    ensures
        wanted == (mode == ExecutionMode::Cuda || mode == ExecutionMode::Fallback),
{
    match mode {
        ExecutionMode::Cuda | ExecutionMode::Fallback => true,
        _ => false,
    }
}

/// Where the runtime comes from.
#[derive(Debug, Clone, Copy, PartialEq, Eq, Structural)]
pub enum RuntimeSource {
    /// A library that is looked for and loaded.
    Library,
    /// The program itself.
    Linked,
}

/// How the runtime is started.
#[derive(Debug, Clone, Copy, PartialEq, Eq, Structural)]
pub struct RuntimePlan {
    /// Whether the CUDA libraries are loaded first.
    pub preload_cuda: bool,
    pub source: RuntimeSource,
    pub inter_threads: usize,
    pub intra_threads: usize,
}

/// How the runtime is started on a platform: with two threads between operators and two inside
/// them; only on macOS it is neither loaded from a library nor preceded by CUDA.
pub open spec fn runtime_plan(platform: Platform, preload_cuda: bool) -> RuntimePlan {
    RuntimePlan {
        preload_cuda: preload_cuda && platform != Platform::MacOs,
        source: if platform == Platform::MacOs {
            RuntimeSource::Linked
        } else {
            RuntimeSource::Library
        },
        inter_threads: 2,
        intra_threads: 2,
    }
}

/// Plans how the runtime is started.
pub fn setup_onnxruntime(platform: Platform, should_preload_cuda: bool) -> (plan: RuntimePlan)
    ensures
        plan == runtime_plan(platform, should_preload_cuda),
{
    match platform {
        Platform::MacOs => RuntimePlan {
            preload_cuda: false,
            source: RuntimeSource::Linked,
            inter_threads: 2,
            intra_threads: 2,
        },
        _ => RuntimePlan {
            preload_cuda: should_preload_cuda,
            source: RuntimeSource::Library,
            inter_threads: 2,
            intra_threads: 2,
        },
    }
}

/// The CUDA libraries are loaded first only where that is wanted and the runtime comes from a
/// library, which it does everywhere but on macOS; the runtime always gets two threads between
/// operators and two inside them.
pub proof fn law_runtime_plan(platform: Platform, preload_cuda: bool)
    ensures
        ({
            let plan = runtime_plan(platform, preload_cuda);
            &&& plan.preload_cuda <==> preload_cuda && plan.source == RuntimeSource::Library
            &&& plan.source == RuntimeSource::Library <==> platform != Platform::MacOs
            &&& plan.inter_threads == 2
            &&& plan.intra_threads == 2
        }),
{
}

/// The CUDA libraries are loaded first exactly where the set-up of the providers considers CUDA,
/// and a library is looked for exactly where the runtime comes from one.
pub proof fn law_preload_matches_providers(platform: Platform, mode: ExecutionMode)
    ensures
        runtime_plan(
            platform,
            mode == ExecutionMode::Cuda || mode == ExecutionMode::Fallback,
        ).preload_cuda == (platform_order(platform).contains(Provider::Cuda) && wanted(
            mode,
            Provider::Cuda,
        )),
        forall|preload: bool|
            (#[trigger] runtime_plan(platform, preload)).source == RuntimeSource::Library
                <==> runtime_file_name(platform) is Some,
{
    if platform != Platform::MacOs {
        assert(platform_order(platform)[0] == Provider::Cuda);
    }
}

} // verus!
