//! Repository context: where a repository's `HEAD` file lies, and which
//! branch it names.
//!
//! The search for a repository walks from a directory towards the root and
//! looks at the entry named `.git` in each directory. Looking at the file
//! system is the caller's part: [`AnchorWalk`] says which entry to look at
//! next, takes what was seen there as a [`GitEntry`], and decides whether
//! the search is over.

use crate::path::{
    components_of, is_absolute, is_component, join_path, joined_path, lemma_components_are_names,
    lemma_join_adds_component, lemma_normalized_are_names, lemma_split_of_path_text, normalize,
    normalized, normalized_components, path_is_absolute, path_text, path_to, split_components,
};
use crate::text::{
    find_char, from_chars, has_prefix_at, is_blank, is_space, lemma_trimmed_padding, position_of,
    to_chars, trim_range, trimmed,
};
use vstd::prelude::*;

verus! {

/// What a directory holds under the name `.git`.
#[derive(Debug)]
pub enum GitEntry {
    /// No such entry.
    Missing,
    /// A directory: the repository's own git directory.
    Directory,
    /// A regular file with the given contents: the pointer of a linked
    /// worktree.
    File(String),
    /// A regular file that could not be read.
    Unreadable,
}

/// A repository found by the search.
#[derive(Debug)]
pub struct Anchor {
    /// How many leading components of the path lead to the directory that
    /// holds `.git`.
    pub depth: usize,
    /// The location of the repository's `HEAD` file.
    pub head: String,
}

/// The mathematical content of an [`Anchor`].
pub struct AnchorView {
    pub depth: nat,
    pub head: Seq<char>,
}

impl View for Anchor {
    type V = AnchorView;

    open spec fn view(&self) -> AnchorView {
        AnchorView { depth: self.depth as nat, head: self.head@ }
    }
}

/// An optional anchor, by its content.
pub open spec fn anchor_view(anchor: Option<Anchor>) -> Option<AnchorView> {
    match anchor {
        Some(a) => Some(a@),
        None => None,
    }
}

/// The name of the entry that marks a repository.
pub open spec fn git_entry_name() -> Seq<char> {
    ".git"@
}

/// The name of the file that names the current branch.
pub open spec fn head_file_name() -> Seq<char> {
    "HEAD"@
}

/// The key that precedes the git directory in a worktree pointer.
pub open spec fn gitdir_key() -> Seq<char> {
    "gitdir:"@
}

/// What precedes the branch name in a `HEAD` file.
pub open spec fn branch_ref_prefix() -> Seq<char> {
    "ref: refs/heads/"@
}

/// The git directory that a worktree pointer names: the trimmed value of
/// its first line that, once trimmed, begins with `gitdir:`. Lines end at
/// a line feed.
pub open spec fn gitdir_of(contents: Seq<char>) -> Option<Seq<char>>
    decreases contents.len(),
{
    let n = position_of(contents, '\n');
    let line = trimmed(contents.take(n as int));
    if gitdir_key().is_prefix_of(line) {
        Some(trimmed(line.skip(gitdir_key().len() as int)))
    } else if n < contents.len() {
        gitdir_of(contents.skip((n + 1) as int))
    } else {
        None
    }
}

/// The `HEAD` file of the git directory `gitdir`, which a pointer in
/// directory `dir` names: a relative `gitdir` is taken from `dir`, and the
/// git directory is normalized before the file's name is adjoined.
pub open spec fn head_in(dir: Seq<char>, gitdir: Seq<char>) -> Seq<char> {
    let base = if is_absolute(gitdir) {
        gitdir
    } else {
        joined_path(dir, gitdir)
    };
    joined_path(normalized(base), head_file_name())
}

/// The `HEAD` file that the `.git` entry of directory `dir` leads to, if
/// the entry leads to one.
pub open spec fn head_at(dir: Seq<char>, entry: GitEntry) -> Option<Seq<char>> {
    match entry {
        GitEntry::Directory => Some(
            joined_path(joined_path(dir, git_entry_name()), head_file_name()),
        ),
        GitEntry::File(contents) => match gitdir_of(contents@) {
            Some(gitdir) => Some(head_in(dir, gitdir)),
            None => None,
        },
        _ => None,
    }
}

/// The branch that the contents of a `HEAD` file name, unless it is one of
/// the default branches `master` and `main`. A detached `HEAD` names none.
pub open spec fn branch_of(head: Seq<char>) -> Option<Seq<char>> {
    let text = trimmed(head);
    if branch_ref_prefix().is_prefix_of(text) {
        let name = trimmed(text.skip(branch_ref_prefix().len() as int));
        if name.len() == 0 || name == "master"@ || name == "main"@ {
            None
        } else {
            Some(name)
        }
    } else {
        None
    }
}

/// The state of a search for the repository that holds a path.
pub struct WalkState {
    /// Whether the path starts at the root.
    pub absolute: bool,
    /// The components of the path.
    pub components: Seq<Seq<char>>,
    /// How many leading components lead to the directory to look at next.
    pub depth: nat,
    /// `None` while the search goes on, then what it found.
    pub outcome: Option<Option<AnchorView>>,
}

impl WalkState {
    /// The state before anything was looked at.
    pub open spec fn start(path: Seq<char>) -> WalkState {
        WalkState {
            absolute: is_absolute(path),
            components: components_of(path),
            depth: components_of(path).len(),
            outcome: None,
        }
    }

    /// The directory that the first `depth` components of the path lead
    /// to.
    pub open spec fn directory_at(self, depth: nat) -> Seq<char> {
        path_text(self.absolute, self.components.take(depth as int))
    }

    /// The directory to look at next.
    pub open spec fn directory(self) -> Seq<char> {
        self.directory_at(self.depth)
    }

    /// The state after `entry` was seen in the directory to look at.
    pub open spec fn observed(self, entry: GitEntry) -> WalkState {
        if self.outcome is Some {
            self
        } else if entry is Missing {
            if self.depth == 0 {
                WalkState { outcome: Some(None), ..self }
            } else {
                WalkState { depth: (self.depth - 1) as nat, ..self }
            }
        } else {
            let found = match head_at(self.directory(), entry) {
                Some(head) => Some(AnchorView { depth: self.depth, head }),
                None => None,
            };
            WalkState { outcome: Some(found), ..self }
        }
    }

    /// What the search ends with where every directory holds what `world`
    /// says: the nearest directory, from the one to look at next towards
    /// the root, whose entry is not missing decides.
    pub open spec fn answer(self, world: spec_fn(Seq<char>) -> GitEntry) -> Option<AnchorView>
        decreases self.depth,
    {
        match self.outcome {
            Some(found) => found,
            None => {
                let entry = world(self.directory());
                if !(entry is Missing) {
                    match head_at(self.directory(), entry) {
                        Some(head) => Some(AnchorView { depth: self.depth, head }),
                        None => None,
                    }
                } else if self.depth > 0 {
                    WalkState { depth: (self.depth - 1) as nat, ..self }.answer(world)
                } else {
                    None
                }
            },
        }
    }
}

/// Looking at the directory that the search asks for, and telling it what
/// is there, does not change what the search ends with.
pub proof fn lemma_observation_keeps_answer(state: WalkState, world: spec_fn(Seq<char>) -> GitEntry)
    requires
        state.outcome is None,
    ensures
        state.observed(world(state.directory())).answer(world) == state.answer(world),
{
}

/// A step either ends the search or moves it one directory up, and never
/// changes the path.
pub proof fn lemma_observation_makes_progress(state: WalkState, entry: GitEntry)
    requires
        state.outcome is None,
    ensures
        state.observed(entry).absolute == state.absolute,
        state.observed(entry).components == state.components,
        state.observed(entry).outcome is Some || state.observed(entry).depth + 1 == state.depth,
{
}

/// The directories that a search looks at are the ancestors of the path it
/// started from: the one at depth `depth` has the first `depth` components
/// of the path, and starts at the root exactly where the path does.
pub proof fn lemma_directories_are_ancestors(path: Seq<char>, depth: nat)
    requires
        depth <= components_of(path).len(),
    ensures
        components_of(WalkState::start(path).directory_at(depth)) == components_of(path).take(
            depth as int,
        ),
        is_absolute(WalkState::start(path).directory_at(depth)) == is_absolute(path),
{
    lemma_components_are_names(path);
    lemma_split_of_path_text(is_absolute(path), components_of(path).take(depth as int));
}

/// The `HEAD` file of a linked worktree lies in the git directory without
/// its detours: the components of its location are the normalized
/// components of the git directory that the pointer names, and `HEAD`.
pub proof fn lemma_worktree_head_is_normalized(dir: Seq<char>, gitdir: Seq<char>)
    ensures
        ({
            let base = if is_absolute(gitdir) {
                gitdir
            } else {
                joined_path(dir, gitdir)
            };
            &&& components_of(head_in(dir, gitdir)) == normalized_components(
                is_absolute(base),
                components_of(base),
            ).push(head_file_name())
            &&& is_absolute(head_in(dir, gitdir)) == is_absolute(base)
        }),
{
    let base = if is_absolute(gitdir) {
        gitdir
    } else {
        joined_path(dir, gitdir)
    };
    let plain = normalized_components(is_absolute(base), components_of(base));
    reveal_strlit("HEAD");
    assert(is_component(head_file_name())) by {
        assert(head_file_name() =~= seq!['H', 'E', 'A', 'D']);
    }
    lemma_components_are_names(base);
    lemma_normalized_are_names(is_absolute(base), components_of(base));
    lemma_join_adds_component(is_absolute(base), plain, head_file_name());
    let all = plain.push(head_file_name());
    assert forall|i: int| 0 <= i < all.len() implies is_component(#[trigger] all[i]) by {
        if i < plain.len() {
            assert(all[i] == plain[i]);
        }
    }
    lemma_split_of_path_text(is_absolute(base), all);
}

/// The nearest directory whose `.git` entry is not missing decides the
/// search: it ends with the `HEAD` file that this entry leads to, or with
/// nothing where the entry leads to none. Directories further up are not
/// asked.
pub proof fn lemma_nearest_entry_decides(
    state: WalkState,
    world: spec_fn(Seq<char>) -> GitEntry,
    near: nat,
)
    requires
        state.outcome is None,
        near <= state.depth,
        !(world(state.directory_at(near)) is Missing),
        forall|d: nat| near < d <= state.depth ==> world(#[trigger] state.directory_at(d)) is Missing,
    ensures
        state.answer(world) == (match head_at(
            state.directory_at(near),
            world(state.directory_at(near)),
        ) {
            Some(head) => Some(AnchorView { depth: near, head }),
            None => None,
        }),
    decreases state.depth,
{
    if near < state.depth {
        let next = state.observed(world(state.directory()));
        assert forall|d: nat| near < d <= next.depth implies world(
            #[trigger] next.directory_at(d),
        ) is Missing by {
            assert(next.directory_at(d) == state.directory_at(d));
        }
        lemma_nearest_entry_decides(next, world, near);
    }
}

/// Where no directory from the start to the root has a `.git` entry, the
/// search ends with nothing.
pub proof fn lemma_no_entry_no_anchor(state: WalkState, world: spec_fn(Seq<char>) -> GitEntry)
    requires
        state.outcome is None,
        forall|d: nat| d <= state.depth ==> world(#[trigger] state.directory_at(d)) is Missing,
    ensures
        state.answer(world) is None,
    decreases state.depth,
{
    if state.depth > 0 {
        let next = state.observed(world(state.directory()));
        assert forall|d: nat| d <= next.depth implies world(
            #[trigger] next.directory_at(d),
        ) is Missing by {
            assert(next.directory_at(d) == state.directory_at(d));
        }
        lemma_no_entry_no_anchor(next, world);
    }
}

/// A `HEAD` file that names a branch other than `master` and `main` yields
/// that name in full, whatever white space stands around the line.
pub proof fn lemma_branch_is_kept_whole(before: Seq<char>, name: Seq<char>, after: Seq<char>)
    requires
        is_blank(before),
        is_blank(after),
        name.len() > 0,
        !is_space(name[0]),
        !is_space(name.last()),
        name != "master"@,
        name != "main"@,
    ensures
        branch_of(before + branch_ref_prefix() + name + after) == Some(name),
{
    reveal_strlit("ref: refs/heads/");
    let core = branch_ref_prefix() + name;
    assert(before + branch_ref_prefix() + name + after =~= before + core + after);
    lemma_trimmed_padding(before, core, after);
    assert(core.skip(branch_ref_prefix().len() as int) =~= name);
}

/// A `HEAD` file that names `master`, `main` or no branch at all yields no
/// branch.
pub proof fn lemma_default_branch_is_dropped(before: Seq<char>, name: Seq<char>, after: Seq<char>)
    requires
        is_blank(before),
        is_blank(after),
        name.len() == 0 || name == "master"@ || name == "main"@,
    ensures
        branch_of(before + branch_ref_prefix() + name + after) is None,
{
    reveal_strlit("ref: refs/heads/");
    reveal_strlit("master");
    reveal_strlit("main");
    let core = branch_ref_prefix() + name;
    assert(before + branch_ref_prefix() + name + after =~= before + core + after);
    lemma_trimmed_padding(before, core, after);
    assert(core.skip(branch_ref_prefix().len() as int) =~= name);
}

/// A search for the repository that holds a path.
pub struct AnchorWalk {
    absolute: bool,
    components: Vec<String>,
    depth: usize,
    finished: bool,
    found: Option<Anchor>,
}

impl View for AnchorWalk {
    type V = WalkState;

    closed spec fn view(&self) -> WalkState {
        WalkState {
            absolute: self.absolute,
            components: self.components.deep_view(),
            depth: self.depth as nat,
            outcome: if self.finished {
                Some(anchor_view(self.found))
            } else {
                None
            },
        }
    }
}

impl AnchorWalk {
    #[verifier::type_invariant]
    spec fn well_formed(self) -> bool {
        &&& self.depth <= self.components.len()
        &&& self.found is Some ==> self.finished
    }

    /// Starts the search in the directory `path`.
    pub fn new(path: &str) -> (walk: AnchorWalk)
        ensures
            walk@ == WalkState::start(path@),
    {
        let components = split_components(path);
        let depth = components.len();
        AnchorWalk { absolute: path_is_absolute(path), components, depth, finished: false, found: None }
    }

    /// The entry to look at next: the `.git` entry of the directory that
    /// the search has reached. `None` when the search is over.
    pub fn probe(&self) -> (entry: Option<String>)
        ensures
            entry.deep_view() == (if self@.outcome is None {
                Some(joined_path(self@.directory(), git_entry_name()))
            } else {
                None
            }),
    {
        proof {
            use_type_invariant(self);
        }
        if self.finished {
            None
        } else {
            let dir = path_to(self.absolute, &self.components, self.depth);
            Some(join_path(dir.as_str(), ".git"))
        }
    }

    /// Takes what was seen at the entry that [`AnchorWalk::probe`] named.
    /// Has no effect when the search is over.
    pub fn observe(&mut self, entry: &GitEntry)
        ensures
            final(self)@ == old(self)@.observed(*entry),
    {
        proof {
            use_type_invariant(&*self);
        }
        if self.finished {
            return ;
        }
        match entry {
            GitEntry::Missing => {
                if self.depth == 0 {
                    self.finished = true;
                } else {
                    self.depth = self.depth - 1;
                }
            },
            _ => {
                let dir = path_to(self.absolute, &self.components, self.depth);
                let found = match resolve_head(dir.as_str(), entry) {
                    Some(head) => Some(Anchor { depth: self.depth, head }),
                    None => None,
                };
                self.finished = true;
                self.found = found;
            },
        }
    }

    /// Whether the search is over.
    pub fn is_finished(&self) -> (b: bool)
        ensures
            b == (self@.outcome is Some),
    {
        self.finished
    }

    /// The repository that the search found, once it is over.
    pub fn anchor(&self) -> (anchor: Option<&Anchor>)
        ensures
            match self@.outcome {
                Some(Some(found)) => anchor matches Some(a) && a@ == found,
                _ => anchor is None,
            },
    {
        proof {
            use_type_invariant(self);
        }
        self.found.as_ref()
    }
}

/// Reads the git directory out of the contents of a worktree pointer.
pub fn parse_gitdir(contents: &str) -> (gitdir: Option<String>)
    ensures
        gitdir.deep_view() == gitdir_of(contents@),
{
    let chars = to_chars(contents);
    let key = to_chars("gitdir:");
    let len = chars.len();
    let mut start: usize = 0;
    assert(chars@.skip(0) =~= contents@);
    loop
        invariant
            start <= len == chars.len(),
            key@ == gitdir_key(),
            gitdir_of(contents@) == gitdir_of(chars@.skip(start as int)),
        decreases len - start,
    {
        let end = find_char(&chars, start, len, '\n');
        let (lo, hi) = trim_range(&chars, start, end);
        let ghost rest = chars@.skip(start as int);
        proof {
            assert(rest.take(end - start) =~= chars@.subrange(start as int, end as int));
        }
        if has_prefix_at(&chars, lo, hi, &key) {
            let (from, to) = trim_range(&chars, lo + key.len(), hi);
            proof {
                let line = chars@.subrange(lo as int, hi as int);
                assert(line.skip(key@.len() as int) =~= chars@.subrange(
                    lo + key@.len(),
                    hi as int,
                ));
            }
            return Some(from_chars(&chars, from, to));
        }
        if end >= len {
            return None;
        }
        proof {
            assert(rest.skip(end - start + 1) =~= chars@.skip(end + 1));
        }
        start = end + 1;
    }
}

/// The `HEAD` file that the `.git` entry of directory `dir` leads to.
pub fn resolve_head(dir: &str, entry: &GitEntry) -> (head: Option<String>)
    ensures
        head.deep_view() == head_at(dir@, *entry),
{
    match entry {
        GitEntry::Directory => {
            let git = join_path(dir, ".git");
            Some(join_path(git.as_str(), "HEAD"))
        },
        GitEntry::File(contents) => {
            match parse_gitdir(contents.as_str()) {
                Some(gitdir) => {
                    let base = if path_is_absolute(gitdir.as_str()) {
                        gitdir
                    } else {
                        join_path(dir, gitdir.as_str())
                    };
                    let plain = normalize(base.as_str());
                    Some(join_path(plain.as_str(), "HEAD"))
                },
                None => None,
            }
        },
        _ => None,
    }
}

} // verus!
