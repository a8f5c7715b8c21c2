//! Decomposition of a path into three zones, and their rendering for a
//! prompt.
//!
//! The Prefix zone stands for the repository that holds the path: it
//! covers the components down to the repository's directory and is shown as
//! one segment, made of a marker, the directory's name and the branch. The
//! Suffix zone is the last component, where it lies inside the Prefix's
//! directory. The Infix zone is what lies between them.

use crate::git::{
    branch_of, branch_ref_prefix, lemma_branch_is_kept_whole, lemma_default_branch_is_dropped,
    lemma_no_entry_no_anchor, GitEntry, WalkState,
};
use crate::utils::get_repository_branch;
use crate::path::{components_of, split_components, SEPARATOR};
use crate::text::{from_chars, is_blank, is_space, join, joined, push_char, to_chars};
use vstd::prelude::*;

verus! {

/// The symbol that opens the Prefix segment.
pub const MARKER: char = '@';

/// The symbol between the repository's name and its branch.
pub const BRANCH_SEPARATOR: char = ':';

/// How many characters of a component an abbreviation keeps.
pub const ABBREVIATION_WIDTH: usize = 1;

/// One of the three zones of a decomposed path.
#[derive(Clone, Copy, Debug, PartialEq, Eq, Structural)]
pub enum ShortPathPart {
    Prefix,
    Infix,
    Suffix,
}

/// A path decomposed into its zones.
#[derive(Debug)]
pub struct ShortPath {
    /// The components down to the repository's directory; empty outside a
    /// repository.
    pub prefix: Vec<String>,
    /// The components between the repository's directory and the last
    /// component.
    pub infix: Vec<String>,
    /// The last component, unless the Prefix covers it: at most one.
    pub suffix: Vec<String>,
    /// The name of the repository's directory, inside a repository.
    pub repo_name: Option<String>,
    /// The branch that the repository is on, where it is worth showing.
    pub branch: Option<String>,
}

/// The mathematical content of a [`ShortPath`].
pub struct ShortPathView {
    pub prefix: Seq<Seq<char>>,
    pub infix: Seq<Seq<char>>,
    pub suffix: Seq<Seq<char>>,
    pub repo_name: Option<Seq<char>>,
    pub branch: Option<Seq<char>>,
}

impl View for ShortPath {
    type V = ShortPathView;

    open spec fn view(&self) -> ShortPathView {
        ShortPathView {
            prefix: self.prefix.deep_view(),
            infix: self.infix.deep_view(),
            suffix: self.suffix.deep_view(),
            repo_name: self.repo_name.deep_view(),
            branch: self.branch.deep_view(),
        }
    }
}

/// The short form of a component: its first characters, up to the
/// abbreviation width.
pub open spec fn abbreviated(name: Seq<char>) -> Seq<char> {
    if name.len() <= ABBREVIATION_WIDTH {
        name
    } else {
        name.take(ABBREVIATION_WIDTH as int)
    }
}

/// The zones of the path with the given components, where the repository's
/// directory is made of the first `anchor` components and the repository is
/// on `branch`. Without an anchor there is no Prefix. An anchor beyond the
/// path counts as the path itself.
pub open spec fn decomposition(
    components: Seq<Seq<char>>,
    anchor: Option<nat>,
    branch: Option<Seq<char>>,
) -> ShortPathView {
    let n = components.len() as int;
    let k = match anchor {
        Some(depth) => if depth <= n {
            depth as int
        } else {
            n
        },
        None => 0,
    };
    let m = if k < n {
        n - 1
    } else {
        n
    };
    ShortPathView {
        prefix: components.take(k),
        infix: components.subrange(k, m),
        suffix: components.skip(m),
        repo_name: match anchor {
            Some(_) => Some(
                if k > 0 {
                    components[k - 1]
                } else {
                    Seq::empty()
                },
            ),
            None => None,
        },
        branch: match anchor {
            Some(_) => branch,
            None => None,
        },
    }
}

/// The zones of `path`, where the repository's directory is made of its
/// first `anchor` components and the repository's `HEAD` file holds `head`.
pub open spec fn shortened(
    path: Seq<char>,
    anchor: Option<nat>,
    head: Option<Seq<char>>,
) -> ShortPathView {
    decomposition(
        components_of(path),
        anchor,
        match head {
            Some(contents) => branch_of(contents),
            None => None,
        },
    )
}

/// The zones of `path` in a given world: every directory holds under
/// `.git` what `world` says of it, and every file holds what `files` says
/// of it, `None` standing for a file that cannot be read. The search for
/// the repository gives the anchor, and the `HEAD` file that it found
/// gives the branch.
pub open spec fn shortened_in(
    path: Seq<char>,
    world: spec_fn(Seq<char>) -> GitEntry,
    files: spec_fn(Seq<char>) -> Option<Seq<char>>,
) -> ShortPathView {
    match WalkState::start(path).answer(world) {
        Some(anchor) => shortened(path, Some(anchor.depth), files(anchor.head)),
        None => shortened(path, None, None),
    }
}

impl ShortPathView {
    /// The single segment that shows the repository.
    pub open spec fn prefix_segment(self) -> Seq<char> {
        let name = match self.repo_name {
            Some(name) => name,
            None => Seq::empty(),
        };
        match self.branch {
            Some(branch) => seq![MARKER] + name + seq![BRANCH_SEPARATOR] + branch,
            None => seq![MARKER] + name,
        }
    }

    /// The `i`-th segment of the Infix: in full among the last `depth`,
    /// abbreviated before them.
    pub open spec fn infix_segment(self, i: int, depth: nat) -> Seq<char> {
        if self.infix.len() - i <= depth {
            self.infix[i]
        } else {
            abbreviated(self.infix[i])
        }
    }

    /// The segments that a zone contributes to the output.
    pub open spec fn zone(self, part: ShortPathPart, depth: nat) -> Seq<Seq<char>> {
        match part {
            ShortPathPart::Prefix => match self.repo_name {
                Some(_) => seq![self.prefix_segment()],
                None => Seq::empty(),
            },
            ShortPathPart::Infix => Seq::new(
                self.infix.len(),
                |i: int| self.infix_segment(i, depth),
            ),
            ShortPathPart::Suffix => self.suffix,
        }
    }

    /// The segments of the selected zones, in the order of the selection.
    pub open spec fn segments(self, depth: nat, parts: Seq<ShortPathPart>) -> Seq<Seq<char>>
        decreases parts.len(),
    {
        if parts.len() == 0 {
            Seq::empty()
        } else {
            self.segments(depth, parts.drop_last()) + self.zone(parts.last(), depth)
        }
    }

    /// The display string: the segments of the selected zones, with a
    /// separator between neighbours.
    pub open spec fn rendered(self, depth: nat, parts: Seq<ShortPathPart>) -> Seq<char> {
        joined(self.segments(depth, parts), SEPARATOR)
    }
}

/// Decomposition loses nothing: the three zones, one after the other, are
/// the components of the path, in order. The Suffix holds at most the last
/// component, and a repository is named after the last component of the
/// Prefix: its name, the Infix and the Suffix are the path from the
/// repository's directory down.
pub proof fn lemma_decomposition_is_lossless(
    components: Seq<Seq<char>>,
    anchor: Option<nat>,
    branch: Option<Seq<char>>,
)
    ensures
        ({
            let short = decomposition(components, anchor, branch);
            &&& short.prefix + short.infix + short.suffix == components
            &&& short.suffix.len() <= 1
            &&& short.suffix.len() == 0 ==> short.infix.len() == 0
            &&& short.prefix.len() > 0 ==> short.repo_name == Some(short.prefix.last())
            &&& short.prefix.len() > 0 ==> seq![short.repo_name->0] + short.infix + short.suffix
                == components.skip(short.prefix.len() - 1)
        }),
{
    let short = decomposition(components, anchor, branch);
    if short.prefix.len() > 0 {
        assert(seq![short.repo_name->0] + short.infix + short.suffix =~= components.skip(
            short.prefix.len() - 1,
        ));
    }
}

/// The zones of a path are its components: nothing of the path is lost
/// when it is shortened, whatever repository holds it.
pub proof fn lemma_shortening_is_lossless(
    path: Seq<char>,
    anchor: Option<nat>,
    head: Option<Seq<char>>,
)
    ensures
        ({
            let short = shortened(path, anchor, head);
            short.prefix + short.infix + short.suffix == components_of(path)
        }),
{
}

/// Outside a repository the Prefix is empty and adds nothing to the output:
/// the full rendering is the Infix and the Suffix, joined by separators,
/// where only the segments of the Infix that lie more than `depth` from its
/// end are abbreviated.
pub proof fn lemma_outside_repository(path: Seq<char>, head: Option<Seq<char>>, depth: nat)
    ensures
        ({
            let short = shortened(path, None, head);
            let infix = short.zone(ShortPathPart::Infix, depth);
            &&& short.prefix.len() == 0
            &&& short.repo_name is None
            &&& short.branch is None
            &&& short.rendered(
                depth,
                seq![ShortPathPart::Prefix, ShortPathPart::Infix, ShortPathPart::Suffix],
            ) == joined(infix + short.suffix, SEPARATOR)
            &&& short.rendered(depth, seq![ShortPathPart::Infix, ShortPathPart::Suffix]) == joined(
                infix + short.suffix,
                SEPARATOR,
            )
            &&& infix.len() == short.infix.len()
            &&& forall|i: int|
                0 <= i < infix.len() ==> #[trigger] infix[i] == (if short.infix.len() - i <= depth {
                    short.infix[i]
                } else {
                    abbreviated(short.infix[i])
                })
        }),
{
    let short = shortened(path, None, head);
    let infix = short.zone(ShortPathPart::Infix, depth);
    let all = seq![ShortPathPart::Prefix, ShortPathPart::Infix, ShortPathPart::Suffix];
    let two = seq![ShortPathPart::Infix, ShortPathPart::Suffix];
    let one = seq![ShortPathPart::Prefix];
    let none = Seq::<ShortPathPart>::empty();
    assert(all.drop_last() =~= seq![ShortPathPart::Prefix, ShortPathPart::Infix]);
    assert(seq![ShortPathPart::Prefix, ShortPathPart::Infix].drop_last() =~= one);
    assert(one.drop_last() =~= none);
    assert(two.drop_last() =~= seq![ShortPathPart::Infix]);
    assert(seq![ShortPathPart::Infix].drop_last() =~= none);
    assert(short.segments(depth, none) =~= Seq::<Seq<char>>::empty());
    assert(short.segments(depth, one) =~= Seq::<Seq<char>>::empty());
    assert(short.segments(depth, seq![ShortPathPart::Infix]) =~= infix);
    assert(short.segments(depth, seq![ShortPathPart::Prefix, ShortPathPart::Infix]) =~= infix);
}

/// A path with no `.git` entry in its own directory or in any directory
/// above it has an empty Prefix, and its full rendering is the Infix and
/// the Suffix alone.
pub proof fn lemma_no_repository_no_prefix(
    path: Seq<char>,
    world: spec_fn(Seq<char>) -> GitEntry,
    files: spec_fn(Seq<char>) -> Option<Seq<char>>,
    depth: nat,
)
    requires
        forall|d: nat|
            d <= components_of(path).len() ==> world(
                #[trigger] WalkState::start(path).directory_at(d),
            ) is Missing,
    ensures
        ({
            let short = shortened_in(path, world, files);
            &&& short.prefix.len() == 0
            &&& short.repo_name is None
            &&& short.zone(ShortPathPart::Prefix, depth).len() == 0
            &&& short.rendered(
                depth,
                seq![ShortPathPart::Prefix, ShortPathPart::Infix, ShortPathPart::Suffix],
            ) == joined(short.zone(ShortPathPart::Infix, depth) + short.suffix, SEPARATOR)
        }),
{
    lemma_no_entry_no_anchor(WalkState::start(path), world);
    lemma_outside_repository(path, None, depth);
}

/// The segments of two selections, one after the other, are the segments of
/// the first followed by those of the second.
pub proof fn lemma_segments_of_concatenation(
    short: ShortPathView,
    depth: nat,
    first: Seq<ShortPathPart>,
    second: Seq<ShortPathPart>,
)
    ensures
        short.segments(depth, first + second) == short.segments(depth, first) + short.segments(
            depth,
            second,
        ),
    decreases second.len(),
{
    if second.len() > 0 {
        lemma_segments_of_concatenation(short, depth, first, second.drop_last());
        assert((first + second).drop_last() =~= first + second.drop_last());
    }
}

/// A selected zone that is empty adds nothing to the output, wherever it
/// stands in the selection: no segment and no separator.
pub proof fn lemma_empty_zone_adds_nothing(
    short: ShortPathView,
    depth: nat,
    before: Seq<ShortPathPart>,
    part: ShortPathPart,
    after: Seq<ShortPathPart>,
)
    requires
        short.zone(part, depth).len() == 0,
    ensures
        short.rendered(depth, before + seq![part] + after) == short.rendered(depth, before + after),
{
    let one = seq![part];
    assert(short.segments(depth, one.drop_last()) =~= Seq::<Seq<char>>::empty());
    lemma_segments_of_concatenation(short, depth, before, one);
    lemma_segments_of_concatenation(short, depth, before + one, after);
    lemma_segments_of_concatenation(short, depth, before, after);
}

/// Outside a repository, with a depth that covers the whole Infix, the
/// full rendering is the path itself: its components, joined by
/// separators.
pub proof fn lemma_full_depth_shows_the_path(path: Seq<char>, head: Option<Seq<char>>, depth: nat)
    requires
        depth + 1 >= components_of(path).len(),
    ensures
        shortened(path, None, head).rendered(
            depth,
            seq![ShortPathPart::Prefix, ShortPathPart::Infix, ShortPathPart::Suffix],
        ) == joined(components_of(path), SEPARATOR),
{
    let short = shortened(path, None, head);
    lemma_outside_repository(path, head, depth);
    assert(short.zone(ShortPathPart::Infix, depth) =~= short.infix);
    assert(short.infix + short.suffix =~= components_of(path));
}

/// Inside a repository whose `HEAD` file names `master`, `main` or no
/// branch, the Prefix segment is the marker and the repository's name,
/// without a branch.
pub proof fn lemma_default_branch_not_shown(
    path: Seq<char>,
    anchor: nat,
    before: Seq<char>,
    name: Seq<char>,
    after: Seq<char>,
)
    requires
        is_blank(before),
        is_blank(after),
        name.len() == 0 || name == "master"@ || name == "main"@,
    ensures
        ({
            let short = shortened(
                path,
                Some(anchor),
                Some(before + branch_ref_prefix() + name + after),
            );
            &&& short.branch is None
            &&& short.repo_name is Some
            &&& short.prefix_segment() == seq![MARKER] + short.repo_name->0
        }),
{
    lemma_default_branch_is_dropped(before, name, after);
}

/// Inside a repository on any other branch, the Prefix segment ends with
/// the branch separator and the branch's name in full.
pub proof fn lemma_branch_shown_whole(
    path: Seq<char>,
    anchor: nat,
    before: Seq<char>,
    name: Seq<char>,
    after: Seq<char>,
)
    requires
        is_blank(before),
        is_blank(after),
        name.len() > 0,
        !is_space(name[0]),
        !is_space(name.last()),
        name != "master"@,
        name != "main"@,
    ensures
        ({
            let short = shortened(
                path,
                Some(anchor),
                Some(before + branch_ref_prefix() + name + after),
            );
            &&& short.branch == Some(name)
            &&& short.repo_name is Some
            &&& short.prefix_segment() == seq![MARKER] + short.repo_name->0 + seq![
                BRANCH_SEPARATOR,
            ] + name
        }),
{
    lemma_branch_is_kept_whole(before, name, after);
}

/// Copies `names[from..to]`.
fn copy_range(names: &Vec<String>, from: usize, to: usize) -> (out: Vec<String>)
    requires
        from <= to <= names.len(),
    ensures
        out.deep_view() == names.deep_view().subrange(from as int, to as int),
{
    let mut out: Vec<String> = Vec::new();
    let mut i: usize = from;
    while i < to
        invariant
            from <= i <= to <= names.len(),
            out.deep_view() =~= names.deep_view().subrange(from as int, i as int),
        decreases to - i,
    {
        let ghost before = out.deep_view();
        out.push(names[i].clone());
        assert(out.deep_view() =~= before.push(names[i as int]@));
        i += 1;
    }
    out
}

/// The short form of a component.
pub fn abbreviate(name: &str) -> (short: String)
    ensures
        short@ == abbreviated(name@),
{
    let chars = to_chars(name);
    if chars.len() <= ABBREVIATION_WIDTH {
        from_chars(&chars, 0, chars.len())
    } else {
        from_chars(&chars, 0, ABBREVIATION_WIDTH)
    }
}

impl ShortPath {
    /// Decomposes the path with the given components. The repository's
    /// directory is made of the first `anchor` components; without an
    /// anchor the path lies in no repository and `branch` is ignored.
    pub fn decompose(
        components: &Vec<String>,
        anchor: Option<usize>,
        branch: Option<String>,
    ) -> (short: ShortPath)
        ensures
            short@ == decomposition(
                components.deep_view(),
                match anchor {
                    Some(depth) => Some(depth as nat),
                    None => None,
                },
                branch.deep_view(),
            ),
    {
        let n = components.len();
        let k = match anchor {
            Some(depth) => if depth <= n {
                depth
            } else {
                n
            },
            None => 0,
        };
        let m = if k < n {
            n - 1
        } else {
            n
        };
        let repo_name = match anchor {
            Some(_) => Some(
                if k > 0 {
                    components[k - 1].clone()
                } else {
                    String::new()
                },
            ),
            None => None,
        };
        let branch = match anchor {
            Some(_) => branch,
            None => None,
        };
        let short = ShortPath {
            prefix: copy_range(components, 0, k),
            infix: copy_range(components, k, m),
            suffix: copy_range(components, m, n),
            repo_name,
            branch,
        };
        short
    }

    /// The single segment that shows the repository.
    fn prefix_segment(&self) -> (segment: String)
        ensures
            segment@ == self@.prefix_segment(),
    {
        let mut segment = String::new();
        push_char(&mut segment, MARKER);
        match &self.repo_name {
            Some(name) => {
                segment.append(name.as_str());
            },
            None => {},
        }
        match &self.branch {
            Some(branch) => {
                push_char(&mut segment, BRANCH_SEPARATOR);
                segment.append(branch.as_str());
            },
            None => {},
        }
        segment
    }

    /// The segments that a zone contributes to the output.
    fn zone(&self, part: ShortPathPart, depth: usize) -> (segments: Vec<String>)
        ensures
            segments.deep_view() == self@.zone(part, depth as nat),
    {
        match part {
            ShortPathPart::Prefix => {
                let mut segments: Vec<String> = Vec::new();
                if self.repo_name.is_some() {
                    segments.push(self.prefix_segment());
                }
                segments
            },
            ShortPathPart::Infix => {
                let mut segments: Vec<String> = Vec::new();
                let len = self.infix.len();
                let mut i: usize = 0;
                while i < len
                    invariant
                        i <= len == self.infix.len(),
                        segments.len() == i,
                        forall|j: int|
                            0 <= j < i ==> (#[trigger] segments[j])@ == self@.infix_segment(
                                j,
                                depth as nat,
                            ),
                    decreases len - i,
                {
                    if len - i <= depth {
                        segments.push(self.infix[i].clone());
                    } else {
                        segments.push(abbreviate(self.infix[i].as_str()));
                    }
                    i += 1;
                }
                segments
            },
            ShortPathPart::Suffix => copy_range(&self.suffix, 0, self.suffix.len()),
        }
    }

    /// Renders the selected zones, in the order given, with a separator
    /// between the segments. `depth` is the number of segments at the end
    /// of the Infix that are shown in full; those before them are
    /// abbreviated. The result depends on nothing but the path and the
    /// arguments.
    pub fn build(&self, depth: usize, parts: &[ShortPathPart]) -> (out: String)
        ensures
            out@ == self@.rendered(depth as nat, parts@),
    {
        let mut segments: Vec<String> = Vec::new();
        let mut p: usize = 0;
        while p < parts.len()
            invariant
                p <= parts.len(),
                segments.deep_view() == self@.segments(depth as nat, parts@.take(p as int)),
            decreases parts.len() - p,
        {
            let mut more = self.zone(parts[p], depth);
            segments.append(&mut more);
            proof {
                let now = parts@.take(p as int + 1);
                assert(now.drop_last() =~= parts@.take(p as int));
            }
            p += 1;
        }
        assert(parts@.take(parts.len() as int) =~= parts@);
        join(&segments, SEPARATOR)
    }
}

/// Decomposes `path`. The repository's directory is made of the first
/// `anchor` components of the path, and `head` holds the contents of the
/// repository's `HEAD` file where it could be read. Without an anchor the
/// path lies in no repository.
pub fn shorten_path(path: &str, anchor: Option<usize>, head: Option<&str>) -> (short: ShortPath)
    ensures
        short@ == shortened(
            path@,
            match anchor {
                Some(depth) => Some(depth as nat),
                None => None,
            },
            match head {
                Some(contents) => Some(contents@),
                None => None,
            },
        ),
{
    let components = split_components(path);
    let branch = match head {
        Some(contents) => get_repository_branch(contents),
        None => None,
    };
    ShortPath::decompose(&components, anchor, branch)
}

} // verus!
