//! Command-line level configuration: grid sizes, difficulties, and the
//! normalization of a raw argument set into a resolved list of generation
//! tasks. Parsing the process's actual arguments is left to a frontend; this
//! module holds the rules that decide what a given argument set means.

use vstd::arithmetic::div_mod::lemma_fundamental_div_mod_converse;
use vstd::prelude::*;
use vstd::string::StrSliceExecFns;

verus! {

/// Character-for-character equality of two string slices.
fn str_eq(a: &str, b: &str) -> (r: bool)
    ensures
        r == (a@ == b@),
{
    let alen = a.unicode_len();
    let blen = b.unicode_len();
    if alen != blen {
        return false;
    }
    let mut i: usize = 0;
    while i < alen
        invariant
            alen == a@.len(),
            blen == b@.len(),
            alen == blen,
            i <= alen,
            forall|j: int| 0 <= j < i ==> a@[j] == b@[j],
        decreases alen - i,
    {
        if a.get_char(i) != b.get_char(i) {
            return false;
        }
        i += 1;
    }
    proof {
        assert(a@ =~= b@);
    }
    true
}

/// Standard grid sizes. With the center hex at distance 0, a grid of radius
/// `r` holds `3r^2 + 3r + 1` tiles.
#[derive(Clone, Copy, Debug, Default, PartialEq, Eq, Structural)]
pub enum GridSize {
    #[default]
    /// Radius 2, 19 hexes
    Small,
    /// Radius 4, 61 hexes
    Medium,
    /// Radius 8, 217 hexes
    Large,
    /// Radius 11, 397 hexes
    Huge,
}

impl GridSize {
    /// The grid radius this size stands for.
    pub open spec fn spec_radius(self) -> u8 {
        match self {
            GridSize::Small => 2,
            GridSize::Medium => 4,
            GridSize::Large => 8,
            GridSize::Huge => 11,
        }
    }

    /// The grid radius this size stands for.
    #[verifier::when_used_as_spec(spec_radius)]
    pub fn radius(self) -> (r: u8)
        ensures
            r == self.spec_radius(),
    {
        match self {
            GridSize::Small => 2,
            GridSize::Medium => 4,
            GridSize::Large => 8,
            GridSize::Huge => 11,
        }
    }

    /// All standard sizes, smallest to largest.
    pub fn all() -> (v: Vec<GridSize>)
        ensures
            v@ == seq![GridSize::Small, GridSize::Medium, GridSize::Large, GridSize::Huge],
    {
        let mut v: Vec<GridSize> = Vec::new();
        v.push(GridSize::Small);
        v.push(GridSize::Medium);
        v.push(GridSize::Large);
        v.push(GridSize::Huge);
        proof {
            assert(v@ =~= seq![
                GridSize::Small,
                GridSize::Medium,
                GridSize::Large,
                GridSize::Huge,
            ]);
        }
        v
    }

    /// Which names `parse` accepts, and the size each stands for.
    pub open spec fn parse_spec(s: Seq<char>) -> Option<GridSize> {
        if s == "small"@ || s == "sm"@ {
            Some(GridSize::Small)
        } else if s == "medium"@ || s == "med"@ {
            Some(GridSize::Medium)
        } else if s == "large"@ || s == "lg"@ {
            Some(GridSize::Large)
        } else if s == "huge"@ || s == "yuge"@ {
            Some(GridSize::Huge)
        } else {
            None
        }
    }

    /// Parse a size name; `None` for anything unrecognized.
    pub fn parse(s: &str) -> (r: Option<GridSize>)
        ensures
            r == GridSize::parse_spec(s@),
    {
        if str_eq(s, "small") || str_eq(s, "sm") {
            Some(GridSize::Small)
        } else if str_eq(s, "medium") || str_eq(s, "med") {
            Some(GridSize::Medium)
        } else if str_eq(s, "large") || str_eq(s, "lg") {
            Some(GridSize::Large)
        } else if str_eq(s, "huge") || str_eq(s, "yuge") {
            Some(GridSize::Huge)
        } else {
            None
        }
    }
}

/// Relative difficulty of the puzzle.
#[derive(Clone, Copy, Debug, Default, PartialEq, Eq, Structural)]
pub enum Difficulty {
    /// Roughly 15% of hints removed
    Easy,
    /// Roughly 30% of hints removed
    Medium,
    #[default]
    /// As many hints as possible removed
    Hard,
}

impl Difficulty {
    /// All difficulties, easiest first.
    pub fn all() -> (v: Vec<Difficulty>)
        ensures
            v@ == seq![Difficulty::Easy, Difficulty::Medium, Difficulty::Hard],
    {
        let mut v: Vec<Difficulty> = Vec::new();
        v.push(Difficulty::Easy);
        v.push(Difficulty::Medium);
        v.push(Difficulty::Hard);
        proof {
            assert(v@ =~= seq![Difficulty::Easy, Difficulty::Medium, Difficulty::Hard]);
        }
        v
    }

    /// Which names `parse` accepts, and the difficulty each stands for.
    pub open spec fn parse_spec(s: Seq<char>) -> Option<Difficulty> {
        if s == "easy"@ {
            Some(Difficulty::Easy)
        } else if s == "medium"@ {
            Some(Difficulty::Medium)
        } else if s == "hard"@ {
            Some(Difficulty::Hard)
        } else {
            None
        }
    }

    /// Parse a difficulty name; `None` for anything unrecognized.
    pub fn parse(s: &str) -> (r: Option<Difficulty>)
        ensures
            r == Difficulty::parse_spec(s@),
    {
        if str_eq(s, "easy") {
            Some(Difficulty::Easy)
        } else if str_eq(s, "medium") {
            Some(Difficulty::Medium)
        } else if str_eq(s, "hard") {
            Some(Difficulty::Hard)
        } else {
            None
        }
    }
}

/// Supported output formats.
#[derive(Clone, Copy, Debug, PartialEq, Eq, Structural)]
pub enum OutputFormat {
    BinaryFull,
}

/// Which names `output_format_from_str` accepts.
pub open spec fn output_format_spec(s: Seq<char>) -> Option<OutputFormat> {
    if s == "binary-full"@ {
        Some(OutputFormat::BinaryFull)
    } else {
        None
    }
}

/// Parse an output format name; `None` for anything unknown.
pub fn output_format_from_str(s: &str) -> (r: Option<OutputFormat>)
    ensures
        r == output_format_spec(s@),
{
    if str_eq(s, "binary-full") {
        Some(OutputFormat::BinaryFull)
    } else {
        None
    }
}

/// Raw command-line arguments, as an argument parser delivers them.
#[derive(Debug)]
pub struct Args {
    /// Grid radius; exclusive with and takes precedence over `size`.
    pub radius: Option<u8>,
    /// Grid radius expressed as a relative size.
    pub size: Option<GridSize>,
    /// Difficulty of the puzzles to be generated.
    pub difficulty: Option<Difficulty>,
    /// Output directory for generated maps.
    pub output: String,
    /// Generate one of every size and difficulty; implied when no other
    /// filtering argument is given.
    pub all: bool,
    /// Number of puzzles to generate per permutation.
    pub count: Option<u32>,
    /// Positional count; behaves like `count` together with `all`.
    pub count_pos: Option<u32>,
    /// Input file to load and display, skipping generation.
    pub load: Option<String>,
    /// Display the generated or loaded puzzle.
    pub display: bool,
    /// Output format.
    pub format: OutputFormat,
}

/// The resolved work list an argument set stands for.
#[derive(Debug, PartialEq)]
pub struct ResolvedConfig {
    pub output_dir: String,
    pub count_per_task: u32,
    /// One `(radius, difficulty)` pair per puzzle permutation to generate.
    pub tasks: Vec<(u8, Difficulty)>,
    pub load_path: Option<String>,
    pub display: bool,
    pub format: OutputFormat,
}

/// The per-task count an argument set resolves to: the positional count if
/// given, else the count option, else 1.
pub open spec fn spec_count(a: Args) -> u32 {
    if a.count_pos is Some {
        a.count_pos->Some_0
    } else if a.count is Some {
        a.count->Some_0
    } else {
        1
    }
}

/// The radii an argument set resolves to: the explicit radius if given, else
/// the explicit size's radius, else the radius of every standard size.
pub open spec fn spec_radii(a: Args) -> Seq<u8> {
    if a.radius is Some {
        seq![a.radius->Some_0]
    } else if a.size is Some {
        seq![a.size->Some_0.spec_radius()]
    } else {
        seq![2u8, 4u8, 8u8, 11u8]
    }
}

/// The difficulties an argument set resolves to: the explicit one if given,
/// else all three.
pub open spec fn spec_difficulties(a: Args) -> Seq<Difficulty> {
    if a.difficulty is Some {
        seq![a.difficulty->Some_0]
    } else {
        seq![Difficulty::Easy, Difficulty::Medium, Difficulty::Hard]
    }
}

/// The task list: the cross product of the resolved radii and difficulties,
/// difficulty varying fastest.
pub open spec fn spec_tasks(a: Args) -> Seq<(u8, Difficulty)> {
    let radii = spec_radii(a);
    let diffs = spec_difficulties(a);
    Seq::new(
        (radii.len() * diffs.len()) as nat,
        |k: int| (radii[k / diffs.len() as int], diffs[k % diffs.len() as int]),
    )
}

impl Args {
    /// Resolve a raw argument set into the work list it describes: the
    /// per-task count, the output directory as given, and one task per
    /// radius-difficulty pair.
    #[verifier::loop_isolation(false)]
    pub fn normalize(&self) -> (c: ResolvedConfig)
        ensures
            c.count_per_task == spec_count(*self),
            c.output_dir@ == self.output@,
            c.tasks@ == spec_tasks(*self),
            c.load_path is Some <==> self.load is Some,
            c.load_path is Some ==> c.load_path->Some_0@ == self.load->Some_0@,
            c.display == self.display,
            c.format == self.format,
    {
        let count: u32 = match self.count_pos {
            Some(c) => c,
            None => match self.count {
                Some(c) => c,
                None => 1,
            },
        };

        let radii: Vec<u8> = match self.radius {
            Some(r) => {
                let mut v: Vec<u8> = Vec::new();
                v.push(r);
                proof {
                    assert(v@ =~= spec_radii(*self));
                }
                v
            },
            None => match self.size {
                Some(s) => {
                    let mut v: Vec<u8> = Vec::new();
                    v.push(s.radius());
                    proof {
                        assert(v@ =~= spec_radii(*self));
                    }
                    v
                },
                None => {
                    let sizes = GridSize::all();
                    let mut v: Vec<u8> = Vec::new();
                    let mut i: usize = 0;
                    while i < sizes.len()
                        invariant
                            i <= sizes@.len(),
                            v@.len() == i,
                            forall|j: int| 0 <= j < i ==> v@[j] == sizes@[j].spec_radius(),
                        decreases sizes@.len() - i,
                    {
                        v.push(sizes[i].radius());
                        i += 1;
                    }
                    proof {
                        assert(v@ =~= spec_radii(*self));
                    }
                    v
                },
            },
        };

        let diffs: Vec<Difficulty> = match self.difficulty {
            Some(d) => {
                let mut v: Vec<Difficulty> = Vec::new();
                v.push(d);
                proof {
                    assert(v@ =~= spec_difficulties(*self));
                }
                v
            },
            None => Difficulty::all(),
        };

        let dlen = diffs.len();
        let mut tasks: Vec<(u8, Difficulty)> = Vec::new();
        let mut i: usize = 0;
        while i < radii.len()
            invariant
                i <= radii@.len(),
                tasks@.len() == i * dlen,
                forall|k: int|
                    0 <= k < tasks@.len() ==> #[trigger] tasks@[k] == (
                        spec_radii(*self)[k / dlen as int],
                        spec_difficulties(*self)[k % dlen as int],
                    ),
            decreases radii@.len() - i,
        {
            let mut j: usize = 0;
            while j < dlen
                invariant
                    i < radii@.len(),
                    j <= dlen,
                    tasks@.len() == i * dlen + j,
                    forall|k: int|
                        0 <= k < tasks@.len() ==> #[trigger] tasks@[k] == (
                            spec_radii(*self)[k / dlen as int],
                            spec_difficulties(*self)[k % dlen as int],
                        ),
                decreases dlen - j,
            {
                proof {
                    assert(i * dlen + j < radii@.len() * dlen) by (nonlinear_arith)
                        requires
                            0 <= i < radii@.len(),
                            0 <= j < dlen,
                    ;
                    lemma_fundamental_div_mod_converse(
                        i * dlen + j,
                        dlen as int,
                        i as int,
                        j as int,
                    );
                }
                tasks.push((radii[i], diffs[j]));
                j += 1;
            }
            proof {
                assert((i + 1) * dlen == i * dlen + dlen) by (nonlinear_arith);
            }
            i += 1;
        }
        proof {
            assert(tasks@.len() == radii@.len() * dlen);
            assert(tasks@ =~= spec_tasks(*self));
        }

        let load_path: Option<String> = match &self.load {
            Some(p) => Some(p.clone()),
            None => None,
        };

        ResolvedConfig {
            output_dir: self.output.clone(),
            count_per_task: count,
            tasks,
            load_path,
            display: self.display,
            format: self.format,
        }
    }
}

} // verus!
