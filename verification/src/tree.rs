//! The branch states that draw the tree, and the stack that keeps them
//! consistent from one row to the next.

use vstd::prelude::*;

verus! {

/// The state of one level of the tree, as seen from the row being drawn.
#[derive(Clone, Copy, PartialEq, Eq, Debug, Structural)]
pub enum TreePart {
    /// Rightmost column, *not* the last in the directory.
    Edge,
    /// Not the rightmost column, and the directory has not finished yet.
    Line,
    /// Rightmost column, and the last in the directory.
    Corner,
    /// Not the rightmost column, and the directory *has* finished.
    Blank,
}

impl TreePart {
    /// The three characters that draw this state.
    pub open spec fn glyph(self) -> Seq<char> {
        match self {
            TreePart::Edge => seq!['├', '─', '─'],
            TreePart::Line => seq!['│', ' ', ' '],
            TreePart::Corner => seq!['└', '─', '─'],
            TreePart::Blank => seq![' ', ' ', ' '],
        }
    }

    /// The state a level is first drawn in: a corner closes a group of
    /// siblings, an edge leaves it open.
    pub open spec fn opening(last: bool) -> TreePart {
        if last {
            TreePart::Corner
        } else {
            TreePart::Edge
        }
    }

    /// The state a level is left in once its row has been drawn.
    pub open spec fn passed(last: bool) -> TreePart {
        if last {
            TreePart::Blank
        } else {
            TreePart::Line
        }
    }

    pub fn ascii_art(&self) -> (art: &'static str)
        ensures
            art@ == self.glyph(),
    {
        match *self {
            TreePart::Edge => {
                proof {
                    reveal_strlit("├──");
                }
                assert("├──"@ =~= self.glyph());
                "├──"
            },
            TreePart::Line => {
                proof {
                    reveal_strlit("│  ");
                }
                assert("│  "@ =~= self.glyph());
                "│  "
            },
            TreePart::Corner => {
                proof {
                    reveal_strlit("└──");
                }
                assert("└──"@ =~= self.glyph());
                "└──"
            },
            TreePart::Blank => {
                proof {
                    reveal_strlit("   ");
                }
                assert("   "@ =~= self.glyph());
                "   "
            },
        }
    }
}

/// The stack grown to reach `depth`: levels that did not exist yet start as
/// edges, and nothing that was there is dropped.
pub open spec fn grown(stack: Seq<TreePart>, depth: nat) -> Seq<TreePart> {
    if stack.len() > depth {
        stack
    } else {
        stack + Seq::new((depth + 1 - stack.len()) as nat, |i: int| TreePart::Edge)
    }
}

/// The stack as a row at `depth` is drawn: its own level is set first.
pub open spec fn entered(stack: Seq<TreePart>, depth: nat, last: bool) -> Seq<TreePart> {
    grown(stack, depth).update(depth as int, TreePart::opening(last))
}

/// The stack once a row at `depth` has been drawn: its own level is demoted.
pub open spec fn left(stack: Seq<TreePart>, depth: nat, last: bool) -> Seq<TreePart> {
    grown(stack, depth).update(depth as int, TreePart::passed(last))
}

/// The states drawn in front of a row at `depth`: levels 1 to `depth`.
pub open spec fn drawn(stack: Seq<TreePart>, depth: nat, last: bool) -> Seq<TreePart> {
    entered(stack, depth, last).subrange(1, depth as int + 1)
}

/// The stack after the first `n` of `steps`, each a row's depth and its
/// last-sibling flag, starting from an empty stack.
pub open spec fn after(steps: Seq<(nat, bool)>, n: nat) -> Seq<TreePart>
    decreases n,
{
    if n == 0 || n > steps.len() {
        Seq::empty()
    } else {
        left(after(steps, (n - 1) as nat), steps[n - 1].0, steps[n - 1].1)
    }
}

/// The state that row `j` of `steps` sees at `level` while it is drawn.
pub open spec fn part_at(steps: Seq<(nat, bool)>, j: int, level: nat) -> TreePart {
    entered(after(steps, j as nat), steps[j].0, steps[j].1)[level as int]
}

/// A row deeper than `level` leaves that level of the stack as it was.
pub proof fn lemma_deeper_row_keeps_level(
    stack: Seq<TreePart>,
    depth: nat,
    last: bool,
    level: nat,
)
    requires
        level < depth,
        level < stack.len(),
    ensures
        level < left(stack, depth, last).len(),
        left(stack, depth, last)[level as int] == stack[level as int],
        entered(stack, depth, last)[level as int] == stack[level as int],
{
}

/// Below a row that was the last of its siblings, every deeper row sees a
/// blank at that row's level, never a line, until a row at that level or
/// above it follows.
pub proof fn lemma_blank_under_last(steps: Seq<(nat, bool)>, i: int, j: int)
    requires
        0 <= i < j < steps.len(),
        steps[i].1,
        forall|k: int| i < k <= j ==> steps[k].0 > steps[i].0,
    ensures
        part_at(steps, j, steps[i].0) == TreePart::Blank,
{
    let level = steps[i].0;
    lemma_level_stays_blank(steps, i, j);
    lemma_deeper_row_keeps_level(after(steps, j as nat), steps[j].0, steps[j].1, level);
}

/// The inductive core of `lemma_blank_under_last`: the level of row `i` is
/// blank in the stack that row `j` starts from.
proof fn lemma_level_stays_blank(steps: Seq<(nat, bool)>, i: int, j: int)
    requires
        0 <= i < j <= steps.len(),
        steps[i].1,
        forall|k: int| i < k < j ==> steps[k].0 > steps[i].0,
    ensures
        steps[i].0 < after(steps, j as nat).len(),
        after(steps, j as nat)[steps[i].0 as int] == TreePart::Blank,
    decreases j - i,
{
    let level = steps[i].0;
    if j == i + 1 {
        assert(after(steps, j as nat) == left(after(steps, i as nat), level, true));
    } else {
        lemma_level_stays_blank(steps, i, j - 1);
        let before = after(steps, (j - 1) as nat);
        assert(after(steps, j as nat) == left(before, steps[j - 1].0, steps[j - 1].1));
        lemma_deeper_row_keeps_level(before, steps[j - 1].0, steps[j - 1].1, level);
    }
}

/// The stack of branch states that one pass over the rows carries along.
pub struct Branches {
    stack: Vec<TreePart>,
}

impl View for Branches {
    type V = Seq<TreePart>;

    closed spec fn view(&self) -> Seq<TreePart> {
        self.stack@
    }
}

impl Branches {
    pub fn new() -> (branches: Branches)
        ensures
            branches@ == Seq::<TreePart>::empty(),
    {
        Branches { stack: Vec::new() }
    }

    /// Takes the next row: returns the states to draw in front of its name,
    /// and leaves the stack as the rows after it must find it.
    pub fn enter(&mut self, depth: usize, last: bool) -> (parts: Vec<TreePart>)
        requires
            depth < usize::MAX,
        ensures
            parts@ == drawn(old(self)@, depth as nat, last),
            final(self)@ == left(old(self)@, depth as nat, last),
    {
        while self.stack.len() <= depth
            invariant
                depth < usize::MAX,
                self.stack@.len() >= old(self).stack@.len(),
                self.stack@.len() <= depth + 1 || self.stack@.len() == old(self).stack@.len(),
                self.stack@ =~= old(self).stack@ + Seq::new(
                    (self.stack@.len() - old(self).stack@.len()) as nat,
                    |i: int| TreePart::Edge,
                ),
            decreases depth + 1 - self.stack@.len(),
        {
            self.stack.push(TreePart::Edge);
        }
        assert(self.stack@ =~= grown(old(self)@, depth as nat));
        self.stack.set(depth, if last { TreePart::Corner } else { TreePart::Edge });
        let mut parts: Vec<TreePart> = Vec::new();
        let mut level: usize = 1;
        while level <= depth
            invariant
                1 <= level <= depth + 1,
                depth < usize::MAX,
                depth < self.stack@.len(),
                parts@ =~= self.stack@.subrange(1, level as int),
            decreases depth + 1 - level,
        {
            parts.push(self.stack[level]);
            level = level + 1;
        }
        self.stack.set(depth, if last { TreePart::Blank } else { TreePart::Line });
        assert(self.stack@ =~= left(old(self)@, depth as nat, last));
        parts
    }
}

} // verus!
