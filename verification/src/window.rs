//! Windows, and the tree that divides the frame among them.

use vstd::prelude::*;

use vstd::arithmetic::power2;

use crate::ids::{BufferId, WindowId};

verus! {

/// How a file is opened.
#[derive(Debug, Clone, Copy, PartialEq, Eq, Structural)]
pub enum OpenType {
    /// In a new buffer.
    New,
    /// In place of the buffer that is shown.
    Visit,
}

/// What a command window is for.
#[derive(Debug, Clone, Copy, PartialEq, Eq, Structural)]
pub enum CommandType {
    Execute,
    /// Asks for an argument.
    Argument,
    BufferSwitch,
    KillBuffer,
    OpenFile(OpenType),
    ISearch { forward: bool },
}

/// At which edge of the frame a command window is.
#[derive(Debug, Clone, Copy, PartialEq, Eq, Structural)]
pub enum CommandWindowPosition {
    Top,
    Bottom,
}

/// Whether a window is for editing or for a command.
#[derive(Debug, Clone, Copy, PartialEq, Eq, Structural)]
pub enum WindowType {
    Normal,
    Command { position: CommandWindowPosition, command_type: CommandType },
}

/// A part of the frame that shows a buffer.
#[derive(Debug, Clone, Copy, PartialEq, Eq, Structural)]
pub struct Window {
    /// Column of the left edge within the frame.
    pub x: u16,
    /// Row of the upper edge within the frame.
    pub y: u16,
    pub width_chars: u16,
    pub height_chars: u16,
    pub active_buffer: BufferId,
    /// Where the cursor is in the buffer.
    pub cursor: usize,
    pub window_type: WindowType,
}

impl Window {
    pub open spec fn is_command(&self) -> bool {
        self.window_type is Command
    }

    pub fn is_command_window(&self) -> (r: bool)
        ensures
            r == self.is_command(),
    {
        match self.window_type {
            WindowType::Normal => false,
            WindowType::Command { .. } => true,
        }
    }
}

/// Whether the parts of a split lie above each other or side by side.
#[derive(Debug, Clone, Copy, PartialEq, Eq, Structural)]
pub enum SplitDirection {
    Horizontal,
    Vertical,
}

// --- Split ratios ---

/// The share of a split that its first part gets: `numer / 2^shift`, a number
/// from 0 to 1 with at most 24 significant bits.
#[derive(Debug, Clone, Copy, PartialEq, Eq, Structural)]
pub struct SplitRatio {
    pub numer: u32,
    pub shift: u8,
}

/// The numbers below this one have at most 24 bits.
pub const SIGNIFICAND_LIMIT: u64 = 0x100_0000;

/// The unit to which `p` is rounded to keep 24 significant bits.
pub open spec fn rounding_unit(p: nat) -> nat
    decreases p,
{
    if p < SIGNIFICAND_LIMIT {
        1
    } else {
        2 * rounding_unit(p / 2)
    }
}

/// `p` rounded to 24 significant bits; between two, to the even one.
pub open spec fn rounded(p: nat) -> nat {
    let unit = rounding_unit(p);
    let q = p / unit;
    let rest = p % unit;
    if 2 * rest > unit || (2 * rest == unit && q % 2 == 1) {
        (q + 1) * unit
    } else {
        q * unit
    }
}

impl SplitRatio {
    /// One half.
    pub open spec fn half_spec() -> SplitRatio {
        SplitRatio { numer: 1, shift: 1 }
    }

    /// Whether the ratio is one: at most 24 bits, and not above 1.
    pub open spec fn wf(&self) -> bool {
        &&& self.numer < SIGNIFICAND_LIMIT
        &&& self.numer <= power2::pow2(self.shift as nat)
    }

    pub fn half() -> (r: SplitRatio)
        ensures
            r == Self::half_spec(),
            r.wf(),
    {
        proof {
            power2::lemma2_to64();
                power2::lemma2_to64_rest();
        }
        SplitRatio { numer: 1, shift: 1 }
    }

    /// The ratio that the bits of a single-precision number stand for: numbers
    /// below 0 count as 0 and those above 1 as 1; what is no number, and the
    /// infinite ones, count as one half.
    pub open spec fn of_float_bits(bits: u32) -> SplitRatio {
        let negative = bits / 0x8000_0000 == 1;
        let exponent = (bits / 0x80_0000) % 256;
        let fraction = bits % 0x80_0000;
        if exponent == 255 {
            Self::half_spec()
        } else if negative {
            SplitRatio { numer: 0, shift: 0 }
        } else if exponent >= 127 {
            SplitRatio { numer: 1, shift: 0 }
        } else if exponent == 0 {
            SplitRatio { numer: fraction, shift: 149 }
        } else {
            SplitRatio { numer: (0x80_0000 + fraction) as u32, shift: (150 - exponent) as u8 }
        }
    }

    /// The ratio that the bits of a single-precision number stand for.
    pub fn from_float_bits(bits: u32) -> (r: SplitRatio)
        ensures
            r == Self::of_float_bits(bits),
            r.wf(),
    {
        let negative = bits / 0x8000_0000 == 1;
        let exponent = (bits / 0x80_0000) % 256;
        let fraction = bits % 0x80_0000;
        if exponent == 255 {
            Self::half()
        } else if negative {
            SplitRatio { numer: 0, shift: 0 }
        } else if exponent >= 127 {
            proof {
                power2::lemma2_to64();
                power2::lemma2_to64_rest();
            }
            SplitRatio { numer: 1, shift: 0 }
        } else if exponent == 0 {
            proof {
                pow2_monotonic(24, 149);
                power2::lemma2_to64();
                power2::lemma2_to64_rest();
            }
            SplitRatio { numer: fraction, shift: 149 }
        } else {
            proof {
                pow2_monotonic(24, (150 - exponent) as nat);
                power2::lemma2_to64();
                power2::lemma2_to64_rest();
            }
            SplitRatio { numer: 0x80_0000 + fraction, shift: (150 - exponent) as u8 }
        }
    }

    /// How much of `total` the first part gets: the product, rounded to 24
    /// significant bits, without its fraction.
    pub open spec fn share(&self, total: u16) -> u16 {
        let part = rounded((total * self.numer) as nat) / power2::pow2(self.shift as nat);
        if part <= total {
            part as u16
        } else {
            total
        }
    }

    /// How much of `total` the first part gets.
    pub fn share_of(&self, total: u16) -> (r: u16)
        requires
            self.wf(),
        ensures
            r == self.share(total),
            r <= total,
    {
        assert(total * self.numer <= 0xffff * 0xff_ffff) by (nonlinear_arith)
            requires
                total <= 0xffff,
                self.numer <= 0xff_ffff,
        ;
        let product: u64 = total as u64 * self.numer as u64;
        let scaled = Self::round(product);
        if self.shift >= 48 {
            proof {
                pow2_monotonic(48, self.shift as nat);
                power2::lemma2_to64();
                power2::lemma2_to64_rest();
                let big = power2::pow2(self.shift as nat);
                assert(scaled as nat / big == 0) by (nonlinear_arith)
                    requires
                        0 <= scaled < big,
                ;
            }
            return 0;
        }
        let divisor = Self::power(self.shift);
        let part = scaled / divisor;
        if part <= total as u64 {
            part as u16
        } else {
            total
        }
    }

    fn power(n: u8) -> (r: u64)
        requires
            n < 48,
        ensures
            r == power2::pow2(n as nat),
            r > 0,
    {
        let mut r: u64 = 1;
        let mut i: u8 = 0;
        proof {
            pow2_monotonic(n as nat, 47);
            power2::lemma2_to64();
                power2::lemma2_to64_rest();
        }
        while i < n
            invariant
                i <= n < 48,
                r == power2::pow2(i as nat),
                r > 0,
                power2::pow2(47) == 0x8000_0000_0000,
            decreases n - i,
        {
            proof {
                pow2_monotonic((i + 1) as nat, 47);
            }
            proof {
                power2::lemma_pow2_unfold((i + 1) as nat);
            }
            r = r * 2;
            i = i + 1;
        }
        r
    }

    fn unit(p: u64) -> (u: u64)
        ensures
            u == rounding_unit(p as nat),
            1 <= u,
            u <= p || u == 1,
        decreases p,
    {
        if p < SIGNIFICAND_LIMIT {
            1
        } else {
            2 * Self::unit(p / 2)
        }
    }

    fn round(p: u64) -> (r: u64)
        requires
            p <= 0xffff * 0xff_ffff,
        ensures
            r == rounded(p as nat),
            r <= 2 * p + 1,
            r < 0x1_0000_0000_0000,
    {
        let unit = Self::unit(p);
        let q = p / unit;
        let rest = p % unit;
        proof {
            assert(q * unit <= p && q * unit + rest == p && rest < unit) by (nonlinear_arith)
                requires
                    unit >= 1,
                    q == p / unit,
                    rest == p % unit,
            ;
            assert((q + 1) * unit == q * unit + unit) by (nonlinear_arith);
            assert(0 <= q * unit) by (nonlinear_arith);
        }
        if 2 * rest > unit || (2 * rest == unit && q % 2 == 1) {
            (q + 1) * unit
        } else {
            q * unit
        }
    }
}

proof fn pow2_monotonic(a: nat, b: nat)
    requires
        a <= b,
    ensures
        1 <= power2::pow2(a) <= power2::pow2(b),
{
    power2::lemma_pow2_pos(a);
    if a < b {
        power2::lemma_pow2_strictly_increases(a, b);
    }
}

// --- The tree ---

/// A node of the window tree: a window, or a split of the space into two parts.
#[derive(Debug)]
pub enum WindowNode {
    Leaf { window_id: WindowId },
    Split {
        direction: SplitDirection,
        ratio: SplitRatio,
        first: Box<WindowNode>,
        second: Box<WindowNode>,
    },
}

impl WindowNode {
    /// The windows of the tree, in order.
    pub open spec fn leaves(self) -> Seq<WindowId>
        decreases self,
    {
        match self {
            WindowNode::Leaf { window_id } => seq![window_id],
            WindowNode::Split { first, second, .. } => first.leaves() + second.leaves(),
        }
    }

    /// Whether all ratios of the tree are ratios.
    pub open spec fn ratios_ok(self) -> bool
        decreases self,
    {
        match self {
            WindowNode::Leaf { .. } => true,
            WindowNode::Split { ratio, first, second, .. } => ratio.wf() && first.ratios_ok()
                && second.ratios_ok(),
        }
    }

    /// The first window of the tree.
    pub open spec fn first_leaf(self) -> WindowId
        decreases self,
    {
        match self {
            WindowNode::Leaf { window_id } => window_id,
            WindowNode::Split { first, .. } => first.first_leaf(),
        }
    }

    /// The tree with `target` split, `added` in the second part.
    pub open spec fn with_split(
        self,
        target: WindowId,
        added: WindowId,
        direction: SplitDirection,
    ) -> WindowNode
        decreases self,
    {
        match self {
            WindowNode::Leaf { window_id } => if window_id == target {
                WindowNode::Split {
                    direction,
                    ratio: SplitRatio::half_spec(),
                    first: Box::new(self),
                    second: Box::new(WindowNode::Leaf { window_id: added }),
                }
            } else {
                self
            },
            WindowNode::Split { direction: d, ratio, first, second } => WindowNode::Split {
                direction: d,
                ratio,
                first: Box::new(first.with_split(target, added, direction)),
                second: Box::new(second.with_split(target, added, direction)),
            },
        }
    }

    /// The tree without `target`, whose sibling takes the place of their split.
    /// A tree that is `target` alone stays.
    pub open spec fn without(self, target: WindowId) -> WindowNode
        decreases self,
    {
        match self {
            WindowNode::Leaf { .. } => self,
            WindowNode::Split { direction, ratio, first, second } => {
                if *first == (WindowNode::Leaf { window_id: target }) {
                    *second
                } else if *second == (WindowNode::Leaf { window_id: target }) {
                    *first
                } else {
                    WindowNode::Split {
                        direction,
                        ratio,
                        first: Box::new(first.without(target)),
                        second: Box::new(second.without(target)),
                    }
                }
            },
        }
    }

    /// The window that gets the space of `target`: the first one of its sibling.
    pub open spec fn heir(self, target: WindowId) -> Option<WindowId>
        decreases self,
    {
        match self {
            WindowNode::Leaf { .. } => None,
            WindowNode::Split { first, second, .. } => {
                if *first == (WindowNode::Leaf { window_id: target }) {
                    Some(second.first_leaf())
                } else if *second == (WindowNode::Leaf { window_id: target }) {
                    Some(first.first_leaf())
                } else if first.leaves().contains(target) {
                    first.heir(target)
                } else if second.leaves().contains(target) {
                    second.heir(target)
                } else {
                    None
                }
            },
        }
    }

    pub fn new_leaf(window_id: WindowId) -> (r: Self)
        ensures
            r == (WindowNode::Leaf { window_id }),
    {
        WindowNode::Leaf { window_id }
    }

    pub fn new_split(
        direction: SplitDirection,
        ratio: SplitRatio,
        first: WindowNode,
        second: WindowNode,
    ) -> (r: Self)
        ensures
            r == (WindowNode::Split {
                direction,
                ratio,
                first: Box::new(first),
                second: Box::new(second),
            }),
    {
        WindowNode::Split { direction, ratio, first: Box::new(first), second: Box::new(second) }
    }

    /// The same tree once more.
    pub fn copy(&self) -> (r: Self)
        ensures
            r == *self,
        decreases self,
    {
        match self {
            WindowNode::Leaf { window_id } => WindowNode::Leaf { window_id: *window_id },
            WindowNode::Split { direction, ratio, first, second } => {
                let a = first.copy();
                let b = second.copy();
                Self::new_split(*direction, *ratio, a, b)
            },
        }
    }

    /// The first window of the tree.
    pub fn find_first_window(&self) -> (r: WindowId)
        ensures
            r == self.first_leaf(),
        decreases self,
    {
        match self {
            WindowNode::Leaf { window_id } => *window_id,
            WindowNode::Split { first, .. } => first.find_first_window(),
        }
    }

    /// The tree with `target` split in two, `added` in the second part.
    pub fn split_node(
        &self,
        target: WindowId,
        added: WindowId,
        direction: SplitDirection,
    ) -> (r: Self)
        ensures
            r == self.with_split(target, added, direction),
        decreases self,
    {
        match self {
            WindowNode::Leaf { window_id } => if *window_id == target {
                Self::new_split(
                    direction,
                    SplitRatio::half(),
                    Self::new_leaf(*window_id),
                    Self::new_leaf(added),
                )
            } else {
                Self::new_leaf(*window_id)
            },
            WindowNode::Split { direction: d, ratio, first, second } => {
                let a = first.split_node(target, added, direction);
                let b = second.split_node(target, added, direction);
                Self::new_split(*d, *ratio, a, b)
            },
        }
    }

    fn is_leaf_of(&self, target: WindowId) -> (r: bool)
        ensures
            r == (*self == (WindowNode::Leaf { window_id: target })),
    {
        match self {
            WindowNode::Leaf { window_id } => *window_id == target,
            WindowNode::Split { .. } => false,
        }
    }

    /// The tree without `target`, whether `target` was in it, and the window
    /// that gets its space.
    pub fn delete_node_with_selection(
        &self,
        target: WindowId,
    ) -> (r: (WindowNode, bool, Option<WindowId>))
        requires
            holds_at_most_once(self.leaves(), target),
        ensures
            r.0 == self.without(target),
            r.1 == self.leaves().contains(target),
            r.2 == self.heir(target),
        decreases self,
    {
        match self {
            WindowNode::Leaf { window_id } => {
                assert(self.leaves()[0] == *window_id);
                (Self::new_leaf(*window_id), *window_id == target, None)
            },
            WindowNode::Split { direction, ratio, first, second } => {
                proof {
                    parts_hold_at_most_once(first.leaves(), second.leaves(), target);
                    contains_of_sum(first.leaves(), second.leaves(), target);
                }
                let (new_first, in_first, first_heir) = first.delete_node_with_selection(target);
                let (new_second, in_second, second_heir) = second.delete_node_with_selection(
                    target,
                );
                if first.is_leaf_of(target) {
                    assert(first.leaves()[0] == target);
                    proof {
                        unchanged_without(**second, target);
                    }
                    let suggested = new_second.find_first_window();
                    (new_second, true, Some(suggested))
                } else if second.is_leaf_of(target) {
                    assert(second.leaves()[0] == target);
                    proof {
                        unchanged_without(**first, target);
                    }
                    let suggested = new_first.find_first_window();
                    (new_first, true, Some(suggested))
                } else {
                    let tree = Self::new_split(*direction, *ratio, new_first, new_second);
                    if in_first {
                        (tree, true, first_heir)
                    } else if in_second {
                        (tree, true, second_heir)
                    } else {
                        (tree, false, None)
                    }
                }
            },
        }
    }
}

pub(crate) proof fn contains_of_sum(a: Seq<WindowId>, b: Seq<WindowId>, id: WindowId)
    ensures
        (a + b).contains(id) <==> a.contains(id) || b.contains(id),
{
    if a.contains(id) {
        let i = choose|i: int| 0 <= i < a.len() && a[i] == id;
        assert((a + b)[i] == id);
    }
    if b.contains(id) {
        let i = choose|i: int| 0 <= i < b.len() && b[i] == id;
        assert((a + b)[a.len() + i] == id);
    }
}

/// Whether `id` stands at no two places.
pub open spec fn holds_at_most_once(s: Seq<WindowId>, id: WindowId) -> bool {
    forall|i: int, j: int|
        0 <= i < s.len() && 0 <= j < s.len() && #[trigger] s[i] == id && #[trigger] s[j] == id ==> i
            == j
}

proof fn parts_hold_at_most_once(a: Seq<WindowId>, b: Seq<WindowId>, id: WindowId)
    requires
        holds_at_most_once(a + b, id),
    ensures
        holds_at_most_once(a, id),
        holds_at_most_once(b, id),
        !(a.contains(id) && b.contains(id)),
{
    let s = a + b;
    assert forall|i: int, j: int|
        0 <= i < a.len() && 0 <= j < a.len() && #[trigger] a[i] == id && #[trigger] a[j]
            == id implies i == j by {
        assert(s[i] == id && s[j] == id);
    }
    assert forall|i: int, j: int|
        0 <= i < b.len() && 0 <= j < b.len() && #[trigger] b[i] == id && #[trigger] b[j]
            == id implies i == j by {
        assert(s[a.len() + i] == id && s[a.len() + j] == id);
    }
    if a.contains(id) && b.contains(id) {
        let i = choose|i: int| 0 <= i < a.len() && a[i] == id;
        let j = choose|j: int| 0 <= j < b.len() && b[j] == id;
        assert(s[i] == id && s[a.len() + j] == id);
    }
}

pub(crate) proof fn parts_of_distinct(a: Seq<WindowId>, b: Seq<WindowId>)
    requires
        (a + b).no_duplicates(),
    ensures
        a.no_duplicates(),
        b.no_duplicates(),
        forall|id: WindowId| a.contains(id) ==> !b.contains(id),
{
    assert forall|i: int, j: int| 0 <= i < a.len() && 0 <= j < a.len() && i != j implies a[i]
        != a[j] by {
        assert((a + b)[i] != (a + b)[j]);
    }
    assert forall|i: int, j: int| 0 <= i < b.len() && 0 <= j < b.len() && i != j implies b[i]
        != b[j] by {
        assert((a + b)[a.len() + i] != (a + b)[a.len() + j]);
    }
    assert forall|id: WindowId| a.contains(id) implies !b.contains(id) by {
        if b.contains(id) {
            let i = choose|i: int| 0 <= i < a.len() && a[i] == id;
            let j = choose|j: int| 0 <= j < b.len() && b[j] == id;
            assert((a + b)[i] == (a + b)[a.len() + j]);
        }
    }
}

proof fn sum_of_distinct(a: Seq<WindowId>, b: Seq<WindowId>)
    requires
        a.no_duplicates(),
        b.no_duplicates(),
        forall|id: WindowId| a.contains(id) ==> !b.contains(id),
    ensures
        (a + b).no_duplicates(),
{
    assert forall|i: int, j: int|
        0 <= i < (a + b).len() && 0 <= j < (a + b).len() && i != j implies (a + b)[i] != (a
        + b)[j] by {
        if i < a.len() && j >= a.len() {
            assert(a.contains(a[i]));
            assert(b[j - a.len()] == (a + b)[j]);
        } else if j < a.len() && i >= a.len() {
            assert(a.contains(a[j]));
            assert(b[i - a.len()] == (a + b)[i]);
        }
    }
}

/// A tree has at least one window, and the first is among them.
pub proof fn first_leaf_is_leaf(node: WindowNode)
    ensures
        node.leaves().len() > 0,
        node.leaves()[0] == node.first_leaf(),
        node.leaves().contains(node.first_leaf()),
    decreases node,
{
    match node {
        WindowNode::Leaf { window_id } => {
            assert(node.leaves()[0] == window_id);
        },
        WindowNode::Split { first, second, .. } => {
            first_leaf_is_leaf(*first);
            assert((first.leaves() + second.leaves())[0] == first.leaves()[0]);
        },
    }
}

/// A tree that does not hold a window is the same without it.
pub proof fn unchanged_without(node: WindowNode, target: WindowId)
    requires
        !node.leaves().contains(target),
    ensures
        node.without(target) == node,
    decreases node,
{
    match node {
        WindowNode::Leaf { .. } => {},
        WindowNode::Split { first, second, .. } => {
            contains_of_sum(first.leaves(), second.leaves(), target);
            unchanged_without(*first, target);
            unchanged_without(*second, target);
            if *first == (WindowNode::Leaf { window_id: target }) {
                assert(first.leaves()[0] == target);
            }
            if *second == (WindowNode::Leaf { window_id: target }) {
                assert(second.leaves()[0] == target);
            }
        },
    }
}

/// Without a window, a tree of more than one holds the other windows, and only
/// those.
pub proof fn without_removes_leaf(node: WindowNode, target: WindowId)
    requires
        node.leaves().no_duplicates(),
        node != (WindowNode::Leaf { window_id: target }),
    ensures
        node.without(target).leaves().no_duplicates(),
        forall|id: WindowId| #[trigger]
            node.without(target).leaves().contains(id) <==> node.leaves().contains(id) && id
                != target,
    decreases node,
{
    match node {
        WindowNode::Leaf { window_id } => {
            assert(node.leaves()[0] == window_id);
        },
        WindowNode::Split { first, second, .. } => {
            let a = first.leaves();
            let b = second.leaves();
            parts_of_distinct(a, b);
            assert forall|id: WindowId| node.leaves().contains(id) <==> a.contains(id)
                || b.contains(id) by {
                contains_of_sum(a, b, id);
            }
            if *first == (WindowNode::Leaf { window_id: target }) {
                assert(a[0] == target);
                assert(a.contains(target));
                assert forall|id: WindowId| a.contains(id) implies id == target by {}
            } else if *second == (WindowNode::Leaf { window_id: target }) {
                assert(b[0] == target);
                assert(b.contains(target));
                assert forall|id: WindowId| b.contains(id) implies id == target by {}
            } else {
                without_removes_leaf(*first, target);
                without_removes_leaf(*second, target);
                let c = first.without(target).leaves();
                let d = second.without(target).leaves();
                assert forall|id: WindowId| c.contains(id) implies !d.contains(id) by {
                    assert(first.without(target).leaves().contains(id));
                    assert(a.contains(id));
                    if d.contains(id) {
                        assert(second.without(target).leaves().contains(id));
                    }
                }
                sum_of_distinct(c, d);
                assert forall|id: WindowId| #[trigger]
                    node.without(target).leaves().contains(id) <==> node.leaves().contains(id)
                        && id != target by {
                    contains_of_sum(c, d, id);
                    contains_of_sum(a, b, id);
                    assert(first.without(target).leaves().contains(id) <==> a.contains(id) && id
                        != target);
                    assert(second.without(target).leaves().contains(id) <==> b.contains(id) && id
                        != target);
                }
            }
        },
    }
}

/// The heir of a window is another window of the tree.
pub proof fn heir_is_other_leaf(node: WindowNode, target: WindowId)
    requires
        node.leaves().no_duplicates(),
        node.leaves().contains(target),
        node != (WindowNode::Leaf { window_id: target }),
    ensures
        node.heir(target) matches Some(id) && node.leaves().contains(id) && id != target,
    decreases node,
{
    match node {
        WindowNode::Leaf { window_id } => {
            assert(node.leaves()[0] == window_id);
        },
        WindowNode::Split { first, second, .. } => {
            let a = first.leaves();
            let b = second.leaves();
            parts_of_distinct(a, b);
            contains_of_sum(a, b, target);
            first_leaf_is_leaf(*first);
            first_leaf_is_leaf(*second);
            contains_of_sum(a, b, first.first_leaf());
            contains_of_sum(a, b, second.first_leaf());
            if *first == (WindowNode::Leaf { window_id: target }) {
                assert(a[0] == target);
                assert(a.contains(target));
            } else if *second == (WindowNode::Leaf { window_id: target }) {
                assert(b[0] == target);
                assert(b.contains(target));
            } else if a.contains(target) {
                heir_is_other_leaf(*first, target);
                contains_of_sum(a, b, first.heir(target)->0);
            } else {
                heir_is_other_leaf(*second, target);
                contains_of_sum(a, b, second.heir(target)->0);
            }
        },
    }
}

/// Splitting a window adds the new one to the windows of the tree.
pub proof fn split_adds_leaf(
    node: WindowNode,
    target: WindowId,
    added: WindowId,
    direction: SplitDirection,
)
    requires
        node.leaves().no_duplicates(),
        !node.leaves().contains(added),
    ensures
        node.with_split(target, added, direction).leaves().no_duplicates(),
        forall|id: WindowId| #[trigger]
            node.with_split(target, added, direction).leaves().contains(id) <==> (
            node.leaves().contains(id) || (id == added && node.leaves().contains(target))),
        node.ratios_ok() ==> node.with_split(target, added, direction).ratios_ok(),
    decreases node,
{
    let after = node.with_split(target, added, direction);
    match node {
        WindowNode::Leaf { window_id } => {
            assert(node.leaves()[0] == window_id);
            if window_id == target {
                reveal_with_fuel(WindowNode::leaves, 3);
                assert(after.leaves() =~= seq![target, added]);
                assert(after.leaves()[0] == target);
                assert(after.leaves()[1] == added);
                power2::lemma2_to64();
                power2::lemma2_to64_rest();
                assert(after.ratios_ok()) by {
                    reveal_with_fuel(WindowNode::ratios_ok, 3);
                }
            }
        },
        WindowNode::Split { first, second, .. } => {
            let a = first.leaves();
            let b = second.leaves();
            parts_of_distinct(a, b);
            contains_of_sum(a, b, added);
            contains_of_sum(a, b, target);
            split_adds_leaf(*first, target, added, direction);
            split_adds_leaf(*second, target, added, direction);
            let c = first.with_split(target, added, direction).leaves();
            let d = second.with_split(target, added, direction).leaves();
            assert forall|id: WindowId| c.contains(id) implies !d.contains(id) by {
                assert(first.with_split(target, added, direction).leaves().contains(id));
                if d.contains(id) {
                    assert(second.with_split(target, added, direction).leaves().contains(id));
                }
            }
            sum_of_distinct(c, d);
            assert forall|id: WindowId| #[trigger]
                after.leaves().contains(id) <==> (node.leaves().contains(id) || (id == added
                    && node.leaves().contains(target))) by {
                contains_of_sum(c, d, id);
                contains_of_sum(a, b, id);
                assert(first.with_split(target, added, direction).leaves().contains(id) <==> (
                a.contains(id) || (id == added && a.contains(target))));
                assert(second.with_split(target, added, direction).leaves().contains(id) <==> (
                b.contains(id) || (id == added && b.contains(target))));
            }
        },
    }
}

/// Removing a window keeps the ratios of the tree ratios.
pub proof fn without_keeps_ratios(node: WindowNode, target: WindowId)
    requires
        node.ratios_ok(),
    ensures
        node.without(target).ratios_ok(),
    decreases node,
{
    match node {
        WindowNode::Leaf { .. } => {},
        WindowNode::Split { first, second, .. } => {
            without_keeps_ratios(*first, target);
            without_keeps_ratios(*second, target);
        },
    }
}

/// Removing a window right after it was split off gives back the tree.
pub proof fn without_undoes_split(
    node: WindowNode,
    target: WindowId,
    added: WindowId,
    direction: SplitDirection,
)
    requires
        !node.leaves().contains(added),
    ensures
        node.with_split(target, added, direction).without(added) == node,
    decreases node,
{
    match node {
        WindowNode::Leaf { window_id } => {
            assert(node.leaves()[0] == window_id);
        },
        WindowNode::Split { first, second, .. } => {
            contains_of_sum(first.leaves(), second.leaves(), added);
            without_undoes_split(*first, target, added, direction);
            without_undoes_split(*second, target, added, direction);
            match *first {
                WindowNode::Leaf { window_id } => {
                    assert(first.leaves()[0] == window_id);
                },
                _ => {},
            }
            match *second {
                WindowNode::Leaf { window_id } => {
                    assert(second.leaves()[0] == window_id);
                },
                _ => {},
            }
        },
    }
}

} // verus!
