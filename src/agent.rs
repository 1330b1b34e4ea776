use vstd::prelude::*;

verus! {

/// One of the four moves; also carried across boundaries as a byte tag.
#[derive(Clone, Copy, Debug, PartialEq, Eq, Structural)]
pub enum Action {
    Up,
    Down,
    Left,
    Right,
}

/// How the ghost picks its move.
#[derive(Clone, Copy, Debug, PartialEq, Eq, Structural)]
pub enum GhostPolicy {
    Random,
    Chaser,
}

impl Action {
    /// The byte tag: 0 = Up, 1 = Down, 2 = Left, 3 = Right.
    pub open spec fn tag(self) -> u8 {
        match self {
            Action::Up => 0,
            Action::Down => 1,
            Action::Left => 2,
            Action::Right => 3,
        }
    }

    /// The action whose tag is `t` (meaningful for `t < 4`).
    pub open spec fn of_tag(t: u8) -> Action {
        if t == 0 {
            Action::Up
        } else if t == 1 {
            Action::Down
        } else if t == 2 {
            Action::Left
        } else {
            Action::Right
        }
    }

    /// Position in the clockwise cycle Up, Right, Down, Left.
    pub open spec fn clockwise_index(self) -> nat {
        match self {
            Action::Up => 0,
            Action::Right => 1,
            Action::Down => 2,
            Action::Left => 3,
        }
    }

    /// The action at position `i % 4` of the clockwise cycle.
    pub open spec fn of_clockwise(i: nat) -> Action {
        let k = i % 4;
        if k == 0 {
            Action::Up
        } else if k == 1 {
            Action::Right
        } else if k == 2 {
            Action::Down
        } else {
            Action::Left
        }
    }

    /// The action `k` quarter turns clockwise from `self`.
    pub open spec fn spec_rotate(self, k: nat) -> Action {
        Action::of_clockwise(self.clockwise_index() + k)
    }

    /// Unit displacement of the action, with y growing downwards.
    pub open spec fn delta(self) -> (int, int) {
        match self {
            Action::Up => (0, -1),
            Action::Right => (1, 0),
            Action::Down => (0, 1),
            Action::Left => (-1, 0),
        }
    }

    pub fn to_int(&self) -> (r: u8)
        ensures
            r == self.tag(),
            r < 4,
    {
        match self {
            Action::Up => 0,
            Action::Down => 1,
            Action::Left => 2,
            Action::Right => 3,
        }
    }

    pub fn from_int(tag: u8) -> (r: Action)
        requires
            tag < 4,
        ensures
            r == Action::of_tag(tag),
            r.tag() == tag,
    {
        if tag == 0 {
            Action::Up
        } else if tag == 1 {
            Action::Down
        } else if tag == 2 {
            Action::Left
        } else {
            Action::Right
        }
    }

    /// The action `k` quarter turns clockwise from this one: 0 is the action
    /// itself, 1 its clockwise neighbour, 2 its opposite, 3 its
    /// counter-clockwise neighbour.
    pub fn rotate(&self, k: usize) -> (r: Action)
        ensures
            r == self.spec_rotate(k as nat),
    {
        let base: usize = match self {
            Action::Up => 0,
            Action::Right => 1,
            Action::Down => 2,
            Action::Left => 3,
        };
        let i: usize = (base + k % 4) % 4;
        assert((base as nat + k as nat) % 4 == i as nat) by (nonlinear_arith)
            requires
                i == (base + k % 4) % 4,
                base < 4,
        ;
        if i == 0 {
            Action::Up
        } else if i == 1 {
            Action::Right
        } else if i == 2 {
            Action::Down
        } else {
            Action::Left
        }
    }

    /// The action's name.
    pub fn label(&self) -> (r: &'static str)
        ensures
            *self == Action::Up ==> r@ == "Up"@,
            *self == Action::Down ==> r@ == "Down"@,
            *self == Action::Left ==> r@ == "Left"@,
            *self == Action::Right ==> r@ == "Right"@,
    {
        match self {
            Action::Up => {
                proof {
                    reveal_strlit("Up");
                }
                "Up"
            },
            Action::Down => {
                proof {
                    reveal_strlit("Down");
                }
                "Down"
            },
            Action::Left => {
                proof {
                    reveal_strlit("Left");
                }
                "Left"
            },
            Action::Right => {
                proof {
                    reveal_strlit("Right");
                }
                "Right"
            },
        }
    }
}

impl From<Action> for u8 {
    fn from(action: Action) -> (r: u8) {
        action.to_int()
    }
}

impl vstd::std_specs::convert::FromSpecImpl<Action> for u8 {
    open spec fn obeys_from_spec() -> bool {
        true
    }

    open spec fn from_spec(action: Action) -> u8 {
        action.tag()
    }
}

/// An action for every cell, row by row: the action for `(x, y)` of a
/// grid `width` cells wide is at `x + y * width`.
#[derive(Clone, Debug)]
pub struct Policy(pub Vec<Action>);

impl Policy {
    /// The action the policy gives at `position`.
    pub fn action_at(&self, position: (usize, usize), width: usize) -> (r: Action)
        requires
            position.0 + position.1 * width < self.0@.len(),
        ensures
            r == self.0@[position.0 + position.1 * width],
    {
        let n = self.0.len();
        assert(0 <= position.1 as int * width as int) by (nonlinear_arith);
        assert(position.0 + position.1 * width < n);
        self.0[position.0 + position.1 * width]
    }
}

/// Distance between two coordinates.
pub open spec fn gap(a: int, b: int) -> int {
    if a >= b {
        a - b
    } else {
        b - a
    }
}

/// The chaser's move from `ghost` towards `agent`: along the axis with the
/// larger gap, and vertically when the gaps are equal.
pub open spec fn chase(agent: (usize, usize), ghost: (usize, usize)) -> Action {
    let dx = agent.0 as int - ghost.0 as int;
    let dy = agent.1 as int - ghost.1 as int;
    if gap(agent.0 as int, ghost.0 as int) > gap(agent.1 as int, ghost.1 as int) {
        if dx > 0 {
            Action::Right
        } else {
            Action::Left
        }
    } else if dy > 0 {
        Action::Down
    } else {
        Action::Up
    }
}

/// Chooses the chaser's move from `ghost` towards `agent`.
pub fn chase_action(agent: (usize, usize), ghost: (usize, usize)) -> (r: Action)
    ensures
        r == chase(agent, ghost),
{
    let gx: usize = if agent.0 >= ghost.0 {
        agent.0 - ghost.0
    } else {
        ghost.0 - agent.0
    };
    let gy: usize = if agent.1 >= ghost.1 {
        agent.1 - ghost.1
    } else {
        ghost.1 - agent.1
    };
    if gx > gy {
        if agent.0 > ghost.0 {
            Action::Right
        } else {
            Action::Left
        }
    } else if agent.1 > ghost.1 {
        Action::Down
    } else {
        Action::Up
    }
}

} // verus!
