use vstd::prelude::*;

verus! {

/// Side length of the square occupancy mask of one rotation state.
pub const MASK_SIZE: usize = 4;

/// Number of rotation states of every piece.
pub const ROTATIONS: usize = 4;

/// Number of built-in piece kinds.
pub const KIND_COUNT: usize = 7;

/// A piece shape: four rotation states, each a 4x4 occupancy mask indexed
/// `[rotation][row][column]`.
#[derive(Debug, Clone, Copy, PartialEq)]
pub struct Tetromino {
    pub rotations: [[[bool; 4]; 4]; 4],
}

impl Tetromino {
    /// Whether mask cell (`y`, `x`) of rotation `r` is occupied.
    pub open spec fn occupied(self, r: int, y: int, x: int) -> bool {
        self.rotations[r][y][x]
    }

    /// Whether rotation `r` has at least one occupied cell.
    pub open spec fn rotation_nonempty(self, r: int) -> bool {
        exists|y: int, x: int| 0 <= y < 4 && 0 <= x < 4 && #[trigger] self.occupied(r, y, x)
    }

    /// Whether every rotation state has an occupied cell.
    pub open spec fn solid(self) -> bool {
        forall|r: int| 0 <= r < 4 ==> #[trigger] self.rotation_nonempty(r)
    }

    /// Whether no rotation state has an occupied cell.
    pub open spec fn is_blank(self) -> bool {
        forall|r: int, y: int, x: int|
            0 <= r < 4 && 0 <= y < 4 && 0 <= x < 4 ==> !#[trigger] self.occupied(r, y, x)
    }

    /// Whether the shape has no occupied cell in any rotation state.
    pub fn is_empty(&self) -> (b: bool)
        ensures
            b == self.is_blank(),
    {
        let mut r: usize = 0;
        while r < 4
            invariant
                r <= 4,
                forall|rr: int, y: int, x: int|
                    0 <= rr < r && 0 <= y < 4 && 0 <= x < 4 ==> !#[trigger] self.occupied(rr, y, x),
            decreases 4 - r,
        {
            let mut y: usize = 0;
            while y < 4
                invariant
                    r < 4,
                    y <= 4,
                    forall|rr: int, yy: int, x: int|
                        0 <= rr < r && 0 <= yy < 4 && 0 <= x < 4 ==> !#[trigger] self.occupied(rr, yy, x),
                    forall|yy: int, x: int| 0 <= yy < y && 0 <= x < 4 ==> !#[trigger] self.occupied(r as int, yy, x),
                decreases 4 - y,
            {
                let mut x: usize = 0;
                while x < 4
                    invariant
                        r < 4,
                        y < 4,
                        x <= 4,
                        forall|rr: int, yy: int, xx: int|
                            0 <= rr < r && 0 <= yy < 4 && 0 <= xx < 4 ==> !#[trigger] self.occupied(rr, yy, xx),
                        forall|yy: int, xx: int| 0 <= yy < y && 0 <= xx < 4 ==> !#[trigger] self.occupied(r as int, yy, xx),
                        forall|xx: int| 0 <= xx < x ==> !#[trigger] self.occupied(r as int, y as int, xx),
                    decreases 4 - x,
                {
                    if self.rotations[r][y][x] {
                        assert(self.occupied(r as int, y as int, x as int));
                        return false;
                    }
                    x += 1;
                }
                y += 1;
            }
            r += 1;
        }
        true
    }
}

/// The shape of piece kind `kind` (0 to 6: I, J, L, O, S, T, Z).
pub open spec fn shape_of(kind: int) -> Tetromino {
    if kind == 0 {
        Tetromino {
            rotations: [
                [
                    [false, false, false, false],
                    [true, true, true, true],
                    [false, false, false, false],
                    [false, false, false, false],
                ],
                [
                    [false, false, true, false],
                    [false, false, true, false],
                    [false, false, true, false],
                    [false, false, true, false],
                ],
                [
                    [false, false, false, false],
                    [false, false, false, false],
                    [true, true, true, true],
                    [false, false, false, false],
                ],
                [
                    [false, true, false, false],
                    [false, true, false, false],
                    [false, true, false, false],
                    [false, true, false, false],
                ],
            ],
        }
    } else if kind == 1 {
        Tetromino {
            rotations: [
                [
                    [true, false, false, false],
                    [true, true, true, false],
                    [false, false, false, false],
                    [false, false, false, false],
                ],
                [
                    [false, true, true, false],
                    [false, true, false, false],
                    [false, true, false, false],
                    [false, false, false, false],
                ],
                [
                    [false, false, false, false],
                    [true, true, true, false],
                    [false, false, true, false],
                    [false, false, false, false],
                ],
                [
                    [false, true, false, false],
                    [false, true, false, false],
                    [true, true, false, false],
                    [false, false, false, false],
                ],
            ],
        }
    } else if kind == 2 {
        Tetromino {
            rotations: [
                [
                    [false, false, true, false],
                    [true, true, true, false],
                    [false, false, false, false],
                    [false, false, false, false],
                ],
                [
                    [false, true, false, false],
                    [false, true, false, false],
                    [false, true, true, false],
                    [false, false, false, false],
                ],
                [
                    [false, false, false, false],
                    [true, true, true, false],
                    [true, false, false, false],
                    [false, false, false, false],
                ],
                [
                    [true, true, false, false],
                    [false, true, false, false],
                    [false, true, false, false],
                    [false, false, false, false],
                ],
            ],
        }
    } else if kind == 3 {
        Tetromino {
            rotations: [
                [
                    [false, true, true, false],
                    [false, true, true, false],
                    [false, false, false, false],
                    [false, false, false, false],
                ],
                [
                    [false, true, true, false],
                    [false, true, true, false],
                    [false, false, false, false],
                    [false, false, false, false],
                ],
                [
                    [false, true, true, false],
                    [false, true, true, false],
                    [false, false, false, false],
                    [false, false, false, false],
                ],
                [
                    [false, true, true, false],
                    [false, true, true, false],
                    [false, false, false, false],
                    [false, false, false, false],
                ],
            ],
        }
    } else if kind == 4 {
        Tetromino {
            rotations: [
                [
                    [false, true, true, false],
                    [true, true, false, false],
                    [false, false, false, false],
                    [false, false, false, false],
                ],
                [
                    [false, true, false, false],
                    [false, true, true, false],
                    [false, false, true, false],
                    [false, false, false, false],
                ],
                [
                    [false, false, false, false],
                    [false, true, true, false],
                    [true, true, false, false],
                    [false, false, false, false],
                ],
                [
                    [true, false, false, false],
                    [true, true, false, false],
                    [false, true, false, false],
                    [false, false, false, false],
                ],
            ],
        }
    } else if kind == 5 {
        Tetromino {
            rotations: [
                [
                    [false, true, false, false],
                    [true, true, true, false],
                    [false, false, false, false],
                    [false, false, false, false],
                ],
                [
                    [false, true, false, false],
                    [false, true, true, false],
                    [false, true, false, false],
                    [false, false, false, false],
                ],
                [
                    [false, false, false, false],
                    [true, true, true, false],
                    [false, true, false, false],
                    [false, false, false, false],
                ],
                [
                    [false, true, false, false],
                    [true, true, false, false],
                    [false, true, false, false],
                    [false, false, false, false],
                ],
            ],
        }
    } else {
        Tetromino {
            rotations: [
                [
                    [true, true, false, false],
                    [false, true, true, false],
                    [false, false, false, false],
                    [false, false, false, false],
                ],
                [
                    [false, false, true, false],
                    [false, true, true, false],
                    [false, true, false, false],
                    [false, false, false, false],
                ],
                [
                    [false, false, false, false],
                    [true, true, false, false],
                    [false, true, true, false],
                    [false, false, false, false],
                ],
                [
                    [false, true, false, false],
                    [true, true, false, false],
                    [true, false, false, false],
                    [false, false, false, false],
                ],
            ],
        }
    }
}

/// The shape of piece kind `kind` (0 to 6: I, J, L, O, S, T, Z).
pub fn tetromino_shape(kind: usize) -> (t: Tetromino)
    requires
        kind < KIND_COUNT,
    ensures
        t == shape_of(kind as int),
{
    if kind == 0 {
        Tetromino {
            rotations: [
                [
                    [false, false, false, false],
                    [true, true, true, true],
                    [false, false, false, false],
                    [false, false, false, false],
                ],
                [
                    [false, false, true, false],
                    [false, false, true, false],
                    [false, false, true, false],
                    [false, false, true, false],
                ],
                [
                    [false, false, false, false],
                    [false, false, false, false],
                    [true, true, true, true],
                    [false, false, false, false],
                ],
                [
                    [false, true, false, false],
                    [false, true, false, false],
                    [false, true, false, false],
                    [false, true, false, false],
                ],
            ],
        }
    } else if kind == 1 {
        Tetromino {
            rotations: [
                [
                    [true, false, false, false],
                    [true, true, true, false],
                    [false, false, false, false],
                    [false, false, false, false],
                ],
                [
                    [false, true, true, false],
                    [false, true, false, false],
                    [false, true, false, false],
                    [false, false, false, false],
                ],
                [
                    [false, false, false, false],
                    [true, true, true, false],
                    [false, false, true, false],
                    [false, false, false, false],
                ],
                [
                    [false, true, false, false],
                    [false, true, false, false],
                    [true, true, false, false],
                    [false, false, false, false],
                ],
            ],
        }
    } else if kind == 2 {
        Tetromino {
            rotations: [
                [
                    [false, false, true, false],
                    [true, true, true, false],
                    [false, false, false, false],
                    [false, false, false, false],
                ],
                [
                    [false, true, false, false],
                    [false, true, false, false],
                    [false, true, true, false],
                    [false, false, false, false],
                ],
                [
                    [false, false, false, false],
                    [true, true, true, false],
                    [true, false, false, false],
                    [false, false, false, false],
                ],
                [
                    [true, true, false, false],
                    [false, true, false, false],
                    [false, true, false, false],
                    [false, false, false, false],
                ],
            ],
        }
    } else if kind == 3 {
        Tetromino {
            rotations: [
                [
                    [false, true, true, false],
                    [false, true, true, false],
                    [false, false, false, false],
                    [false, false, false, false],
                ],
                [
                    [false, true, true, false],
                    [false, true, true, false],
                    [false, false, false, false],
                    [false, false, false, false],
                ],
                [
                    [false, true, true, false],
                    [false, true, true, false],
                    [false, false, false, false],
                    [false, false, false, false],
                ],
                [
                    [false, true, true, false],
                    [false, true, true, false],
                    [false, false, false, false],
                    [false, false, false, false],
                ],
            ],
        }
    } else if kind == 4 {
        Tetromino {
            rotations: [
                [
                    [false, true, true, false],
                    [true, true, false, false],
                    [false, false, false, false],
                    [false, false, false, false],
                ],
                [
                    [false, true, false, false],
                    [false, true, true, false],
                    [false, false, true, false],
                    [false, false, false, false],
                ],
                [
                    [false, false, false, false],
                    [false, true, true, false],
                    [true, true, false, false],
                    [false, false, false, false],
                ],
                [
                    [true, false, false, false],
                    [true, true, false, false],
                    [false, true, false, false],
                    [false, false, false, false],
                ],
            ],
        }
    } else if kind == 5 {
        Tetromino {
            rotations: [
                [
                    [false, true, false, false],
                    [true, true, true, false],
                    [false, false, false, false],
                    [false, false, false, false],
                ],
                [
                    [false, true, false, false],
                    [false, true, true, false],
                    [false, true, false, false],
                    [false, false, false, false],
                ],
                [
                    [false, false, false, false],
                    [true, true, true, false],
                    [false, true, false, false],
                    [false, false, false, false],
                ],
                [
                    [false, true, false, false],
                    [true, true, false, false],
                    [false, true, false, false],
                    [false, false, false, false],
                ],
            ],
        }
    } else {
        Tetromino {
            rotations: [
                [
                    [true, true, false, false],
                    [false, true, true, false],
                    [false, false, false, false],
                    [false, false, false, false],
                ],
                [
                    [false, false, true, false],
                    [false, true, true, false],
                    [false, true, false, false],
                    [false, false, false, false],
                ],
                [
                    [false, false, false, false],
                    [true, true, false, false],
                    [false, true, true, false],
                    [false, false, false, false],
                ],
                [
                    [false, true, false, false],
                    [true, true, false, false],
                    [true, false, false, false],
                    [false, false, false, false],
                ],
            ],
        }
    }
}

/// Every built-in shape has an occupied cell in each rotation state.
pub proof fn lemma_shapes_solid(kind: int)
    requires
        0 <= kind < 7,
    ensures
        shape_of(kind).solid(),
{
    assert forall|r: int| 0 <= r < 4 implies #[trigger] shape_of(kind).rotation_nonempty(r) by {
        lemma_rotations_nonempty(kind, r);
    }
}

/// The shape with no occupied cell, which marks an empty hold slot.
pub fn blank_tetromino() -> (t: Tetromino)
    ensures
        t.is_blank(),
{
    Tetromino { rotations: [[[false; 4]; 4]; 4] }
}

/// Every rotation state of every built-in piece kind occupies at least one
/// mask cell.
pub proof fn lemma_rotations_nonempty(kind: int, r: int)
    requires
        0 <= kind < 7,
        0 <= r < 4,
    ensures
        shape_of(kind).rotation_nonempty(r),
{
    if kind == 0 && r == 0 {
        assert(shape_of(0).occupied(0, 1, 0));
    } else if kind == 0 && r == 1 {
        assert(shape_of(0).occupied(1, 0, 2));
    } else if kind == 0 && r == 2 {
        assert(shape_of(0).occupied(2, 2, 0));
    } else if kind == 0 && r == 3 {
        assert(shape_of(0).occupied(3, 0, 1));
    } else if kind == 1 && r == 0 {
        assert(shape_of(1).occupied(0, 0, 0));
    } else if kind == 1 && r == 1 {
        assert(shape_of(1).occupied(1, 0, 1));
    } else if kind == 1 && r == 2 {
        assert(shape_of(1).occupied(2, 1, 0));
    } else if kind == 1 && r == 3 {
        assert(shape_of(1).occupied(3, 0, 1));
    } else if kind == 2 && r == 0 {
        assert(shape_of(2).occupied(0, 0, 2));
    } else if kind == 2 && r == 1 {
        assert(shape_of(2).occupied(1, 0, 1));
    } else if kind == 2 && r == 2 {
        assert(shape_of(2).occupied(2, 1, 0));
    } else if kind == 2 && r == 3 {
        assert(shape_of(2).occupied(3, 0, 0));
    } else if kind == 3 && r == 0 {
        assert(shape_of(3).occupied(0, 0, 1));
    } else if kind == 3 && r == 1 {
        assert(shape_of(3).occupied(1, 0, 1));
    } else if kind == 3 && r == 2 {
        assert(shape_of(3).occupied(2, 0, 1));
    } else if kind == 3 && r == 3 {
        assert(shape_of(3).occupied(3, 0, 1));
    } else if kind == 4 && r == 0 {
        assert(shape_of(4).occupied(0, 0, 1));
    } else if kind == 4 && r == 1 {
        assert(shape_of(4).occupied(1, 0, 1));
    } else if kind == 4 && r == 2 {
        assert(shape_of(4).occupied(2, 1, 1));
    } else if kind == 4 && r == 3 {
        assert(shape_of(4).occupied(3, 0, 0));
    } else if kind == 5 && r == 0 {
        assert(shape_of(5).occupied(0, 0, 1));
    } else if kind == 5 && r == 1 {
        assert(shape_of(5).occupied(1, 0, 1));
    } else if kind == 5 && r == 2 {
        assert(shape_of(5).occupied(2, 1, 0));
    } else if kind == 5 && r == 3 {
        assert(shape_of(5).occupied(3, 0, 1));
    } else if kind == 6 && r == 0 {
        assert(shape_of(6).occupied(0, 0, 0));
    } else if kind == 6 && r == 1 {
        assert(shape_of(6).occupied(1, 0, 2));
    } else if kind == 6 && r == 2 {
        assert(shape_of(6).occupied(2, 1, 0));
    } else if kind == 6 && r == 3 {
        assert(shape_of(6).occupied(3, 0, 1));
    }
}

} // verus!
