use vstd::prelude::*;

verus! {

/// The closed set of materials a cell can hold. `Empty` is the universal
/// vacancy value; `Steel` is inert (matched by no transition rule).
#[derive(Clone, Copy, PartialEq, Eq, Structural, Debug)]
pub enum MaterialKind {
    Empty,
    Sand,
    Water,
    Stone,
    Lava,
    Steel,
    Ice,
    Bomb,
    Airplane,
}

/// One grid slot: a material kind and the transient per-tick `moved` flag.
/// The flag is false at the start of every tick, is set only on a cell that
/// becomes the destination of a move during the current tick's scan, and is
/// cleared on every cell when the tick ends.
#[derive(Clone, Copy, PartialEq, Eq, Structural, Debug)]
pub struct Cell {
    pub kind: MaterialKind,
    pub moved: bool,
}

/// An empty, unmoved slot.
pub open spec fn empty_cell() -> Cell {
    Cell { kind: MaterialKind::Empty, moved: false }
}

/// Kinds a falling grain (Sand, Ice) may displace: vacancy or water.
pub open spec fn grain_passable(k: MaterialKind) -> bool {
    k is Empty || k is Water
}

/// Kinds falling Stone sinks through: vacancy, water (pushed up) or lava
/// (destroyed).
pub open spec fn stone_passable(k: MaterialKind) -> bool {
    k is Empty || k is Water || k is Lava
}

impl Cell {
    /// A fresh empty slot.
    pub fn new_empty() -> (c: Cell)
        ensures
            c == empty_cell(),
    {
        Cell { kind: MaterialKind::Empty, moved: false }
    }
}

/// Runtime test for `grain_passable`.
pub fn is_grain_passable(k: MaterialKind) -> (b: bool)
    ensures
        b == grain_passable(k),
{
    k == MaterialKind::Empty || k == MaterialKind::Water
}

/// Runtime test for `stone_passable`.
pub fn is_stone_passable(k: MaterialKind) -> (b: bool)
    ensures
        b == stone_passable(k),
{
    k == MaterialKind::Empty || k == MaterialKind::Water || k == MaterialKind::Lava
}

} // verus!
