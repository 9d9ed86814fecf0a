//! A dense three-dimensional grid for a neural network: `x` layers of `y`
//! nodes with `z` weights each, stored flat in `[x][y][z]` order.

use vstd::prelude::*;

verus! {

/// The contents of a grid: its dimensions and its cells in flat order.
pub struct Grid<T> {
    pub x: nat,
    pub y: nat,
    pub z: nat,
    pub cells: Seq<T>,
}

impl<T> Grid<T> {
    /// The coordinate lies inside the grid.
    pub open spec fn in_bounds(&self, x: int, y: int, z: int) -> bool {
        0 <= x < self.x && 0 <= y < self.y && 0 <= z < self.z
    }

    /// The flat position of a coordinate: `x * (y_n * z_n) + y * z_n + z`.
    pub open spec fn flat(&self, x: int, y: int, z: int) -> int {
        x * (self.y * self.z) + y * self.z + z
    }

    /// The coordinate, given as indices, lies inside the grid.
    pub open spec fn has(&self, x: usize, y: usize, z: usize) -> bool {
        self.in_bounds(x as int, y as int, z as int)
    }

    /// The cell at a coordinate given as indices.
    pub open spec fn at(&self, x: usize, y: usize, z: usize) -> T {
        self.cells[self.flat(x as int, y as int, z as int)]
    }
}

/// A compact, flat 3D grid: layers (x), nodes per layer (y) and weights
/// per node (z).
#[derive(Debug)]
pub struct NeuralNetwork<T> {
    x_layers: usize,
    y_nodes: usize,
    z_weights: usize,
    data: Vec<T>,
}

impl<T> View for NeuralNetwork<T> {
    type V = Grid<T>;

    closed spec fn view(&self) -> Grid<T> {
        Grid {
            x: self.x_layers as nat,
            y: self.y_nodes as nat,
            z: self.z_weights as nat,
            cells: self.data@,
        }
    }
}

/// Every coordinate inside the grid has its own cell.
pub proof fn lemma_flat_in_range(xn: nat, yn: nat, zn: nat, x: int, y: int, z: int)
    requires
        0 <= x < xn,
        0 <= y < yn,
        0 <= z < zn,
    ensures
        0 <= x * (yn * zn) + y * zn + z < xn * yn * zn,
        yn * zn <= xn * yn * zn,
{
    assert(0 <= y * zn + z < yn * zn) by (nonlinear_arith)
        requires
            0 <= y < yn,
            0 <= z < zn,
    ;
    assert(0 <= x * (yn * zn) + y * zn + z < xn * (yn * zn)) by (nonlinear_arith)
        requires
            0 <= x < xn,
            0 <= y * zn + z < yn * zn,
    ;
    assert(xn * (yn * zn) == xn * yn * zn) by (nonlinear_arith);
    assert(yn * zn <= xn * (yn * zn)) by (nonlinear_arith)
        requires
            1 <= xn,
    ;
}

impl<T> NeuralNetwork<T> {
    /// The cell count matches the dimensions.
    pub open spec fn wf(&self) -> bool {
        self@.cells.len() == self@.x * self@.y * self@.z
    }

    /// Every network keeps one cell per coordinate.
    #[verifier::type_invariant]
    spec fn cells_fit(&self) -> bool {
        self.wf()
    }

    /// A network with every cell a clone of `value`. The dimensions must
    /// not overflow when multiplied (`x * y`, then `* z`).
    pub fn new_with_value(x_layers: usize, y_nodes: usize, z_weights: usize, value: T) -> (r: Self)
        where
            T: Clone,
        requires
            x_layers * y_nodes <= usize::MAX,
            x_layers * y_nodes * z_weights <= usize::MAX,
        ensures
            r.wf(),
            r@.x == x_layers,
            r@.y == y_nodes,
            r@.z == z_weights,
            forall|i: int| 0 <= i < r@.cells.len() ==> cloned(value, #[trigger] r@.cells[i]),
    {
        let xy = x_layers * y_nodes;
        let size = xy * z_weights;
        let data = vec![value; size];
        NeuralNetwork { x_layers, y_nodes, z_weights, data }
    }

    /// A network over the given cells, when `x * y` does not overflow and
    /// the number of cells is `x * y * z`.
    pub fn from_cells(x_layers: usize, y_nodes: usize, z_weights: usize, data: Vec<T>) -> (r: Option<Self>)
        ensures
            match r {
                Some(nn) => nn.wf() && nn@ == (Grid { x: x_layers as nat, y: y_nodes as nat, z: z_weights as nat, cells: data@ }),
                None => !(x_layers * y_nodes <= usize::MAX && data@.len() == x_layers * y_nodes * z_weights),
            },
    {
        let n = data.len();
        let ok = match x_layers.checked_mul(y_nodes) {
            Some(v) => match v.checked_mul(z_weights) {
                Some(s) => s == n,
                None => false,
            },
            None => false,
        };
        if ok {
            Some(NeuralNetwork { x_layers, y_nodes, z_weights, data })
        } else {
            None
        }
    }

    /// Dimensions as `(x_layers, y_nodes, z_weights)`.
    pub fn dims(&self) -> (r: (usize, usize, usize))
        ensures
            r.0 == self@.x && r.1 == self@.y && r.2 == self@.z,
            self.wf(),
    {
        proof {
            use_type_invariant(self);
        }
        (self.x_layers, self.y_nodes, self.z_weights)
    }

    /// Total number of cells (`x * y * z`).
    pub fn len(&self) -> (r: usize)
        ensures
            r == self@.cells.len(),
    {
        self.data.len()
    }

    /// Whether the grid has no cells.
    pub fn is_empty(&self) -> (r: bool)
        ensures
            r == (self@.cells.len() == 0),
    {
        self.data.len() == 0
    }

    /// The flat index of a coordinate, if it lies inside the grid.
    fn index(&self, x: usize, y: usize, z: usize) -> (r: Option<usize>)
        ensures
            match r {
                Some(i) => self@.in_bounds(x as int, y as int, z as int) && i == self@.flat(
                    x as int,
                    y as int,
                    z as int,
                ) && i < self@.cells.len(),
                None => !self@.in_bounds(x as int, y as int, z as int),
            },
    {
        proof {
            use_type_invariant(self);
        }
        let _n = self.data.len();
        if x < self.x_layers && y < self.y_nodes && z < self.z_weights {
            proof {
                lemma_flat_in_range(
                    self.x_layers as nat,
                    self.y_nodes as nat,
                    self.z_weights as nat,
                    x as int,
                    y as int,
                    z as int,
                );
                assert(x * (self.y_nodes * self.z_weights) <= x * (self.y_nodes * self.z_weights) + y * self.z_weights + z);
                assert(y * self.z_weights <= x * (self.y_nodes * self.z_weights) + y * self.z_weights + z) by (nonlinear_arith)
                    requires
                        x >= 0,
                        self.y_nodes * self.z_weights >= 0,
                        z >= 0,
                ;
            }
            let yz = self.y_nodes * self.z_weights;
            Some(x * yz + y * self.z_weights + z)
        } else {
            None
        }
    }

    /// The cell at a coordinate, or `None` outside the grid.
    pub fn get(&self, x: usize, y: usize, z: usize) -> (r: Option<&T>)
        ensures
            match r {
                Some(v) => self@.in_bounds(x as int, y as int, z as int) && *v == self@.cells[self@.flat(
                    x as int,
                    y as int,
                    z as int,
                )],
                None => !self@.in_bounds(x as int, y as int, z as int),
            },
    {
        match self.index(x, y, z) {
            Some(i) => Some(&self.data[i]),
            None => None,
        }
    }

    /// The cell at a coordinate for writing, or `None` outside the grid.
    pub fn get_mut(&mut self, x: usize, y: usize, z: usize) -> (r: Option<&mut T>)
        ensures
            match r {
                Some(v) => old(self)@.in_bounds(x as int, y as int, z as int) && *v == old(self)@.cells[old(
                    self,
                )@.flat(x as int, y as int, z as int)] && final(self)@ == (Grid {
                    cells: old(self)@.cells.update(
                        old(self)@.flat(x as int, y as int, z as int),
                        *final(v),
                    ),
                    ..old(self)@
                }),
                None => !old(self)@.in_bounds(x as int, y as int, z as int) && final(self)@ == old(self)@,
            },
            final(self).wf(),
    {
        proof {
            use_type_invariant(&*self);
        }
        match self.index(x, y, z) {
            Some(i) => Some(&mut self.data[i]),
            None => None,
        }
    }

    /// Calls `f` with every coordinate and its cell, in `[x][y][z]` order.
    pub fn for_each<F: FnMut(usize, usize, usize, &T)>(&self, mut f: F)
        requires
            forall|x: usize, y: usize, z: usize, v: &T| call_requires(f, (x, y, z, v)),
        ensures
            forall|a: usize, b: usize, c: usize|
                #![trigger self@.has(a, b, c)]
                #![trigger self@.at(a, b, c)]
                self@.has(a, b, c) ==> call_ensures(f, (a, b, c, &self@.at(a, b, c)), ()),
    {
        proof {
            use_type_invariant(&*self);
        }
        let (x_max, y_max, z_max) = self.dims();
        let _n = self.data.len();
        let ghost g = self@;
        let ghost f0 = f;
        let ghost mut pos: int = 0;
        let mut x: usize = 0;
        while x < x_max
            invariant
                x <= x_max == self@.x,
                y_max == self@.y,
                z_max == self@.z,
                self.wf(),
                g == self@,
                _n == self@.cells.len(),
                pos == x * (y_max * z_max),
                forall|x: usize, y: usize, z: usize, v: &T| call_requires(f, (x, y, z, v)),
                f == f0,
                forall|a: usize, b: usize, c: usize|
                    #![trigger g.has(a, b, c)]
                    g.has(a, b, c) && g.flat(a as int, b as int, c as int) < pos ==> call_ensures(f0, (a, b, c, &g.at(a, b, c)), ()),
            decreases x_max - x,
        {
            let mut y: usize = 0;
            while y < y_max
                invariant
                    x < x_max == self@.x,
                    y <= y_max == self@.y,
                    z_max == self@.z,
                    self.wf(),
                    g == self@,
                    _n == self@.cells.len(),
                    pos == x * (y_max * z_max) + y * z_max,
                    forall|x: usize, y: usize, z: usize, v: &T| call_requires(f, (x, y, z, v)),
                    f == f0,
                    forall|a: usize, b: usize, c: usize|
                        #![trigger g.has(a, b, c)]
                        g.has(a, b, c) && g.flat(a as int, b as int, c as int) < pos ==> call_ensures(f0, (a, b, c, &g.at(a, b, c)), ()),
                decreases y_max - y,
            {
                let mut z: usize = 0;
                while z < z_max
                    invariant
                        x < x_max == self@.x,
                        y < y_max == self@.y,
                        z <= z_max == self@.z,
                        self.wf(),
                        g == self@,
                        _n == self@.cells.len(),
                        pos == x * (y_max * z_max) + y * z_max + z,
                        forall|x: usize, y: usize, z: usize, v: &T| call_requires(f, (x, y, z, v)),
                        f == f0,
                        forall|a: usize, b: usize, c: usize|
                            #![trigger g.has(a, b, c)]
                            g.has(a, b, c) && g.flat(a as int, b as int, c as int) < pos ==> call_ensures(f0, (a, b, c, &g.at(a, b, c)), ()),
                    decreases z_max - z,
                {
                    proof {
                        lemma_flat_in_range(x_max as nat, y_max as nat, z_max as nat, x as int, y as int, z as int);
                        assert(y * z_max <= x * (y_max * z_max) + y * z_max + z) by (nonlinear_arith)
                            requires
                                x >= 0,
                                y_max * z_max >= 0,
                                z >= 0,
                        ;
                    }
                    let idx = x * (y_max * z_max) + y * z_max + z;
                    f(x, y, z, &self.data[idx]);
                    proof {
                        broadcast use vstd::function::group_function_axioms;
                        assert(f == f0);
                        assert forall|a: usize, b: usize, c: usize|
                            #![trigger g.has(a, b, c)]
                            g.has(a, b, c) && g.flat(a as int, b as int, c as int) < pos + 1 implies call_ensures(
                                f0,
                                (a, b, c, &g.at(a, b, c)),
                                (),
                            ) by {
                            if g.flat(a as int, b as int, c as int) == pos {
                                lemma_flat_injective(y_max as nat, z_max as nat, a as int, b as int, c as int, x as int, y as int, z as int);
                            }
                        }
                        pos = pos + 1;
                    }
                    z += 1;
                }
                proof {
                    assert(x * (y_max * z_max) + y * z_max + z_max == x * (y_max * z_max) + (y + 1) * z_max) by (nonlinear_arith);
                }
                y += 1;
            }
            proof {
                assert(x * (y_max * z_max) + y_max * z_max == (x + 1) * (y_max * z_max)) by (nonlinear_arith);
            }
            x += 1;
        }
        proof {
            assert forall|a: usize, b: usize, c: usize| g.has(a, b, c) implies g.flat(a as int, b as int, c as int) < pos by {
                lemma_flat_in_range(x_max as nat, y_max as nat, z_max as nat, a as int, b as int, c as int);
                assert(x_max * (y_max * z_max) == x_max * y_max * z_max) by (nonlinear_arith);
            }
        }
    }

    /// Calls `f` with every coordinate and its cell for writing, in
    /// `[x][y][z]` order; the dimensions stay as they are, and each cell
    /// becomes what `f` made of it at its coordinate.
    pub fn for_each_mut<F: FnMut(usize, usize, usize, &mut T)>(&mut self, mut f: F)
        requires
            forall|x: usize, y: usize, z: usize, v: &mut T| call_requires(f, (x, y, z, v)),
        ensures
            final(self).wf(),
            final(self)@.x == old(self)@.x,
            final(self)@.y == old(self)@.y,
            final(self)@.z == old(self)@.z,
            forall|a: usize, b: usize, c: usize|
                #![trigger old(self)@.has(a, b, c)]
                #![trigger old(self)@.at(a, b, c)]
                #![trigger final(self)@.at(a, b, c)]
                old(self)@.has(a, b, c) ==> exists|v: &mut T|
                    mut_ref_current(v) == old(self)@.at(a, b, c) && mut_ref_future(v) == final(self)@.at(a, b, c)
                        && call_ensures(f, (a, b, c, v), ()),
    {
        proof {
            use_type_invariant(&*self);
        }
        let (x_max, y_max, z_max) = self.dims();
        let _n = self.data.len();
        let ghost g0 = old(self)@;
        let ghost f0 = f;
        let ghost mut pos: int = 0;
        let mut x: usize = 0;
        while x < x_max
            invariant
                x <= x_max == self@.x == g0.x,
                y_max == self@.y == g0.y,
                z_max == self@.z == g0.z,
                g0 == old(self)@,
                self.wf(),
                _n == self@.cells.len(),
                pos == x * (y_max * z_max),
                forall|x: usize, y: usize, z: usize, v: &mut T| call_requires(f, (x, y, z, v)),
                f == f0,
                forall|k: int| pos <= k < _n ==> self@.cells[k] == g0.cells[k],
                forall|a: usize, b: usize, c: usize|
                    #![trigger g0.has(a, b, c)]
                    g0.has(a, b, c) && g0.flat(a as int, b as int, c as int) < pos ==> exists|v: &mut T|
                        mut_ref_current(v) == g0.at(a, b, c) && mut_ref_future(v) == self@.at(a, b, c)
                            && call_ensures(f0, (a, b, c, v), ()),
            decreases x_max - x,
        {
            let mut y: usize = 0;
            while y < y_max
                invariant
                    x < x_max == self@.x == g0.x,
                    y <= y_max == self@.y == g0.y,
                    z_max == self@.z == g0.z,
                    self.wf(),
                    _n == self@.cells.len(),
                    pos == x * (y_max * z_max) + y * z_max,
                    forall|x: usize, y: usize, z: usize, v: &mut T| call_requires(f, (x, y, z, v)),
                    f == f0,
                    forall|k: int| pos <= k < _n ==> self@.cells[k] == g0.cells[k],
                    forall|a: usize, b: usize, c: usize|
                        #![trigger g0.has(a, b, c)]
                        g0.has(a, b, c) && g0.flat(a as int, b as int, c as int) < pos ==> exists|v: &mut T|
                            mut_ref_current(v) == g0.at(a, b, c) && mut_ref_future(v) == self@.at(a, b, c)
                                && call_ensures(f0, (a, b, c, v), ()),
                decreases y_max - y,
            {
                let mut z: usize = 0;
                while z < z_max
                    invariant
                        x < x_max == self@.x == g0.x,
                        y < y_max == self@.y == g0.y,
                        z <= z_max == self@.z == g0.z,
                        self.wf(),
                        _n == self@.cells.len(),
                        pos == x * (y_max * z_max) + y * z_max + z,
                        forall|x: usize, y: usize, z: usize, v: &mut T| call_requires(f, (x, y, z, v)),
                    f == f0,
                        forall|k: int| pos <= k < _n ==> self@.cells[k] == g0.cells[k],
                        forall|a: usize, b: usize, c: usize|
                            #![trigger g0.has(a, b, c)]
                            g0.has(a, b, c) && g0.flat(a as int, b as int, c as int) < pos ==> exists|v: &mut T|
                                mut_ref_current(v) == g0.at(a, b, c) && mut_ref_future(v) == self@.at(a, b, c)
                                    && call_ensures(f0, (a, b, c, v), ()),
                    decreases z_max - z,
                {
                    proof {
                        lemma_flat_in_range(x_max as nat, y_max as nat, z_max as nat, x as int, y as int, z as int);
                        assert(y * z_max <= x * (y_max * z_max) + y * z_max + z) by (nonlinear_arith)
                            requires
                                x >= 0,
                                y_max * z_max >= 0,
                                z >= 0,
                        ;
                    }
                    let idx = x * (y_max * z_max) + y * z_max + z;
                    let ghost before = self@;
                    f(x, y, z, &mut self.data[idx]);
                    proof {
                        broadcast use vstd::function::group_function_axioms;
                        assert(f == f0);
                        assert(self@.cells == before.cells.update(idx as int, self@.cells[idx as int]));
                        assert forall|a: usize, b: usize, c: usize|
                            #![trigger g0.has(a, b, c)]
                            g0.has(a, b, c) && g0.flat(a as int, b as int, c as int) < pos + 1 implies exists|v: &mut T|
                                mut_ref_current(v) == g0.at(a, b, c) && mut_ref_future(v) == self@.at(a, b, c)
                                    && call_ensures(f0, (a, b, c, v), ()) by {
                            let k = g0.flat(a as int, b as int, c as int);
                            if k == pos {
                                lemma_flat_injective(y_max as nat, z_max as nat, a as int, b as int, c as int, x as int, y as int, z as int);
                            } else {
                                assert(before.at(a, b, c) == self@.at(a, b, c));
                                assert(g0.flat(a as int, b as int, c as int) < pos);
                            }
                        }
                        pos = pos + 1;
                    }
                    z += 1;
                }
                proof {
                    assert(x * (y_max * z_max) + y * z_max + z_max == x * (y_max * z_max) + (y + 1) * z_max) by (nonlinear_arith);
                }
                y += 1;
            }
            proof {
                assert(x * (y_max * z_max) + y_max * z_max == (x + 1) * (y_max * z_max)) by (nonlinear_arith);
            }
            x += 1;
        }
        proof {
            assert forall|a: usize, b: usize, c: usize| g0.has(a, b, c) implies g0.flat(a as int, b as int, c as int) < pos by {
                lemma_flat_in_range(x_max as nat, y_max as nat, z_max as nat, a as int, b as int, c as int);
                assert(x_max * (y_max * z_max) == x_max * y_max * z_max) by (nonlinear_arith);
            }
        }
    }
}

/// Distinct coordinates inside a grid have distinct flat positions.
pub proof fn lemma_flat_injective(
    yn: nat,
    zn: nat,
    x1: int,
    y1: int,
    z1: int,
    x2: int,
    y2: int,
    z2: int,
)
    requires
        0 <= x1,
        0 <= x2,
        0 <= y1 < yn,
        0 <= y2 < yn,
        0 <= z1 < zn,
        0 <= z2 < zn,
        x1 * (yn * zn) + y1 * zn + z1 == x2 * (yn * zn) + y2 * zn + z2,
    ensures
        x1 == x2 && y1 == y2 && z1 == z2,
{
    assert(0 <= y1 * zn + z1 < yn * zn) by (nonlinear_arith)
        requires
            0 <= y1 < yn,
            0 <= z1 < zn,
    ;
    assert(0 <= y2 * zn + z2 < yn * zn) by (nonlinear_arith)
        requires
            0 <= y2 < yn,
            0 <= z2 < zn,
    ;
    assert(x1 == x2) by (nonlinear_arith)
        requires
            0 <= x1,
            0 <= x2,
            0 <= y1 * zn + z1 < yn * zn,
            0 <= y2 * zn + z2 < yn * zn,
            x1 * (yn * zn) + (y1 * zn + z1) == x2 * (yn * zn) + (y2 * zn + z2),
    ;
    assert(y1 == y2) by (nonlinear_arith)
        requires
            0 <= z1 < zn,
            0 <= z2 < zn,
            0 <= y1,
            0 <= y2,
            y1 * zn + z1 == y2 * zn + z2,
    ;
}

/// Writing a cell (as `get_mut` lets one do) and reading a cell (as `get`
/// does): the written coordinate reads back the written value, and every
/// other coordinate reads back what it held before.
pub proof fn lemma_write_then_read<T>(
    g: Grid<T>,
    x: int,
    y: int,
    z: int,
    v: T,
    x2: int,
    y2: int,
    z2: int,
)
    requires
        g.cells.len() == g.x * g.y * g.z,
        g.in_bounds(x, y, z),
        g.in_bounds(x2, y2, z2),
    ensures
        ({
            let g2 = Grid { cells: g.cells.update(g.flat(x, y, z), v), ..g };
            &&& g2.cells.len() == g2.x * g2.y * g2.z
            &&& g2.cells[g2.flat(x, y, z)] == v
            &&& (x2 != x || y2 != y || z2 != z) ==> g2.cells[g2.flat(x2, y2, z2)] == g.cells[g.flat(
                x2,
                y2,
                z2,
            )]
        }),
{
    lemma_flat_in_range(g.x, g.y, g.z, x, y, z);
    lemma_flat_in_range(g.x, g.y, g.z, x2, y2, z2);
    if g.flat(x, y, z) == g.flat(x2, y2, z2) {
        lemma_flat_injective(g.y, g.z, x, y, z, x2, y2, z2);
    }
}

/// A pure update of every cell through [`NeuralNetwork::for_each_mut`]: for
/// a closure that, called at `(x, y, z)` on a cell holding `v`, leaves
/// `g(x, y, z, v)` in it, what `for_each_mut` ensures of the grid before
/// (`g0`) and after (`g1`) gives `g(x, y, z, old cell)` at every coordinate.
pub proof fn lemma_pure_update<T, F: FnMut(usize, usize, usize, &mut T)>(
    g0: Grid<T>,
    g1: Grid<T>,
    f: F,
    g: spec_fn(usize, usize, usize, T) -> T,
)
    requires
        forall|a: usize, b: usize, c: usize|
            #![trigger g0.has(a, b, c)]
            g0.has(a, b, c) ==> exists|v: &mut T|
                mut_ref_current(v) == g0.at(a, b, c) && mut_ref_future(v) == g1.at(a, b, c)
                    && call_ensures(f, (a, b, c, v), ()),
        forall|x: usize, y: usize, z: usize, v: &mut T|
            call_ensures(f, (x, y, z, v), ()) ==> mut_ref_future(v) == g(x, y, z, mut_ref_current(v)),
    ensures
        forall|a: usize, b: usize, c: usize|
            #![trigger g0.has(a, b, c)]
            g0.has(a, b, c) ==> g1.at(a, b, c) == g(a, b, c, g0.at(a, b, c)),
{
    assert forall|a: usize, b: usize, c: usize|
        #![trigger g0.has(a, b, c)]
        g0.has(a, b, c) implies g1.at(a, b, c) == g(a, b, c, g0.at(a, b, c)) by {
        let v = choose|v: &mut T|
            mut_ref_current(v) == g0.at(a, b, c) && mut_ref_future(v) == g1.at(a, b, c)
                && call_ensures(f, (a, b, c, v), ());
        assert(call_ensures(f, (a, b, c, v), ()));
    }
}

} // verus!
