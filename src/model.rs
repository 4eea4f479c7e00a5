//! The service description that one generation run reads.
//!
//! Shapes are held in schema order; every reference to a shape is its index in
//! that order, so the "every referenced name exists" rule is an index bound.

use vstd::prelude::*;

verus! {

/// A member of a structure shape.
pub struct MemberRef {
    /// The member's name in the schema.
    pub name: String,
    /// Index of the shape the member refers to.
    pub target: usize,
    pub documentation: Option<String>,
    pub deprecated: bool,
    /// Whether the member is among the structure's required members.
    pub required: bool,
}

/// The kind of a shape, with the shapes it refers to.
pub enum ShapeBody {
    Structure(Vec<MemberRef>),
    List(usize),
    Mapping(usize, usize),
    Blob,
    Boolean,
    Double,
    Float,
    Integer,
    Long,
    String,
    Timestamp,
}

/// A named data type of the schema.
pub struct Shape {
    pub name: String,
    pub body: ShapeBody,
    pub documentation: Option<String>,
    pub exception: bool,
}

/// A remote call, with the indices of its input and output shapes.
pub struct Operation {
    pub name: String,
    pub input: Option<usize>,
    pub output: Option<usize>,
}

/// The whole schema of one service.
pub struct Service {
    pub protocol: String,
    pub service_full_name: String,
    pub service_abbreviation: Option<String>,
    pub client_type_name: String,
    pub shapes: Vec<Shape>,
    pub operations: Vec<Operation>,
}

/// The shapes a shape refers to, in order.
pub open spec fn successors_of(body: ShapeBody) -> Seq<usize> {
    match body {
        ShapeBody::Structure(ms) => ms@.map_values(|m: MemberRef| m.target),
        ShapeBody::List(e) => seq![e],
        ShapeBody::Mapping(k, v) => seq![k, v],
        _ => Seq::empty(),
    }
}

impl Service {
    /// Every shape index that the schema holds is in bounds.
    pub open spec fn wf(&self) -> bool {
        &&& forall|i: int, j: int|
            0 <= i < self.shapes@.len() && 0 <= j < successors_of(self.shapes@[i].body).len()
                ==> (#[trigger] successors_of(self.shapes@[i].body)[j]) < self.shapes@.len()
        &&& forall|o: int|
            0 <= o < self.operations@.len() && (#[trigger] self.operations@[o]).input is Some
                ==> self.operations@[o].input->0 < self.shapes@.len()
        &&& forall|o: int|
            0 <= o < self.operations@.len() && (#[trigger] self.operations@[o]).output is Some
                ==> self.operations@[o].output->0 < self.shapes@.len()
    }

    /// Checks that every shape index of the schema is in bounds.
    pub fn is_well_formed(&self) -> (r: bool)
        ensures
            r == self.wf(),
    {
        let n = self.shapes.len();
        let mut i: usize = 0;
        while i < n
            invariant
                n == self.shapes@.len(),
                i <= n,
                forall|a: int, j: int|
                    0 <= a < i && 0 <= j < successors_of(self.shapes@[a].body).len()
                        ==> (#[trigger] successors_of(self.shapes@[a].body)[j]) < n,
            decreases n - i,
        {
            let succ = successors(&self.shapes[i].body);
            let mut j: usize = 0;
            while j < succ.len()
                invariant
                    n == self.shapes@.len(),
                    i < n,
                    succ@ == successors_of(self.shapes@[i as int].body),
                    j <= succ@.len(),
                    forall|t: int| 0 <= t < j ==> succ@[t] < n,
                decreases succ@.len() - j,
            {
                if succ[j] >= n {
                    assert(successors_of(self.shapes@[i as int].body)[j as int] >= n);
                    return false;
                }
                j += 1;
            }
            i += 1;
        }
        let mut o: usize = 0;
        while o < self.operations.len()
            invariant
                n == self.shapes@.len(),
                o <= self.operations@.len(),
                forall|p: int|
                    0 <= p < o && (#[trigger] self.operations@[p]).input is Some
                        ==> self.operations@[p].input->0 < n,
                forall|p: int|
                    0 <= p < o && (#[trigger] self.operations@[p]).output is Some
                        ==> self.operations@[p].output->0 < n,
            decreases self.operations@.len() - o,
        {
            let op = &self.operations[o];
            if let Some(x) = op.input {
                if x >= n {
                    assert(self.operations@[o as int].input is Some);
                    return false;
                }
            }
            if let Some(x) = op.output {
                if x >= n {
                    assert(self.operations@[o as int].output is Some);
                    return false;
                }
            }
            o += 1;
        }
        true
    }

    /// Shape `b` is referenced by shape `a`.
    pub open spec fn edge(&self, a: int, b: int) -> bool {
        &&& 0 <= a < self.shapes@.len()
        &&& exists|j: int|
            0 <= j < successors_of(self.shapes@[a].body).len()
                && #[trigger] successors_of(self.shapes@[a].body)[j] as int == b
    }
}

/// The shapes a shape refers to.
pub fn successors(body: &ShapeBody) -> (r: Vec<usize>)
    ensures
        r@ == successors_of(*body),
{
    match body {
        ShapeBody::Structure(ms) => {
            let mut r: Vec<usize> = Vec::new();
            let mut i: usize = 0;
            while i < ms.len()
                invariant
                    i <= ms@.len(),
                    r@ =~= ms@.take(i as int).map_values(|m: MemberRef| m.target),
                decreases ms@.len() - i,
            {
                r.push(ms[i].target);
                i += 1;
                assert(r@ =~= ms@.take(i as int).map_values(|m: MemberRef| m.target));
            }
            assert(ms@.take(i as int) =~= ms@);
            r
        },
        ShapeBody::List(e) => vec![*e],
        ShapeBody::Mapping(k, v) => vec![*k, *v],
        _ => Vec::new(),
    }
}

} // verus!
