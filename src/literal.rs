use vstd::prelude::*;

verus! {

/// A scalar value that a filter compares against.
#[derive(Debug, PartialEq, Eq)]
pub enum Scalar {
    Null,
    Bool(bool),
    Int(i64),
    Text(String),
}

/// The mathematical content of a `Scalar`.
pub enum ScalarV {
    Null,
    Bool(bool),
    Int(int),
    Text(Seq<char>),
}

/// A literal on the right-hand side of a comparison: a scalar or an array of scalars.
#[derive(Debug, PartialEq, Eq)]
pub enum Literal {
    One(Scalar),
    Many(Vec<Scalar>),
}

/// The mathematical content of a `Literal`.
pub enum LiteralV {
    One(ScalarV),
    Many(Seq<ScalarV>),
}

impl View for Scalar {
    type V = ScalarV;

    open spec fn view(&self) -> ScalarV {
        match self {
            Scalar::Null => ScalarV::Null,
            Scalar::Bool(b) => ScalarV::Bool(*b),
            Scalar::Int(i) => ScalarV::Int(*i as int),
            Scalar::Text(s) => ScalarV::Text(s@),
        }
    }
}

impl View for Literal {
    type V = LiteralV;

    open spec fn view(&self) -> LiteralV {
        match self {
            Literal::One(s) => LiteralV::One(s@),
            Literal::Many(v) => LiteralV::Many(v@.map_values(|s: Scalar| s@)),
        }
    }
}

impl Scalar {
    /// A copy with the same content.
    pub fn copy(&self) -> (r: Scalar)
        ensures
            r@ == self@,
    {
        match self {
            Scalar::Null => Scalar::Null,
            Scalar::Bool(b) => Scalar::Bool(*b),
            Scalar::Int(i) => Scalar::Int(*i),
            Scalar::Text(s) => Scalar::Text(s.clone()),
        }
    }
}

impl Literal {
    /// Whether the literal is an array.
    pub fn is_array(&self) -> (r: bool)
        ensures
            r == self@ is Many,
    {
        match self {
            Literal::One(_) => false,
            Literal::Many(_) => true,
        }
    }

    /// A copy with the same content.
    pub fn copy(&self) -> (r: Literal)
        ensures
            r@ == self@,
    {
        match self {
            Literal::One(s) => Literal::One(s.copy()),
            Literal::Many(v) => {
                let mut out: Vec<Scalar> = Vec::new();
                let mut i: usize = 0;
                while i < v.len()
                    invariant
                        i <= v.len(),
                        out.len() == i,
                        forall|j: int| 0 <= j < i ==> (#[trigger] out@[j])@ == v@[j]@,
                    decreases v.len() - i,
                {
                    out.push(v[i].copy());
                    i = i + 1;
                }
                assert(out@.map_values(|s: Scalar| s@) =~= v@.map_values(|s: Scalar| s@));
                Literal::Many(out)
            },
        }
    }
}

} // verus!
