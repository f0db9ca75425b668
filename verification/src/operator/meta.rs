use vstd::prelude::*;

verus! {

/// A point in time as whole seconds since the Unix epoch and the nanoseconds
/// past that second; ordered first by `seconds`, then by `nanos`.
#[derive(Clone, Copy, Debug, PartialEq, Eq, Structural)]
pub struct Timestamp {
    pub seconds: i64,
    pub nanos: u32,
}

/// Strict order of timestamps.
pub open spec fn timestamp_lt(a: Timestamp, b: Timestamp) -> bool {
    a.seconds < b.seconds || (a.seconds == b.seconds && a.nanos < b.nanos)
}

/// Order of optional timestamps: an absent one comes before every present one.
pub open spec fn opt_timestamp_lt(a: Option<Timestamp>, b: Option<Timestamp>) -> bool {
    match (a, b) {
        (None, Some(_)) => true,
        (Some(x), Some(y)) => timestamp_lt(x, y),
        _ => false,
    }
}

pub fn opt_timestamp_less(a: &Option<Timestamp>, b: &Option<Timestamp>) -> (r: bool)
    ensures
        r == opt_timestamp_lt(*a, *b),
{
    match (a, b) {
        (None, Some(_)) => true,
        (Some(x), Some(y)) => x.seconds < y.seconds || (x.seconds == y.seconds && x.nanos < y.nanos),
        _ => false,
    }
}

/// The object metadata that the controller reads.
#[derive(Clone, Debug)]
pub struct ObjectMeta {
    pub name: Option<String>,
    pub generate_name: Option<String>,
    pub uid: Option<String>,
    pub generation: Option<i64>,
    pub finalizers: Option<Vec<String>>,
    pub creation_timestamp: Option<Timestamp>,
    pub deletion_timestamp: Option<Timestamp>,
}

impl ObjectMeta {
    /// The name, or else the generated name, or else the empty string.
    pub open spec fn name_any_spec(&self) -> Seq<char> {
        match self.name {
            Some(n) => n@,
            None => match self.generate_name {
                Some(g) => g@,
                None => Seq::empty(),
            },
        }
    }

    /// The name, or else the generated name, or else the empty string, as
    /// `kube::ResourceExt::name_any` gives it.
    pub fn name_any(&self) -> (r: String)
        ensures
            r@ == self.name_any_spec(),
    {
        match &self.name {
            Some(n) => n.clone(),
            None => match &self.generate_name {
                Some(g) => g.clone(),
                None => String::new(),
            },
        }
    }
}

} // verus!
