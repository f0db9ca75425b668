use vstd::prelude::*;
use crate::text::str_equal;

verus! {

/// The fields of a Kubernetes Secret that the tools read.
#[derive(Debug, Clone)]
pub struct Secret {
    pub name: Option<String>,
    pub namespace: Option<String>,
    pub resource_version: Option<String>,
    pub annotations: Option<Vec<(String, String)>>,
    /// Decoded `data` entries.
    pub data: Option<Vec<(String, Vec<u8>)>>,
}

pub struct SecretView {
    pub name: Option<Seq<char>>,
    pub namespace: Option<Seq<char>>,
    pub resource_version: Option<Seq<char>>,
    pub annotations: Option<Seq<(Seq<char>, Seq<char>)>>,
    pub data: Option<Seq<(Seq<char>, Seq<u8>)>>,
}

pub open spec fn str_pairs_view(v: Seq<(String, String)>) -> Seq<(Seq<char>, Seq<char>)> {
    v.map_values(|p: (String, String)| (p.0@, p.1@))
}

pub open spec fn byte_pairs_view(v: Seq<(String, Vec<u8>)>) -> Seq<(Seq<char>, Seq<u8>)> {
    v.map_values(|p: (String, Vec<u8>)| (p.0@, p.1@))
}

pub open spec fn opt_str_view(o: Option<String>) -> Option<Seq<char>> {
    match o {
        Some(s) => Some(s@),
        None => None,
    }
}

impl View for Secret {
    type V = SecretView;

    open spec fn view(&self) -> SecretView {
        SecretView {
            name: opt_str_view(self.name),
            namespace: opt_str_view(self.namespace),
            resource_version: opt_str_view(self.resource_version),
            annotations: match self.annotations {
                Some(a) => Some(str_pairs_view(a@)),
                None => None,
            },
            data: match self.data {
                Some(d) => Some(byte_pairs_view(d@)),
                None => None,
            },
        }
    }
}

/// The value of the first entry with key `k`.
pub open spec fn lookup<V>(entries: Seq<(Seq<char>, V)>, k: Seq<char>) -> Option<V>
    decreases entries.len(),
{
    if entries.len() == 0 {
        None
    } else if entries[0].0 == k {
        Some(entries[0].1)
    } else {
        lookup(entries.drop_first(), k)
    }
}

proof fn lemma_lookup_index<V>(entries: Seq<(Seq<char>, V)>, k: Seq<char>, i: int)
    requires
        0 <= i <= entries.len(),
        forall|j: int| 0 <= j < i ==> #[trigger] entries[j].0 != k,
        i == entries.len() || entries[i].0 == k,
    ensures
        lookup(entries, k) == (if i == entries.len() { None } else { Some(entries[i].1) }),
    decreases i,
{
    if i > 0 {
        lemma_lookup_index(entries.drop_first(), k, i - 1);
    }
}

/// The value of the first string entry with key `k`.
pub fn find_str<'a>(entries: &'a Vec<(String, String)>, k: &str) -> (r: Option<&'a String>)
    ensures
        match r {
            Some(v) => lookup(str_pairs_view(entries@), k@) == Some(v@),
            None => lookup(str_pairs_view(entries@), k@) is None,
        },
{
    let mut i: usize = 0;
    while i < entries.len()
        invariant
            i <= entries@.len(),
            forall|j: int| 0 <= j < i ==> #[trigger] str_pairs_view(entries@)[j].0 != k@,
        decreases entries@.len() - i,
    {
        if str_equal(entries[i].0.as_str(), k) {
            proof {
                lemma_lookup_index(str_pairs_view(entries@), k@, i as int);
            }
            return Some(&entries[i].1);
        }
        i = i + 1;
    }
    proof {
        lemma_lookup_index(str_pairs_view(entries@), k@, i as int);
    }
    None
}

/// The value of the first byte entry with key `k`.
pub fn find_bytes<'a>(entries: &'a Vec<(String, Vec<u8>)>, k: &str) -> (r: Option<&'a Vec<u8>>)
    ensures
        match r {
            Some(v) => lookup(byte_pairs_view(entries@), k@) == Some(v@),
            None => lookup(byte_pairs_view(entries@), k@) is None,
        },
{
    let mut i: usize = 0;
    while i < entries.len()
        invariant
            i <= entries@.len(),
            forall|j: int| 0 <= j < i ==> #[trigger] byte_pairs_view(entries@)[j].0 != k@,
        decreases entries@.len() - i,
    {
        if str_equal(entries[i].0.as_str(), k) {
            proof {
                lemma_lookup_index(byte_pairs_view(entries@), k@, i as int);
            }
            return Some(&entries[i].1);
        }
        i = i + 1;
    }
    proof {
        lemma_lookup_index(byte_pairs_view(entries@), k@, i as int);
    }
    None
}

} // verus!
