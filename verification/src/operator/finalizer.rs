use vstd::prelude::*;
use crate::operator::types::TdxQuoteGenerationService;
use crate::text::str_equal;

verus! {

/// Finalizer name for TdxQuoteGenerationService resources.
pub const FINALIZER: &'static str = "trustedservices.intel.com/tdx_quote_generation_service-finalizer";

/// Whether `fs` holds our finalizer.
pub open spec fn holds_finalizer(fs: Seq<String>) -> bool {
    exists|i: int| 0 <= i < fs.len() && #[trigger] fs[i]@ == FINALIZER@
}

/// Whether the optional finalizer list holds our finalizer.
pub open spec fn opt_holds_finalizer(fs: Option<Vec<String>>) -> bool {
    match fs {
        Some(v) => holds_finalizer(v@),
        None => false,
    }
}

fn contains_finalizer(fs: &Vec<String>) -> (r: bool)
    ensures
        r == holds_finalizer(fs@),
{
    let mut i: usize = 0;
    while i < fs.len()
        invariant
            i <= fs@.len(),
            forall|k: int| 0 <= k < i ==> #[trigger] fs@[k]@ != FINALIZER@,
        decreases fs@.len() - i,
    {
        if str_equal(fs[i].as_str(), FINALIZER) {
            return true;
        }
        i = i + 1;
    }
    false
}

/// Check if a resource has our finalizer.
pub fn has_finalizer(resource: &TdxQuoteGenerationService) -> (r: bool)
    ensures
        r == opt_holds_finalizer(resource.metadata.finalizers),
{
    match &resource.metadata.finalizers {
        Some(f) => contains_finalizer(f),
        None => false,
    }
}

/// Check if a resource is being deleted (has a deletion timestamp).
pub fn is_deleting(resource: &TdxQuoteGenerationService) -> (r: bool)
    ensures
        r == resource.metadata.deletion_timestamp is Some,
{
    resource.metadata.deletion_timestamp.is_some()
}

/// The finalizer list to patch in when adding ours: `None` when it is already
/// present (no patch), else the current list (or none) with ours appended.
pub fn finalizers_with_ours(current: &Option<Vec<String>>) -> (r: Option<Vec<String>>)
    ensures
        opt_holds_finalizer(*current) ==> r is None,
        !opt_holds_finalizer(*current) ==> (r matches Some(v) && v@ == (match *current {
            Some(c) => c@,
            None => Seq::empty(),
        }).push(v@.last()) && v@.last()@ == FINALIZER@),
{
    let mut fs = match current {
        Some(c) => c.clone(),
        None => Vec::new(),
    };
    if contains_finalizer(&fs) {
        return None;
    }
    fs.push(String::from_str(FINALIZER));
    Some(fs)
}

/// The effect of removing our finalizer from a list.
pub enum FinalizerRemoval {
    /// Nothing to patch: there is no list, or ours is not in it.
    Unchanged,
    /// Patch the list to these finalizers.
    Replace(Vec<String>),
    /// Patch the list away (it would be empty).
    Clear,
}

/// Every finalizer of `fs` but ours, in order.
pub open spec fn without_finalizer(fs: Seq<String>) -> Seq<String> {
    fs.filter(not_ours())
}

/// The predicate "this finalizer is not ours".
pub open spec fn not_ours() -> spec_fn(String) -> bool {
    |f: String| f@ != FINALIZER@
}

/// What removing our finalizer patches: the list without every copy of ours,
/// cleared when nothing is left, and nothing when ours is absent.
pub fn finalizers_without_ours(current: &Option<Vec<String>>) -> (r: FinalizerRemoval)
    ensures
        match *current {
            None => r is Unchanged,
            Some(c) => if !holds_finalizer(c@) {
                r is Unchanged
            } else if without_finalizer(c@).len() == 0 {
                r is Clear
            } else {
                r matches FinalizerRemoval::Replace(v) && v@ == without_finalizer(c@)
            },
        },
{
    let c = match current {
        Some(c) => c,
        None => return FinalizerRemoval::Unchanged,
    };
    let mut kept: Vec<String> = Vec::new();
    let mut i: usize = 0;
    while i < c.len()
        invariant
            i <= c@.len(),
            kept@ == without_finalizer(c@.subrange(0, i as int)),
        decreases c@.len() - i,
    {
        proof {
            let pre = c@.subrange(0, i as int);
            assert(c@.subrange(0, i + 1) =~= pre.push(c@[i as int]));
            pre.lemma_filter_push(c@[i as int], not_ours());
        }
        if !str_equal(c[i].as_str(), FINALIZER) {
            kept.push(c[i].clone());
        }
        i = i + 1;
    }
    assert(c@.subrange(0, c@.len() as int) =~= c@);
    if kept.len() == c.len() {
        proof {
            lemma_without_finalizer_len(c@);
        }
        return FinalizerRemoval::Unchanged;
    }
    proof {
        lemma_without_finalizer_len(c@);
    }
    if kept.len() == 0 {
        FinalizerRemoval::Clear
    } else {
        FinalizerRemoval::Replace(kept)
    }
}

/// Removing our finalizer shortens the list exactly when ours is in it.
pub proof fn lemma_without_finalizer_len(fs: Seq<String>)
    ensures
        without_finalizer(fs).len() <= fs.len(),
        without_finalizer(fs).len() == fs.len() <==> !holds_finalizer(fs),
        !holds_finalizer(without_finalizer(fs)),
    decreases fs.len(),
{
    let p = not_ours();
    if fs.len() > 0 {
        let init = fs.drop_last();
        lemma_without_finalizer_len(init);
        assert(fs =~= init.push(fs.last()));
        init.lemma_filter_push(fs.last(), p);
        let w = without_finalizer(fs);
        let wi = without_finalizer(init);
        if holds_finalizer(init) {
            let i = choose|i: int| 0 <= i < init.len() && #[trigger] init[i]@ == FINALIZER@;
            assert(fs[i] == init[i]);
        }
        if holds_finalizer(fs) && !holds_finalizer(init) {
            let i = choose|i: int| 0 <= i < fs.len() && #[trigger] fs[i]@ == FINALIZER@;
            if i < init.len() {
                assert(fs[i] == init[i]);
            }
        }
        if !holds_finalizer(fs) {
            assert(fs[fs.len() - 1]@ != FINALIZER@);
            assert forall|i: int| 0 <= i < init.len() implies #[trigger] init[i]@ != FINALIZER@ by {
                assert(fs[i] == init[i]);
            }
        }
        if holds_finalizer(w) {
            let i = choose|i: int| 0 <= i < w.len() && #[trigger] w[i]@ == FINALIZER@;
            if i < wi.len() {
                assert(w[i] == wi[i]);
            }
        }
    } else {
        assert(without_finalizer(fs) =~= Seq::<String>::empty());
    }
}

/// Law: adding our finalizer and then removing it gives back the list it started from
/// when ours was absent; adding it when present patches nothing.
pub proof fn lemma_add_then_remove(fs: Seq<String>, added: Seq<String>)
    requires
        !holds_finalizer(fs),
        added.len() == fs.len() + 1,
        added.subrange(0, fs.len() as int) == fs,
        added.last()@ == FINALIZER@,
    ensures
        holds_finalizer(added),
        without_finalizer(added) == without_finalizer(fs),
        without_finalizer(fs) == fs,
{
    let p = not_ours();
    assert(added =~= fs.push(added.last()));
    fs.lemma_filter_push(added.last(), p);
    assert(added[added.len() - 1]@ == FINALIZER@);
    lemma_without_finalizer_len(fs);
    fs.filter_lemma(p);
    lemma_filter_all(fs);
}

proof fn lemma_filter_all(fs: Seq<String>)
    requires
        !holds_finalizer(fs),
    ensures
        without_finalizer(fs) == fs,
    decreases fs.len(),
{
    let p = not_ours();
    if fs.len() > 0 {
        let init = fs.drop_last();
        assert forall|i: int| 0 <= i < init.len() implies #[trigger] init[i]@ != FINALIZER@ by {
            assert(fs[i] == init[i]);
        }
        lemma_filter_all(init);
        assert(fs =~= init.push(fs.last()));
        init.lemma_filter_push(fs.last(), p);
        assert(fs[fs.len() - 1]@ != FINALIZER@);
    } else {
        assert(without_finalizer(fs) =~= fs);
    }
}

} // verus!
