use vstd::prelude::*;

verus! {

/// The list holds an entry for this path.
pub open spec fn has_path(refs: Seq<String>, path: Seq<char>) -> bool {
    exists|i: int| 0 <= i < refs.len() && (#[trigger] refs[i])@ == path
}

/// No path is listed twice.
pub open spec fn paths_unique(refs: Seq<String>) -> bool {
    forall|i: int, j: int| 0 <= i < j < refs.len() ==> (#[trigger] refs[i])@ != (#[trigger] refs[j])@
}

/// The entries whose flag is set, in list order.
pub open spec fn kept(refs: Seq<String>, present: Seq<bool>) -> Seq<String>
    decreases refs.len(),
{
    if refs.len() == 0 || present.len() == 0 {
        Seq::empty()
    } else {
        let rest = kept(refs.drop_last(), present.drop_last());
        if present.last() {
            rest.push(refs.last())
        } else {
            rest
        }
    }
}

/// Whether the bookmark list already holds this path.
pub fn contains_path(refs: &Vec<String>, path: &String) -> (r: bool)
    ensures
        r == has_path(refs@, path@),
{
    let mut i: usize = 0;
    while i < refs.len()
        invariant
            i <= refs@.len(),
            forall|k: int| 0 <= k < i ==> (#[trigger] refs@[k])@ != path@,
        decreases refs@.len() - i,
    {
        if refs[i] == *path {
            return true;
        }
        i = i + 1;
    }
    false
}

/// Adds a path to the bookmark list unless it is there already. Returns whether the list
/// changed, which is when it has to be written back.
pub fn add_reference(refs: &mut Vec<String>, path: String) -> (r: bool)
    ensures
        r == !has_path(old(refs)@, path@),
        r ==> final(refs)@ == old(refs)@.push(path),
        !r ==> final(refs)@ == old(refs)@,
        has_path(final(refs)@, path@),
        paths_unique(old(refs)@) ==> paths_unique(final(refs)@),
{
    if contains_path(refs, &path) {
        false
    } else {
        refs.push(path);
        assert(final(refs)@[final(refs)@.len() - 1]@ == path@);
        true
    }
}

/// The bookmarks whose file still exists; `present[i]` tells whether `refs[i]`'s does.
pub fn keep_existing(refs: &Vec<String>, present: &Vec<bool>) -> (r: Vec<String>)
    requires
        refs@.len() == present@.len(),
    ensures
        r@ == kept(refs@, present@),
        paths_unique(refs@) ==> paths_unique(r@),
{
    let mut out: Vec<String> = Vec::new();
    let ghost mut from: Seq<int> = Seq::empty();
    let mut i: usize = 0;
    while i < refs.len()
        invariant
            refs@.len() == present@.len(),
            i <= refs@.len(),
            out@ == kept(refs@.take(i as int), present@.take(i as int)),
            from.len() == out@.len(),
            forall|k: int| 0 <= k < from.len() ==> 0 <= #[trigger] from[k] < i && out@[k] == refs@[from[k]],
            forall|a: int, b: int| 0 <= a < b < from.len() ==> #[trigger] from[a] < #[trigger] from[b],
        decreases refs@.len() - i,
    {
        assert(refs@.take(i + 1).drop_last() == refs@.take(i as int));
        assert(present@.take(i + 1).drop_last() == present@.take(i as int));
        if present[i] {
            out.push(refs[i].clone());
            proof {
                from = from.push(i as int);
            }
        }
        i = i + 1;
    }
    proof {
        if paths_unique(refs@) {
            assert forall|a: int, b: int| 0 <= a < b < out@.len() implies (#[trigger] out@[a])@
                != (#[trigger] out@[b])@ by {
                assert(from[a] < from[b]);
                assert(refs@[from[a]]@ != refs@[from[b]]@);
            }
        }
    }
    assert(refs@.take(i as int) == refs@);
    assert(present@.take(i as int) == present@);
    out
}

} // verus!
