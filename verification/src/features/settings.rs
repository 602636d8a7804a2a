//! The list of recently opened files that the settings keep.
use crate::text::{push_str, text_eq};
use vstd::prelude::*;

verus! {

/// The texts of a list of strings.
pub open spec fn texts(v: Seq<String>) -> Seq<Seq<char>> {
    v.map_values(|s: String| s@)
}

/// `files` without any copy of `p`, the others in order.
pub open spec fn without(files: Seq<Seq<char>>, p: Seq<char>) -> Seq<Seq<char>>
    decreases files.len(),
{
    if files.len() == 0 {
        files
    } else if files.last() == p {
        without(files.drop_last(), p)
    } else {
        without(files.drop_last(), p).push(files.last())
    }
}

/// The recent files after opening `p`: `p` first, then the others without a
/// second copy of it, at most `max` of them.
pub open spec fn recent_after(files: Seq<Seq<char>>, max: nat, p: Seq<char>) -> Seq<Seq<char>> {
    let all = seq![p] + without(files, p);
    if all.len() > max {
        all.take(max as int)
    } else {
        all
    }
}

/// A copy of the text of `s`.
fn copy_text(s: &String) -> (r: String)
    ensures
        r@ == s@,
{
    let mut r = String::new();
    push_str(&mut r, s.as_str());
    r
}

/// Puts `path` first among the recent files, drops its other copies, and keeps
/// at most `max_recent_files` of them.
pub fn add_recent_file(recent_files: &mut Vec<String>, max_recent_files: usize, path: String)
    ensures
        texts(final(recent_files)@) == recent_after(
            texts(old(recent_files)@),
            max_recent_files as nat,
            path@,
        ),
{
    let ghost files = texts(recent_files@);
    let mut kept: Vec<String> = Vec::new();
    kept.push(copy_text(&path));
    let mut i: usize = 0;
    proof {
        assert(files.take(0) =~= Seq::<Seq<char>>::empty());
        assert(texts(kept@) =~= seq![path@] + without(files.take(0), path@));
    }
    while i < recent_files.len()
        invariant
            i <= recent_files@.len(),
            files == texts(recent_files@),
            recent_files@ == old(recent_files)@,
            texts(kept@) == seq![path@] + without(files.take(i as int), path@),
        decreases recent_files@.len() - i,
    {
        proof {
            assert(files.take(i + 1).drop_last() =~= files.take(i as int));
            assert(files.take(i + 1).last() == recent_files@[i as int]@);
        }
        let ghost before = texts(kept@);
        if !text_eq(recent_files[i].as_str(), path.as_str()) {
            kept.push(copy_text(&recent_files[i]));
            proof {
                assert(texts(kept@) =~= before.push(recent_files@[i as int]@));
                assert(without(files.take(i + 1), path@) == without(files.take(i as int), path@).push(
                    files.take(i + 1).last(),
                ));
                assert(texts(kept@) =~= seq![path@] + without(files.take(i + 1), path@));
            }
        } else {
            proof {
                assert(without(files.take(i + 1), path@) == without(files.take(i as int), path@));
            }
        }
        i = i + 1;
    }
    proof {
        assert(files.take(i as int) =~= files);
    }
    if kept.len() > max_recent_files {
        kept.truncate(max_recent_files);
        proof {
            assert(texts(kept@) =~= (seq![path@] + without(files, path@)).take(
                max_recent_files as int,
            ));
        }
    }
    *recent_files = kept;
}

/// No copy of `p` is left in `without(files, p)`, and it keeps no more than
/// `files` holds.
pub proof fn lemma_without(files: Seq<Seq<char>>, p: Seq<char>)
    ensures
        !without(files, p).contains(p),
        without(files, p).len() <= files.len(),
    decreases files.len(),
{
    if files.len() > 0 {
        lemma_without(files.drop_last(), p);
        let r = without(files.drop_last(), p);
        if files.last() != p {
            assert forall|i: int| 0 <= i < r.push(files.last()).len() implies r.push(
                files.last(),
            )[i] != p by {
                if i < r.len() {
                    assert(r[i] != p);
                }
            }
        }
    }
}

/// Opening a file puts it first in the recent files (when any are kept), keeps
/// no other copy of it, and never keeps more than the limit.
pub proof fn law_recent_files(files: Seq<Seq<char>>, max: nat, p: Seq<char>)
    ensures
        max > 0 ==> recent_after(files, max, p)[0] == p,
        recent_after(files, max, p).len() <= max,
        recent_after(files, max, p).len() <= files.len() + 1,
        forall|i: int|
            0 < i < recent_after(files, max, p).len() ==> #[trigger] recent_after(files, max, p)[i]
                != p,
{
    lemma_without(files, p);
    let all = seq![p] + without(files, p);
    assert forall|i: int| 0 < i < all.len() implies #[trigger] all[i] != p by {
        assert(all[i] == without(files, p)[i - 1]);
    }
}

} // verus!
