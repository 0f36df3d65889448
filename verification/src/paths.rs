//! Paths of files, as texts with `/` between their parts.
use vstd::prelude::*;
use crate::text::chars_of;

verus! {

/// The path of `part` below `base`. Below the empty path a part is itself.
pub open spec fn joined_path(base: Seq<char>, part: Seq<char>) -> Seq<char> {
    if base.len() == 0 {
        part
    } else {
        base + seq!['/'] + part
    }
}

/// What is left of a path below a base: nothing of the base itself, and of
/// a path that goes on after the base and a `/`, what follows them. `None`
/// for a path that does not lie below the base.
pub open spec fn path_below(path: Seq<char>, base: Seq<char>) -> Option<Seq<char>> {
    if base.len() == 0 {
        Some(path)
    } else if path == base {
        Some(Seq::empty())
    } else if path.len() > base.len() && path.take(base.len() as int) == base && path[base.len() as int]
        == '/' {
        Some(path.skip(base.len() as int + 1))
    } else {
        None
    }
}

/// What was joined below a base is found below it again.
pub proof fn lemma_below_joined(base: Seq<char>, part: Seq<char>)
    ensures
        path_below(joined_path(base, part), base) == Some(part),
{
    if base.len() > 0 {
        let path = joined_path(base, part);
        assert(path.take(base.len() as int) =~= base);
        assert(path.skip(base.len() as int + 1) =~= part);
    }
}

/// Joins a part to a base.
pub fn join(base: &str, part: &str) -> (r: String)
    ensures
        r@ == joined_path(base@, part@),
{
    if base.is_empty() {
        part.to_owned()
    } else {
        proof {
            reveal_strlit("/");
            assert("/"@ =~= seq!['/']);
        }
        base.to_owned().concat("/").concat(part)
    }
}

/// Takes a base off the front of a path.
pub fn strip_prefix(path: &str, base: &str) -> (r: Option<String>)
    ensures
        match r {
            Some(rest) => path_below(path@, base@) == Some(rest@),
            None => path_below(path@, base@) is None,
        },
{
    let whole = chars_of(path);
    let front = chars_of(base);
    if front.len() == 0 {
        return Some(path.to_owned());
    }
    if whole.len() < front.len() {
        return None;
    }
    let mut i: usize = 0;
    while i < front.len()
        invariant
            i <= front.len() <= whole.len(),
            front@ == base@,
            whole@ == path@,
            whole@.take(i as int) == front@.take(i as int),
        decreases front.len() - i,
    {
        if whole[i] != front[i] {
            proof {
                if path@.take(base@.len() as int) == base@ {
                    assert(path@.take(base@.len() as int)[i as int] == base@[i as int]);
                }
            }
            return None;
        }
        assert(whole@.take(i + 1) =~= whole@.take(i as int).push(whole[i as int]));
        assert(front@.take(i + 1) =~= front@.take(i as int).push(front[i as int]));
        i += 1;
    }
    assert(front@.take(front.len() as int) =~= front@);
    if whole.len() == front.len() {
        assert(whole@.take(whole.len() as int) =~= whole@);
        return Some(String::new());
    }
    if whole[front.len()] != '/' {
        return None;
    }
    Some(path.substring_char(front.len() + 1, whole.len()).to_owned())
}

} // verus!
