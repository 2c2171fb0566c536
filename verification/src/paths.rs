//! Paths as texts.
//!
//! A path is a text whose components are separated by `/`.

use crate::text::{chars_of, pieces_view, split, split_on, string_of};
use vstd::prelude::*;
use vstd::string::*;

verus! {

/// The separator of path components.
pub open spec fn sep() -> char {
    '/'
}

/// A path with one more component.  A separator is put between the two
/// unless the path is empty or ends with one.
pub open spec fn push_component(acc: Seq<char>, c: Seq<char>) -> Seq<char> {
    if acc.len() == 0 || acc.last() == sep() {
        acc + c
    } else {
        acc + seq![sep()] + c
    }
}

/// What joining `name` to `base` gives: a name that begins at the root stands
/// for itself, any other name is put below `base`.
pub open spec fn joined(base: Seq<char>, name: Seq<char>) -> Seq<char> {
    if name.len() > 0 && name[0] == sep() {
        name
    } else {
        push_component(base, name)
    }
}

/// Joins `name` to `base`.
pub fn join(base: &str, name: &str) -> (r: String)
    ensures
        r@ == joined(base@, name@),
{
    let b = chars_of(base);
    let n = chars_of(name);
    if n.len() > 0 && n[0] == '/' {
        return String::from_str(name);
    }
    let mut out = String::from_str(base);
    if b.len() > 0 && b[b.len() - 1] != '/' {
        out.append("/");
        proof {
            reveal_strlit("/");
            assert("/"@ =~= seq![sep()]);
        }
    }
    out.append(name);
    out
}

/// True for a component that names a file or directory: not empty and not
/// the directory itself.
pub open spec fn is_name(c: Seq<char>) -> bool {
    c.len() > 0 && c != seq!['.']
}

/// The test `is_name`, as a value.
pub open spec fn names() -> spec_fn(Seq<char>) -> bool {
    |c: Seq<char>| is_name(c)
}

/// The last component of a path, where it names something: `None` for a
/// path without components and for one that ends in `..`.
pub open spec fn last_component(path: Seq<char>) -> Option<Seq<char>> {
    let cs = split_on(path, sep()).filter(names());
    if cs.len() == 0 || cs.last() == seq!['.', '.'] {
        None
    } else {
        Some(cs.last())
    }
}

/// The last component of a path.
pub fn file_name(path: &str) -> (r: Option<String>)
    ensures
        match r {
            Some(n) => last_component(path@) == Some(n@),
            None => last_component(path@) is None,
        },
{
    let chars = chars_of(path);
    let pieces = split(chars.as_slice(), '/');
    let ghost all = pieces_view(pieces@);
    let mut found: Option<usize> = None;
    let mut i: usize = 0;
    proof {
        reveal(Seq::filter);
        assert(all.take(0) =~= Seq::<Seq<char>>::empty());
    }
    while i < pieces.len()
        invariant
            i <= pieces@.len(),
            all == pieces_view(pieces@),
            match found {
                Some(k) => k < i && all.take(i as int).filter(names()).len() > 0 && all.take(
                    i as int,
                ).filter(names()).last() == all[k as int],
                None => all.take(i as int).filter(names()).len() == 0,
            },
        decreases pieces@.len() - i,
    {
        proof {
            reveal(Seq::filter);
            assert(all.take(i + 1).drop_last() =~= all.take(i as int));
            assert(all.take(i + 1).last() == all[i as int]);
        }
        let p = &pieces[i];
        let is_dot = p.len() == 1 && p[0] == '.';
        proof {
            if is_dot {
                assert(p@ =~= seq!['.']);
            } else if p@.len() == 1 {
                assert(p@[0] != seq!['.'][0]);
            }
        }
        if p.len() > 0 && !is_dot {
            found = Some(i);
        }
        i += 1;
    }
    assert(all.take(i as int) =~= all);
    match found {
        None => None,
        Some(k) => {
            let p = &pieces[k];
            let is_up = p.len() == 2 && p[0] == '.' && p[1] == '.';
            proof {
                if is_up {
                    assert(p@ =~= seq!['.', '.']);
                } else if p@.len() == 2 {
                    assert(p@[0] != seq!['.', '.'][0] || p@[1] != seq!['.', '.'][1]);
                }
            }
            if is_up {
                None
            } else {
                Some(string_of(p.as_slice()))
            }
        },
    }
}

} // verus!
