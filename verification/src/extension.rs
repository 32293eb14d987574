//! File extensions and the fixed list of extensions that are counted.

use vstd::prelude::*;
use vstd::string::*;

verus! {

/// The extension of a file name: everything after its last `.`.
///
/// A name without a `.` has no extension; a name that ends in `.` has the
/// empty one.
pub open spec fn extension_of(name: Seq<char>) -> Option<Seq<char>>
    decreases name.len(),
{
    if name.len() == 0 {
        None
    } else if name.last() == '.' {
        Some(Seq::empty())
    } else {
        match extension_of(name.drop_last()) {
            Some(ext) => Some(ext.push(name.last())),
            None => None,
        }
    }
}

/// The extensions that are counted: `rs`, `py`, `lua`, `go`, `ts` and `vue`.
pub open spec fn allowed_extensions() -> Set<Seq<char>> {
    set![
        seq!['r', 's'],
        seq!['p', 'y'],
        seq!['l', 'u', 'a'],
        seq!['g', 'o'],
        seq!['t', 's'],
        seq!['v', 'u', 'e'],
    ]
}

/// The extension under which a file name is counted, if it is counted at all.
pub open spec fn counted_extension(name: Seq<char>) -> Option<Seq<char>> {
    match extension_of(name) {
        Some(ext) if allowed_extensions().contains(ext) => Some(ext),
        _ => None,
    }
}

/// A name has an extension exactly when it holds a `.`, and the extension is
/// then the part behind the last one, which holds no `.` itself.
pub proof fn lemma_extension_is_suffix_after_last_dot(name: Seq<char>)
    ensures
        extension_of(name) is None <==> !name.contains('.'),
        extension_of(name) matches Some(ext) ==> {
            let dot = name.len() - ext.len() - 1;
            &&& 0 <= dot < name.len()
            &&& name[dot] == '.'
            &&& ext == name.skip(dot + 1)
            &&& !ext.contains('.')
        },
    decreases name.len(),
{
    if name.len() > 0 && name.last() == '.' {
        assert(name.skip(name.len() as int) =~= Seq::<char>::empty());
    } else if name.len() > 0 {
        let front = name.drop_last();
        lemma_extension_is_suffix_after_last_dot(front);
        if front.contains('.') {
            let i = choose|i: int| 0 <= i < front.len() && front[i] == '.';
            assert(name[i] == '.');
        }
        if name.contains('.') {
            let i = choose|i: int| 0 <= i < name.len() && name[i] == '.';
            assert(front[i] == '.');
        }
        match extension_of(front) {
            Some(ext) => {
                let dot = front.len() - ext.len() - 1;
                assert(ext.push(name.last()) =~= name.skip(dot + 1));
                assert(name[dot] == front[dot]);
                let grown = ext.push(name.last());
                if grown.contains('.') {
                    let i = choose|i: int| 0 <= i < grown.len() && grown[i] == '.';
                    assert(ext[i] == '.');
                }
            },
            None => {},
        }
    }
}

/// Reads the extension off a file name.
pub fn derive_extension(filename: &str) -> (ext: Option<String>)
    ensures
        match ext {
            Some(e) => extension_of(filename@) == Some(e@),
            None => extension_of(filename@) is None,
        },
{
    let n: usize = filename.unicode_len();
    let mut i: usize = n;
    while i > 0
        invariant
            i <= n,
            n == filename@.len(),
            forall|j: int| i <= j < n ==> filename@[j] != '.',
        decreases i,
    {
        if filename.get_char(i - 1) == '.' {
            let tail = filename.substring_char(i, n);
            proof {
                lemma_extension_after_dot(filename@, i - 1);
            }
            return Some(String::from_str(tail));
        }
        i -= 1;
    }
    proof {
        lemma_extension_is_suffix_after_last_dot(filename@);
    }
    None
}

/// The extension of a name whose last `.` stands at `dot`.
pub proof fn lemma_extension_after_dot(name: Seq<char>, dot: int)
    requires
        0 <= dot < name.len(),
        name[dot] == '.',
        forall|j: int| dot < j < name.len() ==> name[j] != '.',
    ensures
        extension_of(name) == Some(name.subrange(dot + 1, name.len() as int)),
{
    lemma_extension_is_suffix_after_last_dot(name);
    assert(name.contains('.'));
    let ext = extension_of(name)->0;
    let found = name.len() - ext.len() - 1;
    if found < dot {
        assert(ext[dot - found - 1] == '.');
    }
    assert(name.skip(dot + 1) =~= name.subrange(dot + 1, name.len() as int));
}

/// Whether an extension is one of those that are counted.
pub fn is_allowed(ext: &str) -> (allowed: bool)
    ensures
        allowed == allowed_extensions().contains(ext@),
{
    let n: usize = ext.unicode_len();
    if n == 2 {
        let a = ext.get_char(0);
        let b = ext.get_char(1);
        let hit = (a == 'r' && b == 's') || (a == 'p' && b == 'y') || (a == 'g' && b == 'o') || (
        a == 't' && b == 's');
        proof {
            if hit {
                assert(ext@ =~= seq![a, b]);
            }
        }
        hit
    } else if n == 3 {
        let a = ext.get_char(0);
        let b = ext.get_char(1);
        let c = ext.get_char(2);
        let hit = (a == 'l' && b == 'u' && c == 'a') || (a == 'v' && b == 'u' && c == 'e');
        proof {
            if hit {
                assert(ext@ =~= seq![a, b, c]);
            }
        }
        hit
    } else {
        false
    }
}

} // verus!
